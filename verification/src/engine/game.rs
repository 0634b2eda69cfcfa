use super::constants::{
    DEFAULT_TIME, FORWARD_PRUNING_DEPTH_START, FORWARD_PRUNING_MINIMUM, FORWARD_PRUNING_RATIO,
    INIT_MAX_DEPTH, MATE_LEVEL, MAX_INT, MIN_INT,
};
use super::history::{history_entries, inc_spec, no_counts, History};
use super::move_gen::{index_of, law_captures_first, legal_sorted_spec, lemma_index_of, MoveGenPrime};
use super::position::{legal_moves_at, position_after, position_of_fen, GameError, Position};
use super::pvs::{search_spec, store_bounded, store_grown, Pvs};
use super::store::{no_entries, put_spec, Item, Store};
use super::timer::Timer;
use crate::misc::types::{AnnotatedMove, BoardHistory, ChessMove, Depth, MoveNumber, MoveScore, MoveTime};
use rayon::iter::{IntoParallelRefMutIterator, ParallelIterator};
use vstd::prelude::*;

verus! {

/// Start position encoded as FEN
pub const FEN_START: &'static str = "rnbqkbnr/pppppppp/8/8/8/8/PPPPPPPP/RNBQKBNR w KQkq - 0 1";

/// A chess game
pub struct Game {
    pub max_depth: Depth,
    pub board: Position,
    pub move_time: MoveTime,  // in Milliseconds
    pub move_number: MoveNumber,
    pub playing: Timer,
    pub node_count: u64,
    pub game_store: Store,
    pub game_history: History,
}

/// The text that a game starts from: the start position where none is given.
pub open spec fn start_text(fen: Seq<char>) -> Seq<char> {
    if fen.len() == 0 {
        FEN_START@
    } else {
        fen
    }
}

/// The sum of the nodes that were examined for each move.
pub open spec fn sum_nodes(moves: Seq<AnnotatedMove>) -> nat
    decreases moves.len(),
{
    if moves.len() == 0 {
        0
    } else {
        sum_nodes(moves.drop_last()) + moves.last().node_count as nat
    }
}

/// A count of nodes, as far as the counter goes.
pub open spec fn capped(n: nat) -> u64 {
    if n <= u64::MAX {
        n as u64
    } else {
        u64::MAX
    }
}

/// A score held within the range of scores.
pub open spec fn clamp_score(v: int) -> MoveScore {
    if v < MIN_INT {
        MIN_INT
    } else if v > MAX_INT {
        MAX_INT
    } else {
        v as MoveScore
    }
}

/// The score that `mv` had before, where it had one.
pub open spec fn prior_score(old: Seq<AnnotatedMove>, mv: ChessMove) -> Option<MoveScore> {
    let i = index_of(old, mv, 0);
    if i < old.len() {
        Some(old[i].sc)
    } else {
        None
    }
}

/// How far the first `n` moves of `new` have fallen since they were scored before, summed
/// over those that were.
pub open spec fn drift_sum(old: Seq<AnnotatedMove>, new: Seq<AnnotatedMove>, n: nat) -> int
    decreases n,
{
    if n == 0 || n > new.len() {
        0
    } else {
        drift_sum(old, new, (n - 1) as nat) + (match prior_score(old, new[n - 1].mv) {
            Some(sc) => sc - new[n - 1].sc,
            None => 0,
        })
    }
}

/// The quotient rounded towards 0.
pub open spec fn quotient(a: int, b: int) -> int
    recommends
        b > 0,
{
    if a >= 0 {
        a / b
    } else {
        -((-a) / b)
    }
}

/// The mean drift of the moves of `new`.
pub open spec fn mean_drift(old: Seq<AnnotatedMove>, new: Seq<AnnotatedMove>) -> int {
    if new.len() == 0 {
        0
    } else {
        quotient(drift_sum(old, new, new.len()), new.len() as int)
    }
}

/// A move after stabilisation: a move that was scored before moves by the mean drift, but
/// not above its score from before.
pub open spec fn stabilised_move(old: Seq<AnnotatedMove>, mean: int, m: AnnotatedMove) -> AnnotatedMove {
    match prior_score(old, m.mv) {
        Some(sc) => AnnotatedMove {
            sc: clamp_score(
                if m.sc + mean <= sc {
                    m.sc + mean
                } else {
                    sc as int
                },
            ),
            ..m
        },
        None => m,
    }
}

/// The moves of `new` after stabilisation against their scores in `old`.
pub open spec fn stabilised(old: Seq<AnnotatedMove>, new: Seq<AnnotatedMove>) -> Seq<AnnotatedMove> {
    Seq::new(new.len(), |i: int| stabilised_move(old, mean_drift(old, new), new[i]))
}

/// Where a move goes into a list that is sorted by falling score: behind every move that
/// scores at least as high.
pub open spec fn slot(s: Seq<AnnotatedMove>, m: AnnotatedMove) -> int
    decreases s.len(),
{
    if s.len() == 0 {
        0
    } else if s.last().sc >= m.sc {
        s.len() as int
    } else {
        slot(s.drop_last(), m)
    }
}

/// The moves sorted by falling score, moves of equal score in the order they had.
pub open spec fn sorted_by_score(s: Seq<AnnotatedMove>) -> Seq<AnnotatedMove>
    decreases s.len(),
{
    if s.len() == 0 {
        Seq::empty()
    } else {
        let front = sorted_by_score(s.drop_last());
        front.insert(slot(front, s.last()), s.last())
    }
}

/// How many of `n` moves forward pruning keeps.
pub open spec fn kept(n: nat) -> nat {
    let floor = if n / (FORWARD_PRUNING_RATIO as nat) >= FORWARD_PRUNING_MINIMUM {
        n / (FORWARD_PRUNING_RATIO as nat)
    } else {
        FORWARD_PRUNING_MINIMUM as nat
    };
    if floor < n {
        floor
    } else {
        n
    }
}

/// The moves that forward pruning keeps at a depth: from the depth at which pruning starts
/// the best moves of a list whose last move scores below its first, else all of them.
pub open spec fn pruned(s: Seq<AnnotatedMove>, depth: Depth) -> Seq<AnnotatedMove> {
    if depth >= FORWARD_PRUNING_DEPTH_START && s.len() > 0 && s.last().sc < s[0].sc {
        s.take(kept(s.len()) as int)
    } else {
        s
    }
}

/// A root move with its score at a depth and the nodes that were examined for it, as long
/// as the timer lets the search run: the negated value of the position after the move,
/// which is counted in the history, searched with the whole window. A move that cannot be
/// played scores lowest.
#[verifier::opaque]
pub open spec fn root_score(
    fen: Seq<char>,
    table: Map<u64, Item>,
    history: Map<u64, BoardHistory>,
    depth: Depth,
    m: AnnotatedMove,
) -> AnnotatedMove {
    match position_after(fen, m.mv) {
        Some(b1) => {
            let o = search_spec(table, 0, inc_spec(history, b1.key), b1, depth, MIN_INT, MAX_INT);
            AnnotatedMove { sc: (-o.score) as MoveScore, node_count: o.nodes, ..m }
        },
        None => AnnotatedMove { sc: MIN_INT, node_count: 0, ..m },
    }
}

/// The moves, each scored at a depth.
pub open spec fn scored(
    fen: Seq<char>,
    table: Map<u64, Item>,
    history: Map<u64, BoardHistory>,
    depth: Depth,
    moves: Seq<AnnotatedMove>,
) -> Seq<AnnotatedMove> {
    Seq::new(moves.len(), |i: int| root_score(fen, table, history, depth, moves[i]))
}

/// The root moves as they stand once a depth was searched to its end: the moves that the
/// depth before has left after pruning, or all root moves at depth 0, are scored at the
/// depth, stabilised against their scores from before at every odd depth, and sorted by
/// falling score.
pub open spec fn ranked(
    fen: Seq<char>,
    table: Map<u64, Item>,
    history: Map<u64, BoardHistory>,
    root: Seq<AnnotatedMove>,
    depth: Depth,
) -> Seq<AnnotatedMove>
    decreases depth,
{
    if depth < 0 {
        root
    } else {
        let start = if depth == 0 {
            root
        } else {
            pruned(ranked(fen, table, history, root, (depth - 1) as Depth), (depth - 1) as Depth)
        };
        let fresh = scored(fen, table, history, depth, start);
        sorted_by_score(
            if depth % 2 == 1 {
                stabilised(start, fresh)
            } else {
                fresh
            },
        )
    }
}

/// What holds of a move that was found at a depth: it is the first of the moves ranked at
/// that depth, none of the depths before has found a mate, and the table has taken the
/// move with its score, at the depth itself or, where the score is that of a mate, at the
/// depth before.
pub open spec fn found_at(
    fen: Seq<char>,
    table: Map<u64, Item>,
    history: Map<u64, BoardHistory>,
    root: Seq<AnnotatedMove>,
    depth: Depth,
    key: u64,
    m: ChessMove,
    table_after: Map<u64, Item>,
) -> bool {
    let list = ranked(fen, table, history, root, depth);
    &&& list.len() > 0
    &&& m == list[0].mv
    &&& forall|e: Depth|
        0 <= e < depth ==> (#[trigger] ranked(fen, table, history, root, e))[0].sc <= MATE_LEVEL
    &&& table_after == put_spec(
        table,
        key,
        Item {
            depth: if list[0].sc > MATE_LEVEL {
                (depth - 1) as Depth
            } else {
                depth
            },
            value: list[0].sc,
            chessmove: m,
        },
    )
}

/// Every move of `s` is a move of `root`.
pub open spec fn moves_from(s: Seq<AnnotatedMove>, root: Seq<AnnotatedMove>) -> bool {
    forall|i: int| 0 <= i < s.len() ==> index_of(root, #[trigger] s[i].mv, 0) < root.len()
}

/// Both lists hold the same moves with the same capture flags, place by place.
pub open spec fn same_moves(a: Seq<AnnotatedMove>, b: Seq<AnnotatedMove>) -> bool {
    &&& a.len() == b.len()
    &&& forall|i: int| 0 <= i < a.len() ==> (#[trigger] a[i]).mv == b[i].mv && a[i].cp == b[i].cp
}

/// The nodes that were examined for all moves together.
pub fn update_node_count(prior_values: &Vec<AnnotatedMove>) -> (r: u64)
    ensures
        r == capped(sum_nodes(prior_values@)),
{
    let mut node_count: u64 = 0;
    let mut i: usize = 0;
    assert(prior_values@.take(0) =~= Seq::empty());
    while i < prior_values.len()
        invariant
            i <= prior_values@.len(),
            node_count == capped(sum_nodes(prior_values@.take(i as int))),
        decreases prior_values@.len() - i,
    {
        assert(prior_values@.take(i + 1).drop_last() =~= prior_values@.take(i as int));
        node_count = node_count.saturating_add(prior_values[i].node_count);
        i += 1;
    }
    assert(prior_values@.take(prior_values@.len() as int) =~= prior_values@);
    node_count
}

/// The score that `mv` had before, where it had one.
fn find_prior(old: &Vec<AnnotatedMove>, mv: &ChessMove) -> (r: Option<MoveScore>)
    ensures
        r == prior_score(old@, *mv),
{
    let mut i: usize = 0;
    while i < old.len()
        invariant
            i <= old@.len(),
            index_of(old@, *mv, 0) == index_of(old@, *mv, i as int),
        decreases old@.len() - i,
    {
        if old[i].mv == *mv {
            return Some(old[i].sc);
        }
        i += 1;
    }
    None
}

/// Damp what one more ply has changed: every move that was scored at the depth before
/// moves by the mean drift of all of them, but not above its score from before. The moves
/// are matched by what they are, not by their place.
pub fn stabilise_search_results(old: &Vec<AnnotatedMove>, new: &Vec<AnnotatedMove>) -> (r: Vec<
    AnnotatedMove,
>)
    ensures
        r@ == stabilised(old@, new@),
{
    let len = new.len();
    if len == 0 {
        assert(stabilised(old@, new@) =~= Seq::empty());
        return Vec::new();
    }
    let mut sum: i128 = 0;
    let mut i: usize = 0;
    while i < len
        invariant
            len == new@.len(),
            i <= len,
            sum == drift_sum(old@, new@, i as nat),
            -(i as int) * 0x1_0000_0000 <= sum <= (i as int) * 0x1_0000_0000,
        decreases len - i,
    {
        match find_prior(old, &new[i].mv) {
            Some(sc) => {
                sum = sum + (sc as i128 - new[i].sc as i128);
            },
            None => {},
        }
        i += 1;
    }
    let diff_mean: i128 = sum / (len as i128);
    assert(diff_mean == mean_drift(old@, new@)) by {
        lemma_quotient(sum as int, len as int);
    }
    assert(-0x1_0000_0000 <= diff_mean <= 0x1_0000_0000) by {
        lemma_quotient_bound(sum as int, len as int, 0x1_0000_0000);
    }
    let mut result: Vec<AnnotatedMove> = Vec::new();
    let mut j: usize = 0;
    while j < len
        invariant
            len == new@.len(),
            j <= len,
            -0x1_0000_0000 <= diff_mean <= 0x1_0000_0000,
            result@.len() == j,
            forall|k: int|
                0 <= k < j ==> #[trigger] result@[k] == stabilised_move(
                    old@,
                    diff_mean as int,
                    new@[k],
                ),
        decreases len - j,
    {
        let mut adjusted_move = new[j];
        match find_prior(old, &adjusted_move.mv) {
            Some(sc) => {
                let moved: i128 = adjusted_move.sc as i128 + diff_mean;
                let capped: i128 = if moved <= sc as i128 {
                    moved
                } else {
                    sc as i128
                };
                adjusted_move.sc = if capped < MIN_INT as i128 {
                    MIN_INT
                } else if capped > MAX_INT as i128 {
                    MAX_INT
                } else {
                    capped as MoveScore
                };
            },
            None => {},
        }
        result.push(adjusted_move);
        j += 1;
    }
    assert(result@ =~= stabilised(old@, new@));
    result
}

/// Division of machine integers rounds towards 0.
pub proof fn lemma_quotient(a: int, b: int)
    requires
        b > 0,
    ensures
        a >= 0 ==> quotient(a, b) == a / b,
        a < 0 ==> quotient(a, b) == -((-a) / b),
{
}

/// A quotient of a sum of `b` terms is no greater than the greatest term.
pub proof fn lemma_quotient_bound(a: int, b: int, c: int)
    requires
        b > 0,
        c >= 0,
        -b * c <= a <= b * c,
    ensures
        -c <= quotient(a, b) <= c,
{
    assert((-b) * c == -(b * c)) by (nonlinear_arith);
    if a >= 0 {
        assert(a / b <= c) by (nonlinear_arith)
            requires
                b > 0,
                0 <= a <= b * c,
        ;
        assert(a / b >= 0) by (nonlinear_arith)
            requires
                b > 0,
                0 <= a,
        ;
    } else {
        assert((-a) / b <= c) by (nonlinear_arith)
            requires
                b > 0,
                0 <= -a <= b * c,
        ;
        assert((-a) / b >= 0) by (nonlinear_arith)
            requires
                b > 0,
                0 <= -a,
        ;
    }
}

/// Sort the moves by falling score. Moves of equal score keep their order.
pub fn sort_by_score(moves: &Vec<AnnotatedMove>) -> (r: Vec<AnnotatedMove>)
    ensures
        r@ == sorted_by_score(moves@),
{
    let mut result: Vec<AnnotatedMove> = Vec::new();
    let mut i: usize = 0;
    assert(moves@.take(0) =~= Seq::empty());
    while i < moves.len()
        invariant
            i <= moves@.len(),
            result@ == sorted_by_score(moves@.take(i as int)),
            result@.len() == i,
        decreases moves@.len() - i,
    {
        let m = moves[i];
        let mut j: usize = result.len();
        assert(result@.take(j as int) =~= result@);
        while j > 0 && result[j - 1].sc < m.sc
            invariant
                j <= result@.len(),
                slot(result@, m) == slot(result@.take(j as int), m),
            decreases j,
        {
            assert(result@.take(j as int).drop_last() =~= result@.take(j - 1));
            j -= 1;
        }
        proof {
            if j > 0 {
                assert(result@.take(j as int).last() == result@[j - 1]);
            }
            assert(slot(result@, m) == j);
            assert(moves@.take(i + 1).drop_last() =~= moves@.take(i as int));
        }
        result.insert(j, m);
        i += 1;
    }
    assert(moves@.take(moves@.len() as int) =~= moves@);
    result
}

/// Forward pruning: from the depth at which pruning starts, keep only the best moves of a
/// list sorted by falling score.
pub fn forward_prune(moves: &mut Vec<AnnotatedMove>, depth: Depth)
    ensures
        final(moves)@ == pruned(old(moves)@, depth),
{
    if depth >= FORWARD_PRUNING_DEPTH_START {
        let moves_count = moves.len();
        if moves_count > 0 {
            let worst_value = moves[moves_count - 1].sc;
            let best_value = moves[0].sc;
            if worst_value < best_value {
                let share = moves_count / FORWARD_PRUNING_RATIO;
                let cut_index = if share >= FORWARD_PRUNING_MINIMUM {
                    share
                } else {
                    FORWARD_PRUNING_MINIMUM
                };
                moves.truncate(cut_index);
                assert(moves@ =~= pruned(old(moves)@, depth));
            }
        }
    }
}

/// Sorting keeps what the list holds and puts it in falling order of score.
pub proof fn law_sorted_by_score(s: Seq<AnnotatedMove>)
    ensures
        sorted_by_score(s).len() == s.len(),
        sorted_by_score(s).to_multiset() == s.to_multiset(),
        forall|i: int, j: int|
            0 <= i < j < s.len() ==> (#[trigger] sorted_by_score(s)[i]).sc >= (
            #[trigger] sorted_by_score(s)[j]).sc,
        forall|i: int| 0 <= i < s.len() ==> s.contains(#[trigger] sorted_by_score(s)[i]),
    decreases s.len(),
{
    broadcast use vstd::multiset::group_multiset_axioms;

    if s.len() > 0 {
        let front = sorted_by_score(s.drop_last());
        law_sorted_by_score(s.drop_last());
        lemma_slot(front, s.last());
        let k = slot(front, s.last());
        vstd::seq_lib::to_multiset_insert(front, k, s.last());
        vstd::seq_lib::to_multiset_build(s.drop_last(), s.last());
        assert(s.drop_last().push(s.last()) =~= s);
        let r = sorted_by_score(s);
        assert(r == front.insert(k, s.last()));
        assert(r.to_multiset() == front.to_multiset().insert(s.last()));
        assert(s.to_multiset() =~= s.drop_last().to_multiset().insert(s.last()));
        assert(r.to_multiset() =~= s.to_multiset());
        assert forall|i: int, j: int| 0 <= i < j < s.len() implies (#[trigger] r[i]).sc >= (
        #[trigger] r[j]).sc by {
            if i < k && j == k {
            } else if i < k && j > k {
                assert(r[j] == front[j - 1]);
            } else if i == k {
                assert(r[j] == front[j - 1]);
            } else if j < k {
            } else {
                assert(r[i] == front[i - 1]);
                assert(r[j] == front[j - 1]);
            }
        }
        assert forall|i: int| 0 <= i < s.len() implies s.contains(#[trigger] r[i]) by {
            vstd::seq_lib::to_multiset_contains(r, r[i]);
            vstd::seq_lib::to_multiset_contains(s, r[i]);
            assert(r.contains(r[i]));
        }
    } else {
        assert(sorted_by_score(s) =~= s);
    }
}

/// The slot of a move in a sorted list lies within the list, behind every move that scores
/// at least as high and before every move that scores lower.
pub proof fn lemma_slot(s: Seq<AnnotatedMove>, m: AnnotatedMove)
    requires
        forall|i: int, j: int| 0 <= i < j < s.len() ==> (#[trigger] s[i]).sc >= (#[trigger] s[j]).sc,
    ensures
        0 <= slot(s, m) <= s.len(),
        forall|i: int| 0 <= i < slot(s, m) ==> (#[trigger] s[i]).sc >= m.sc,
        forall|i: int| slot(s, m) <= i < s.len() ==> (#[trigger] s[i]).sc < m.sc,
    decreases s.len(),
{
    if s.len() > 0 {
        let front = s.drop_last();
        if s.last().sc < m.sc {
            lemma_slot(front, m);
            assert forall|i: int| 0 <= i < slot(s, m) implies (#[trigger] s[i]).sc >= m.sc by {
                assert(front[i] == s[i]);
            }
            assert forall|i: int| slot(s, m) <= i < s.len() implies (#[trigger] s[i]).sc
                < m.sc by {
                if i < front.len() {
                    assert(front[i] == s[i]);
                }
            }
        } else {
            assert forall|i: int| 0 <= i < slot(s, m) implies (#[trigger] s[i]).sc >= m.sc by {
                if i < s.len() - 1 {
                    assert(s[i].sc >= s[s.len() - 1].sc);
                }
            }
        }
    }
}

/// Every score lies within the range of scores.
pub open spec fn scores_valid(s: Seq<AnnotatedMove>) -> bool {
    forall|i: int| 0 <= i < s.len() ==> MIN_INT <= (#[trigger] s[i]).sc <= MAX_INT
}

/// Whether every entry is true.
fn all_true(v: &Vec<bool>) -> (r: bool)
    ensures
        r == (forall|i: int| 0 <= i < v@.len() ==> v@[i]),
{
    let mut i: usize = 0;
    while i < v.len()
        invariant
            i <= v@.len(),
            forall|k: int| 0 <= k < i ==> v@[k],
        decreases v@.len() - i,
    {
        if !v[i] {
            return false;
        }
        i += 1;
    }
    true
}

/// A copy of the list.
fn copy_moves(v: &Vec<AnnotatedMove>) -> (r: Vec<AnnotatedMove>)
    ensures
        r@ == v@,
{
    let mut r: Vec<AnnotatedMove> = Vec::new();
    let mut i: usize = 0;
    while i < v.len()
        invariant
            i <= v@.len(),
            r@ == v@.take(i as int),
        decreases v@.len() - i,
    {
        r.push(v[i]);
        assert(r@ =~= v@.take(i + 1));
        i += 1;
    }
    assert(v@.take(v@.len() as int) =~= v@);
    r
}

/// Calls `par_iter_mut`, `map` and `collect` of rayon, which hand every entry of the list
/// to the closure once, on whatever thread is free, and gather what the closure returns in
/// the order of the list. The contract states what [`Game::score_root_move`] leaves of an
/// entry: the move and its capture flag stay and the score is a score however the search
/// went, and an entry whose flag is true holds the score and the nodes of a search that
/// came to its end.
#[verifier::external_body]
fn score_moves(game: &Game, depth: Depth, moves: &mut Vec<AnnotatedMove>) -> (r: Vec<bool>)
    requires
        game.wf(),
    ensures
        same_moves(final(moves)@, old(moves)@),
        scores_valid(final(moves)@),
        r@.len() == old(moves)@.len(),
        forall|i: int|
            0 <= i < r@.len() && #[trigger] r@[i] ==> final(moves)@[i] == game.root_score_spec(
                depth,
                old(moves)@[i],
            ),
{
    moves.par_iter_mut().map(|m| game.score_root_move(depth, m)).collect()
}

impl Game {
    /// The transposition table of the game.
    pub open spec fn table(&self) -> Map<u64, Item> {
        self.game_store@
    }

    /// The time limit that was last set.
    pub open spec fn time_limit(&self) -> Option<MoveTime> {
        self.playing.limit()
    }

    /// Every score in the table of the game is a score.
    pub open spec fn wf(&self) -> bool {
        store_bounded(self.table())
    }

    /// Create a game giving a position as a FEN, max depth and a move time. An empty text
    /// stands for the start position, a depth of 0 for the greatest depth and a move time
    /// of 0 for the default time.
    pub fn new(fen: String, max_depth: Depth, move_time: MoveTime) -> (r: Result<Self, GameError>)
        ensures
            r is Ok <==> position_of_fen(start_text(fen@)) is Some,
            r matches Err(e) ==> e == GameError::InvalidFen,
            r matches Ok(g) ==> {
                &&& Some(g.board@) == position_of_fen(start_text(fen@))
                &&& g.max_depth == (if max_depth == 0 {
                    INIT_MAX_DEPTH
                } else {
                    max_depth
                })
                &&& g.move_time == (if move_time == 0 {
                    DEFAULT_TIME
                } else {
                    move_time
                })
                &&& g.move_number == 0
                &&& g.node_count == 0
                &&& g.table() == no_entries()
                &&& history_entries(g.game_history) == no_counts()
                &&& g.wf()
            },
    {
        let parsed = if fen.as_str().is_empty() {
            Position::from_fen(FEN_START)
        } else {
            Position::from_fen(fen.as_str())
        };
        match parsed {
            Ok(board) => Ok(
                Self {
                    max_depth: if max_depth == 0 {
                        INIT_MAX_DEPTH
                    } else {
                        max_depth
                    },
                    board,
                    playing: Timer::unlimited(),
                    move_time: if move_time == 0 {
                        DEFAULT_TIME
                    } else {
                        move_time
                    },
                    move_number: 0,
                    node_count: 0,
                    game_store: Store::new(),
                    game_history: History::new(),
                },
            ),
            Err(e) => Err(e),
        }
    }

    /// A root move with its score at a depth, see [`root_score`], searched with a table and
    /// a history like those of the game.
    pub open spec fn root_score_spec(&self, depth: Depth, m: AnnotatedMove) -> AnnotatedMove {
        root_score(self.board.fen@, self.game_store@, self.game_history@, depth, m)
    }

    /// Set a timer to stop playing after the move time has elapsed.
    pub fn set_timer(&mut self)
        ensures
            final(self).time_limit() == Some(old(self).move_time),
            final(self).table() == old(self).table(),
            final(self).board == old(self).board,
            final(self).max_depth == old(self).max_depth,
            final(self).move_time == old(self).move_time,
            final(self).move_number == old(self).move_number,
            final(self).node_count == old(self).node_count,
            final(self).game_history == old(self).game_history,
    {
        self.playing = Timer::start(self.move_time);
    }

    /// Score one root move at a depth: the value of the position after it for the side
    /// that makes it, searched on a copy of the table and of the history of the game.
    /// Returns whether the search came to its end; where the timer stopped it the score
    /// counts for nothing.
    pub fn score_root_move(&self, depth: Depth, m: &mut AnnotatedMove) -> (r: bool)
        requires
            self.wf(),
        ensures
            final(m).mv == old(m).mv,
            final(m).cp == old(m).cp,
            MIN_INT <= final(m).sc <= MAX_INT,
            r ==> *final(m) == self.root_score_spec(depth, *old(m)),
            self.playing.limit() is None ==> r,
    {
        reveal(root_score);
        let mut pvs = Pvs {
            history: self.game_history.snapshot(),
            node_count: 0,
            store: self.game_store.snapshot(),
            stopped: false,
        };
        match self.board.play(&m.mv) {
            Some(b1) => {
                let seen = pvs.history.get(&b1);
                pvs.history.inc(&b1);
                let sc = -pvs.execute(&b1, depth, -MAX_INT, -MIN_INT, &self.playing, m.cp);
                if seen < BoardHistory::MAX {
                    pvs.history.dec(&b1);
                }
                *m = AnnotatedMove { mv: m.mv, sc, cp: m.cp, node_count: pvs.node_count };
                !pvs.stopped
            },
            None => {
                *m = AnnotatedMove { mv: m.mv, sc: MIN_INT, cp: m.cp, node_count: 0 };
                true
            },
        }
    }

    /// Find the best move: the legal moves are scored at growing depth until the greatest
    /// depth is reached, a mate is found or the move time is over. The move that was best
    /// at the last depth that was searched to its end is returned and stored in the table
    /// of the game; a depth that the timer has cut short counts for nothing. Where not even
    /// the first depth was searched to its end, the first of the legal moves in their order
    /// of trial is returned and the table stays as it is. A single legal move is returned
    /// at once.
    pub fn find_move(&mut self) -> (r: Option<ChessMove>)
        requires
            old(self).wf(),
        ensures
            final(self).wf(),
            final(self).board == old(self).board,
            final(self).max_depth == old(self).max_depth,
            final(self).move_time == old(self).move_time,
            final(self).move_number == old(self).move_number,
            final(self).game_history == old(self).game_history,
            final(self).time_limit() == Some(old(self).move_time),
            final(self).node_count >= old(self).node_count,
            r is None <==> legal_moves_at(old(self).board.fen@).len() == 0,
            r matches Some(m) ==> legal_moves_at(old(self).board.fen@).contains(m),
            legal_moves_at(old(self).board.fen@).len() == 1 ==> r == Some(
                legal_moves_at(old(self).board.fen@)[0],
            ) && final(self).node_count == old(self).node_count && final(self).table() == old(self).table(),
            store_grown(old(self).table(), final(self).table()),
            r matches Some(m) ==> (m == legal_sorted_spec(old(self).board@, None)[0].mv && final(self).table() == old(self).table()) || exists|
                d: Depth,
            |
                {
                    &&& 0 <= d <= old(self).max_depth
                    &&& #[trigger] found_at(
                        old(self).board.fen@,
                        old(self).table(),
                        old(self).game_history@,
                        legal_sorted_spec(old(self).board@, None),
                        d,
                        old(self).board.key,
                        m,
                        final(self).table(),
                    )
                },
            r is None ==> final(self).table() == old(self).table(),
    {
        let mut prior_values = self.board.get_legal_sorted(None);
        let ghost root = prior_values@;
        let ghost fen = self.board.fen@;
        let ghost table = self.table();
        let ghost history = self.game_history@;
        proof {
            law_captures_first(self.board@);
            assert forall|i: int| 0 <= i < root.len() implies index_of(
                root,
                #[trigger] root[i].mv,
                0,
            ) < root.len() by {
                lemma_index_of(root, root[i].mv, 0);
            }
        }
        self.set_timer();
        if prior_values.len() == 0 {
            return None;
        }
        if prior_values.len() == 1 {
            proof {
                let legal = legal_moves_at(self.board.fen@);
                assert(legal.contains(root[0].mv));
            }
            return Some(prior_values[0].mv);
        }
        let mut prior_values_old: Vec<AnnotatedMove> = Vec::new();
        let mut best_move: ChessMove = prior_values[0].mv;
        let mut best_value: MoveScore = MIN_INT;
        let mut completed = false;
        let mut reached: Depth = -1;
        let mut current_depth: Depth = 0;
        let ghost mut last: Depth = 0;
        while current_depth <= self.max_depth
            invariant_except_break
                prior_values@ == (if current_depth == 0 {
                    root
                } else {
                    pruned(
                        ranked(fen, table, history, root, (current_depth - 1) as Depth),
                        (current_depth - 1) as Depth,
                    )
                }),
                current_depth > 0 ==> prior_values_old@ == prior_values@,
                completed == (current_depth > 0),
                completed ==> last == current_depth - 1 && best_value <= MATE_LEVEL,
            invariant
                self.wf(),
                self.board == old(self).board,
                self.max_depth == old(self).max_depth,
                self.move_time == old(self).move_time,
                self.move_number == old(self).move_number,
                self.game_history == old(self).game_history,
                self.time_limit() == Some(old(self).move_time),
                self.table() == old(self).table(),
                self.node_count >= old(self).node_count,
                fen == old(self).board.fen@,
                table == old(self).table(),
                history == old(self).game_history@,
                prior_values@.len() >= 1,
                root.len() >= 1,
                moves_from(prior_values@, root),
                scores_valid(prior_values@),
                index_of(root, best_move, 0) < root.len(),
                MIN_INT <= best_value <= MAX_INT,
                0 <= current_depth,
                -1 <= reached <= current_depth,
                completed ==> reached <= self.max_depth,
                !completed ==> best_move == root[0].mv && reached == -1,
                forall|e: Depth|
                    0 <= e < current_depth ==> (#[trigger] ranked(fen, table, history, root, e))[0].sc
                        <= MATE_LEVEL,
                completed ==> {
                    &&& 0 <= last <= current_depth
                    &&& last <= self.max_depth
                    &&& ranked(fen, table, history, root, last).len() > 0
                    &&& best_move == ranked(fen, table, history, root, last)[0].mv
                    &&& best_value == ranked(fen, table, history, root, last)[0].sc
                    &&& reached == (if best_value > MATE_LEVEL {
                        last - 1
                    } else {
                        last as int
                    })
                },
            decreases self.max_depth - current_depth + 1,
        {
            let ghost before = prior_values@;
            let done = score_moves(self, current_depth, &mut prior_values);
            assert(moves_from(prior_values@, root)) by {
                assert forall|i: int| 0 <= i < prior_values@.len() implies index_of(
                    root,
                    #[trigger] prior_values@[i].mv,
                    0,
                ) < root.len() by {
                    assert(prior_values@[i].mv == before[i].mv);
                }
            }
            if !all_true(&done) || !self.playing.playing() {
                self.node_count = self.node_count.saturating_add(update_node_count(&prior_values));
                break ;
            }
            assert(prior_values@ =~= scored(fen, table, history, current_depth, before)) by {
                assert forall|i: int| 0 <= i < before.len() implies prior_values@[i] == root_score(
                    fen,
                    table,
                    history,
                    current_depth,
                    before[i],
                ) by {
                    assert(done@[i]);
                }
            }
            if current_depth % 2 == 1 {
                let ghost fresh = prior_values@;
                prior_values = stabilise_search_results(&prior_values_old, &prior_values);
                assert(moves_from(prior_values@, root) && scores_valid(prior_values@)) by {
                    assert forall|i: int| 0 <= i < prior_values@.len() implies index_of(
                        root,
                        #[trigger] prior_values@[i].mv,
                        0,
                    ) < root.len() && MIN_INT <= prior_values@[i].sc <= MAX_INT by {
                        assert(prior_values@[i].mv == fresh[i].mv);
                    }
                }
            }
            let ghost unsorted = prior_values@;
            prior_values = sort_by_score(&prior_values);
            proof {
                law_sorted_by_score(unsorted);
                assert forall|i: int| 0 <= i < prior_values@.len() implies index_of(
                    root,
                    #[trigger] prior_values@[i].mv,
                    0,
                ) < root.len() && MIN_INT <= prior_values@[i].sc <= MAX_INT by {
                    let e = prior_values@[i];
                    assert(unsorted.contains(e));
                    let j = choose|j: int| 0 <= j < unsorted.len() && unsorted[j] == e;
                    assert(unsorted[j].mv == e.mv);
                }
                assert(prior_values@ == ranked(fen, table, history, root, current_depth));
                last = current_depth;
            }
            best_move = prior_values[0].mv;
            best_value = prior_values[0].sc;
            completed = true;
            if best_value > MATE_LEVEL {
                break ;
            }
            self.node_count = self.node_count.saturating_add(update_node_count(&prior_values));

            // Forward pruning
            forward_prune(&mut prior_values, current_depth);

            reached = current_depth;
            prior_values_old = copy_moves(&prior_values);
            if current_depth == Depth::MAX {
                break ;
            }
            current_depth += 1;
        }
        if completed {
            self.game_store.put(reached, best_value, &self.board, &best_move);
            assert(found_at(
                fen,
                table,
                history,
                root,
                last,
                old(self).board.key,
                best_move,
                self.table(),
            ));
        }
        proof {
            lemma_index_of(root, best_move, 0);
            let i = index_of(root, best_move, 0);
            assert(legal_moves_at(self.board.fen@).contains(root[i].mv));
        }
        Some(best_move)
    }
}

} // verus!
