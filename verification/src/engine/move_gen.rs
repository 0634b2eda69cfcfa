use crate::engine::position::{legal_moves_at, Layout, Position, PositionView};
use crate::misc::types::{AnnotatedMove, ChessMove};
use vstd::prelude::*;

verus! {

/// A trait to extend the move generator of crate Cozy Chess.
pub trait MoveGenPrime {
    fn get_legal_sorted(&self, old_move: Option<ChessMove>) -> Vec<AnnotatedMove>;
}

/// A move is a capture where its destination holds a piece of the side that is not to
/// move. Capturing en passant, which goes to an empty square, does not count.
pub open spec fn is_capture(l: Layout, mv: ChessMove) -> bool {
    (l.enemy_spec() >> (mv.to as u64)) & 1 == 1
}

/// A move as the search first sees it: no score, no nodes counted.
pub open spec fn annotate(mv: ChessMove, cp: bool) -> AnnotatedMove {
    AnnotatedMove { mv, sc: 0, cp, node_count: 0 }
}

/// The captures among `moves` (or, for `cp` false, the other moves), in the order of
/// `moves`.
pub open spec fn select(l: Layout, moves: Seq<ChessMove>, cp: bool) -> Seq<AnnotatedMove>
    decreases moves.len(),
{
    if moves.len() == 0 {
        Seq::empty()
    } else {
        let rest = select(l, moves.drop_last(), cp);
        if is_capture(l, moves.last()) == cp {
            rest.push(annotate(moves.last(), cp))
        } else {
            rest
        }
    }
}

/// All captures, then all other moves.
pub open spec fn captures_first(l: Layout, moves: Seq<ChessMove>) -> Seq<AnnotatedMove> {
    select(l, moves, true) + select(l, moves, false)
}

/// The first index at or after `from` at which `mv` stands in `s`, or the length of `s`
/// where it stands at none.
pub open spec fn index_of(s: Seq<AnnotatedMove>, mv: ChessMove, from: int) -> int
    decreases s.len() - from,
{
    if from < 0 || from >= s.len() {
        s.len() as int
    } else if s[from].mv == mv {
        from
    } else {
        index_of(s, mv, from + 1)
    }
}

/// The list with `mv` exchanged with the first entry, where `mv` stands in the list.
pub open spec fn promote(s: Seq<AnnotatedMove>, mv: ChessMove) -> Seq<AnnotatedMove> {
    let i = index_of(s, mv, 0);
    if i < s.len() {
        s.update(0, s[i]).update(i, s[0])
    } else {
        s
    }
}

/// The legal moves of a position in the order in which the search tries them: captures
/// first, and before all the move that is given as a hint, where it is legal.
#[verifier::opaque]
pub open spec fn legal_sorted_spec(p: PositionView, old_move: Option<ChessMove>) -> Seq<
    AnnotatedMove,
> {
    let sorted = captures_first(p.layout, legal_moves_at(p.fen));
    match old_move {
        Some(mv) => promote(sorted, mv),
        None => sorted,
    }
}

/// Whether the destination of the move holds a piece of the side that is not to move.
pub fn captures(l: &Layout, mv: &ChessMove) -> (r: bool)
    requires
        mv.wf(),
    ensures
        r == is_capture(*l, *mv),
{
    (l.enemy() >> (mv.to as u64)) & 1 == 1
}

/// Append to `out` the captures among `moves` (or, for `cp` false, the other moves).
fn push_selected(l: &Layout, moves: &Vec<ChessMove>, cp: bool, out: &mut Vec<AnnotatedMove>)
    requires
        forall|i: int| 0 <= i < moves@.len() ==> (#[trigger] moves@[i]).wf(),
    ensures
        final(out)@ == old(out)@ + select(*l, moves@, cp),
{
    let mut i: usize = 0;
    assert(moves@.take(0) =~= Seq::empty());
    while i < moves.len()
        invariant
            i <= moves@.len(),
            forall|k: int| 0 <= k < moves@.len() ==> (#[trigger] moves@[k]).wf(),
            out@ == old(out)@ + select(*l, moves@.take(i as int), cp),
        decreases moves@.len() - i,
    {
        let mv = moves[i];
        assert(moves@[i as int].wf());
        proof {
            let next = moves@.take(i + 1);
            assert(next.drop_last() =~= moves@.take(i as int));
            assert(next.last() == mv);
        }
        if captures(l, &mv) == cp {
            out.push(AnnotatedMove { mv, sc: 0, cp, node_count: 0 });
            assert(out@ =~= old(out)@ + select(*l, moves@.take(i + 1), cp));
        }
        i += 1;
    }
    assert(moves@.take(moves@.len() as int) =~= moves@);
}

/// Exchange the first entry with the first one that holds `mv`, where there is one.
pub fn promote_move(moves: &mut Vec<AnnotatedMove>, mv: &ChessMove)
    ensures
        final(moves)@ == promote(old(moves)@, *mv),
{
    let mut i: usize = 0;
    while i < moves.len()
        invariant
            i <= moves@.len(),
            moves@ == old(moves)@,
            index_of(moves@, *mv, 0) == index_of(moves@, *mv, i as int),
        decreases moves@.len() - i,
    {
        if moves[i].mv == *mv {
            let first = moves[0];
            let found = moves[i];
            moves.set(0, found);
            moves.set(i, first);
            return ;
        }
        i += 1;
    }
}

impl MoveGenPrime for Position {
    /// Get all legal moves for given position, sort captures first.
    /// En passant captures are not considered.
    /// Also takes a proven good move ("old move") to be sorted first.
    fn get_legal_sorted(&self, old_move: Option<ChessMove>) -> (r: Vec<AnnotatedMove>)
        ensures
            r@ == legal_sorted_spec(self@, old_move),
    {
        reveal(legal_sorted_spec);
        let moves = self.legal_moves();
        let mut result: Vec<AnnotatedMove> = Vec::new();
        push_selected(&self.layout, &moves, true, &mut result);
        push_selected(&self.layout, &moves, false, &mut result);
        assert(result@ =~= captures_first(self.layout, moves@));
        if let Some(mv) = old_move {
            promote_move(&mut result, &mv);
        }
        result
    }
}

/// Both selections together hold as many moves as there are, and each entry says of its
/// own move whether it is a capture.
pub proof fn lemma_select(l: Layout, moves: Seq<ChessMove>, cp: bool)
    ensures
        select(l, moves, true).len() + select(l, moves, false).len() == moves.len(),
        forall|i: int|
            0 <= i < select(l, moves, cp).len() ==> {
                let e = #[trigger] select(l, moves, cp)[i];
                e.cp == cp && is_capture(l, e.mv) == cp && moves.contains(e.mv) && e.sc == 0
                    && e.node_count == 0
            },
        forall|k: int|
            0 <= k < moves.len() && is_capture(l, #[trigger] moves[k]) == cp ==> exists|i: int|
                0 <= i < select(l, moves, cp).len() && select(l, moves, cp)[i].mv == moves[k],
    decreases moves.len(),
{
    if moves.len() > 0 {
        let front = moves.drop_last();
        lemma_select(l, front, cp);
        lemma_select(l, front, !cp);
        let s = select(l, moves, cp);
        let rest = select(l, front, cp);
        assert forall|i: int| 0 <= i < s.len() implies {
            let e = #[trigger] s[i];
            e.cp == cp && is_capture(l, e.mv) == cp && moves.contains(e.mv) && e.sc == 0
                && e.node_count == 0
        } by {
            if i < rest.len() {
                let e = rest[i];
                assert(s[i] == e);
                let k = choose|k: int| 0 <= k < front.len() && front[k] == e.mv;
                assert(moves[k] == e.mv);
            } else {
                assert(moves[moves.len() - 1] == s[i].mv);
            }
        }
        assert forall|k: int|
            0 <= k < moves.len() && is_capture(l, #[trigger] moves[k]) == cp implies exists|
            i: int,
        | 0 <= i < s.len() && s[i].mv == moves[k] by {
            if k < front.len() {
                assert(front[k] == moves[k]);
                let i = choose|i: int| 0 <= i < rest.len() && rest[i].mv == front[k];
                assert(s[i].mv == moves[k]);
            } else {
                assert(s[s.len() - 1].mv == moves[k]);
            }
        }
    }
}

/// Where `mv` stands in the list, `index_of` finds an entry that holds it.
pub proof fn lemma_index_of(s: Seq<AnnotatedMove>, mv: ChessMove, from: int)
    requires
        0 <= from,
    ensures
        from <= index_of(s, mv, from) || index_of(s, mv, from) == s.len(),
        index_of(s, mv, from) <= s.len(),
        index_of(s, mv, from) < s.len() ==> s[index_of(s, mv, from)].mv == mv,
        forall|i: int| from <= i < s.len() && #[trigger] s[i].mv == mv ==> index_of(s, mv, from) <= i,
    decreases s.len() - from,
{
    if from < s.len() && s[from].mv != mv {
        lemma_index_of(s, mv, from + 1);
    }
}

/// Move-ordering law: without a hint every capture stands before every other move, the
/// list holds as many moves as are legal, and each entry is a legal move that carries its
/// capture flag and no score.
pub proof fn law_captures_first(p: PositionView)
    ensures
        legal_sorted_spec(p, None).len() == legal_moves_at(p.fen).len(),
        forall|i: int, j: int|
            0 <= i < j < legal_sorted_spec(p, None).len() && #[trigger] legal_sorted_spec(
                p,
                None,
            )[j].cp ==> #[trigger] legal_sorted_spec(p, None)[i].cp,
        forall|i: int|
            0 <= i < legal_sorted_spec(p, None).len() ==> {
                let e = #[trigger] legal_sorted_spec(p, None)[i];
                e.cp == is_capture(p.layout, e.mv) && legal_moves_at(p.fen).contains(e.mv) && e.sc
                    == 0
            },
{
    reveal(legal_sorted_spec);
    let moves = legal_moves_at(p.fen);
    lemma_select(p.layout, moves, true);
    lemma_select(p.layout, moves, false);
}

/// Move-ordering law: a hint that is a legal move stands first, and the list still holds
/// the same moves.
pub proof fn law_hint_first(p: PositionView, hint: ChessMove)
    requires
        legal_moves_at(p.fen).contains(hint),
    ensures
        legal_sorted_spec(p, Some(hint)).len() == legal_moves_at(p.fen).len(),
        legal_sorted_spec(p, Some(hint))[0].mv == hint,
        legal_sorted_spec(p, Some(hint)).to_multiset() == legal_sorted_spec(p, None).to_multiset(),
{
    reveal(legal_sorted_spec);
    let moves = legal_moves_at(p.fen);
    let l = p.layout;
    lemma_select(l, moves, true);
    lemma_select(l, moves, false);
    let s = captures_first(l, moves);
    let k = choose|k: int| 0 <= k < moves.len() && moves[k] == hint;
    if is_capture(l, moves[k]) {
        let i = choose|i: int|
            0 <= i < select(l, moves, true).len() && select(l, moves, true)[i].mv == moves[k];
        assert(s[i].mv == hint);
    } else {
        let i = choose|i: int|
            0 <= i < select(l, moves, false).len() && select(l, moves, false)[i].mv == moves[k];
        assert(s[select(l, moves, true).len() + i].mv == hint);
    }
    lemma_index_of(s, hint, 0);
    let i = index_of(s, hint, 0);
    assert(i < s.len());
    lemma_promote_permutes(s, hint);
}

/// Promoting a move exchanges two entries, so the list holds what it held.
pub proof fn lemma_promote_permutes(s: Seq<AnnotatedMove>, mv: ChessMove)
    ensures
        promote(s, mv).len() == s.len(),
        promote(s, mv).to_multiset() == s.to_multiset(),
{
    broadcast use vstd::multiset::group_multiset_axioms;

    lemma_index_of(s, mv, 0);
    let i = index_of(s, mv, 0);
    if i == 0 && i < s.len() {
        assert(promote(s, mv) =~= s);
    } else if i < s.len() {
        let a = s.update(0, s[i]);
        vstd::seq_lib::to_multiset_update(s, 0, s[i]);
        vstd::seq_lib::to_multiset_update(a, i, s[0]);
        s.to_multiset_ensures();
        assert(s.contains(s[0]));
        assert(s.to_multiset().count(s[0]) > 0);
        assert(a[i] == s[i]);
        assert(a.update(i, s[0]).to_multiset() =~= s.to_multiset());
    }
}

} // verus!
