use super::constants::{MATE, MAX_INT, MIN_INT};
use super::history::{dec_spec, inc_spec, History};
use super::move_gen::{legal_sorted_spec, MoveGenPrime};
use super::position::{position_after, Position, PositionView, Status};
use super::store::{get_spec, put_spec, Item, Probe, Store};
use super::timer::Timer;
use crate::eval::evaluation::Evaluation;
use crate::eval::simple::{position_value, Simple};
use crate::misc::types::{AnnotatedMove, BoardHistory, ChessMove, Depth, MoveScore};
use vstd::prelude::*;

verus! {

/// A principal variant search.
pub struct Pvs {
    pub history: History,
    pub node_count: u64,
    pub store: Store,
    /// Set once the timer has said stop: what the search returned since then counts for
    /// nothing.
    pub stopped: bool,
}

/// A search as a mathematical value.
pub ghost struct PvsView {
    pub history: Map<u64, BoardHistory>,
    pub node_count: u64,
    pub store: Map<u64, Item>,
    pub stopped: bool,
}

/// What a search that was not stopped comes to: the score, the transposition table and the
/// number of nodes after it.
pub ghost struct Outcome {
    pub score: MoveScore,
    pub store: Map<u64, Item>,
    pub nodes: u64,
}

impl View for Pvs {
    type V = PvsView;

    open spec fn view(&self) -> PvsView {
        PvsView {
            history: self.history@,
            node_count: self.node_count,
            store: self.store@,
            stopped: self.stopped,
        }
    }
}

/// Every score in the table is a score.
pub open spec fn store_bounded(t: Map<u64, Item>) -> bool {
    forall|k: u64| #[trigger] t.contains_key(k) ==> MIN_INT <= t[k].value <= MAX_INT
}

/// What the second table knows is at least as deep as what the first knows.
pub open spec fn store_grown(before: Map<u64, Item>, after: Map<u64, Item>) -> bool {
    forall|k: u64| #[trigger]
        before.contains_key(k) ==> after.contains_key(k) && after[k].depth >= before[k].depth
}

/// One more node, as far as the counter goes.
pub open spec fn bump(n: u64) -> u64 {
    if n < u64::MAX {
        (n + 1) as u64
    } else {
        n
    }
}

/// The move of a table entry, to be tried first.
pub open spec fn hint_of(probe: Probe) -> Option<ChessMove> {
    match probe {
        Some((mv, _, _)) => Some(mv),
        None => None,
    }
}

/// The score of a table entry that was searched deep enough.
pub open spec fn fresh_score(probe: Probe) -> Option<MoveScore> {
    match probe {
        Some((_, v, true)) => Some(v),
        _ => None,
    }
}

/// The depth that is left, as a natural number.
pub open spec fn plies(depth: Depth) -> nat {
    if depth > 0 {
        depth as nat
    } else {
        0
    }
}

/// The outcome seen from the other side.
pub open spec fn negated(o: Outcome) -> Outcome {
    Outcome { score: (-o.score) as MoveScore, ..o }
}

/// The end of a node: the best move, if one was found, goes into the table with its score,
/// and the score is returned. A node at which no move could be tried counts as a draw.
pub open spec fn finish_spec(
    store: Map<u64, Item>,
    nodes: u64,
    key: u64,
    depth: Depth,
    best_value: MoveScore,
    best_move: Option<ChessMove>,
) -> Outcome {
    match best_move {
        Some(mv) => Outcome {
            score: best_value,
            store: put_spec(
                store,
                key,
                Item { depth: (depth - 1) as Depth, value: best_value, chessmove: mv },
            ),
            nodes,
        },
        None => Outcome { score: 0, store, nodes },
    }
}

/// The search of a position to a depth within the window from `alpha` to `beta`, as long
/// as the timer lets it run: a won or drawn game, a position seen more than twice and a
/// table entry that is deep enough are answered at once, a position at depth 0 by its
/// static value, and any other by its moves.
pub open spec fn search_spec(
    store: Map<u64, Item>,
    nodes: u64,
    history: Map<u64, BoardHistory>,
    p: PositionView,
    depth: Depth,
    alpha: MoveScore,
    beta: MoveScore,
) -> Outcome
    decreases plies(depth), 2nat, 0nat,
{
    let probe = get_spec(store, depth, p.key);
    if p.status == Status::Won {
        Outcome { score: (-MATE - depth) as MoveScore, store, nodes }
    } else if p.status == Status::Drawn {
        Outcome { score: 0, store, nodes }
    } else if history[p.key] > 2 {
        Outcome { score: 0, store, nodes }
    } else if fresh_score(probe) is Some {
        Outcome { score: fresh_score(probe).unwrap(), store, nodes }
    } else if depth < 1 {
        Outcome { score: position_value(p) as MoveScore, store, nodes: bump(nodes) }
    } else {
        scan_spec(
            store,
            nodes,
            history,
            p,
            legal_sorted_spec(p, hint_of(probe)),
            0,
            depth,
            alpha,
            beta,
            MIN_INT,
            None,
        )
    }
}

/// The moves of a node from the `i`-th on, tried in turn: each raises the best score where
/// it is better, a score of `beta` or more ends the node, and a better score than `alpha`
/// narrows the window for the moves that follow. A move that cannot be played is passed
/// over.
pub open spec fn scan_spec(
    store: Map<u64, Item>,
    nodes: u64,
    history: Map<u64, BoardHistory>,
    p: PositionView,
    children: Seq<AnnotatedMove>,
    i: nat,
    depth: Depth,
    alpha: MoveScore,
    beta: MoveScore,
    best_value: MoveScore,
    best_move: Option<ChessMove>,
) -> Outcome
    decreases plies(depth), 1nat, children.len() - i,
{
    if depth < 1 || i >= children.len() {
        finish_spec(store, nodes, p.key, depth, best_value, best_move)
    } else {
        match position_after(p.fen, children[i as int].mv) {
            None => scan_spec(
                store,
                nodes,
                history,
                p,
                children,
                i + 1,
                depth,
                alpha,
                beta,
                best_value,
                best_move,
            ),
            Some(b1) => {
                let o = child_spec(
                    store,
                    nodes,
                    inc_spec(history, b1.key),
                    b1,
                    depth,
                    alpha,
                    beta,
                    i == 0,
                );
                let better = o.score > best_value;
                let value = if better {
                    o.score
                } else {
                    best_value
                };
                let mv = if better {
                    Some(children[i as int].mv)
                } else {
                    best_move
                };
                if value >= beta {
                    finish_spec(o.store, o.nodes, p.key, depth, value, mv)
                } else {
                    scan_spec(
                        o.store,
                        o.nodes,
                        history,
                        p,
                        children,
                        i + 1,
                        depth,
                        if value > alpha {
                            value
                        } else {
                            alpha
                        },
                        beta,
                        value,
                        mv,
                    )
                }
            },
        }
    }
}

/// The value of one move for the side that makes it, `b1` being the position after it. The
/// first move of a node is searched with the whole window. Every other move is first
/// searched with a window of width one, and once more with the window from its value to
/// `beta` where that value lies strictly between `alpha` and `beta`.
pub open spec fn child_spec(
    store: Map<u64, Item>,
    nodes: u64,
    history: Map<u64, BoardHistory>,
    b1: PositionView,
    depth: Depth,
    alpha: MoveScore,
    beta: MoveScore,
    first: bool,
) -> Outcome
    decreases plies(depth), 0nat, 0nat,
{
    if depth < 1 {
        Outcome { score: 0, store, nodes }
    } else if first {
        negated(
            search_spec(
                store,
                nodes,
                history,
                b1,
                (depth - 1) as Depth,
                (-beta) as MoveScore,
                (-alpha) as MoveScore,
            ),
        )
    } else {
        let scout = negated(
            search_spec(
                store,
                nodes,
                history,
                b1,
                (depth - 1) as Depth,
                (-alpha - 1) as MoveScore,
                (-alpha) as MoveScore,
            ),
        );
        if scout.score > alpha && scout.score < beta {
            negated(
                search_spec(
                    scout.store,
                    scout.nodes,
                    history,
                    b1,
                    (depth - 1) as Depth,
                    (-beta) as MoveScore,
                    (-scout.score) as MoveScore,
                ),
            )
        } else {
            scout
        }
    }
}

/// Whether a search that the timer stops somewhere on its way can leave the table `t` and
/// the number of nodes `n`: it is stopped before it begins and leaves both as they were, or
/// it is stopped below one of its moves. What a stopped search has found is never written
/// to the table: the table is that of the searches that came to their end before.
pub open spec fn stopped_at(
    store: Map<u64, Item>,
    nodes: u64,
    history: Map<u64, BoardHistory>,
    p: PositionView,
    depth: Depth,
    alpha: MoveScore,
    beta: MoveScore,
    t: Map<u64, Item>,
    n: u64,
) -> bool
    decreases plies(depth), 2nat, 0nat,
{
    let probe = get_spec(store, depth, p.key);
    ||| t == store && n == nodes
    ||| {
        &&& p.status == Status::Ongoing
        &&& history[p.key] <= 2
        &&& fresh_score(probe) is None
        &&& depth >= 1
        &&& stopped_in_scan(
            store,
            nodes,
            history,
            p,
            legal_sorted_spec(p, hint_of(probe)),
            0,
            depth,
            alpha,
            beta,
            MIN_INT,
            None,
            t,
            n,
        )
    }
}

/// The same for the moves of a node from the `i`-th on: the search is stopped below the
/// `i`-th move, or that move is searched to its end, does not end the node, and the search
/// is stopped below one of the moves that follow.
pub open spec fn stopped_in_scan(
    store: Map<u64, Item>,
    nodes: u64,
    history: Map<u64, BoardHistory>,
    p: PositionView,
    children: Seq<AnnotatedMove>,
    i: nat,
    depth: Depth,
    alpha: MoveScore,
    beta: MoveScore,
    best_value: MoveScore,
    best_move: Option<ChessMove>,
    t: Map<u64, Item>,
    n: u64,
) -> bool
    decreases plies(depth), 1nat, children.len() - i,
{
    if depth < 1 || i >= children.len() {
        false
    } else {
        match position_after(p.fen, children[i as int].mv) {
            None => stopped_in_scan(
                store,
                nodes,
                history,
                p,
                children,
                i + 1,
                depth,
                alpha,
                beta,
                best_value,
                best_move,
                t,
                n,
            ),
            Some(b1) => {
                let o = child_spec(
                    store,
                    nodes,
                    inc_spec(history, b1.key),
                    b1,
                    depth,
                    alpha,
                    beta,
                    i == 0,
                );
                let better = o.score > best_value;
                let value = if better {
                    o.score
                } else {
                    best_value
                };
                let mv = if better {
                    Some(children[i as int].mv)
                } else {
                    best_move
                };
                ||| stopped_in_child(
                    store,
                    nodes,
                    inc_spec(history, b1.key),
                    b1,
                    depth,
                    alpha,
                    beta,
                    i == 0,
                    t,
                    n,
                )
                ||| value < beta && stopped_in_scan(
                    o.store,
                    o.nodes,
                    history,
                    p,
                    children,
                    i + 1,
                    depth,
                    if value > alpha {
                        value
                    } else {
                        alpha
                    },
                    beta,
                    value,
                    mv,
                    t,
                    n,
                )
            },
        }
    }
}

/// The same for the search of one move, `b1` being the position after it: the first search
/// of the move is stopped, or it came to its end and the second one is stopped.
pub open spec fn stopped_in_child(
    store: Map<u64, Item>,
    nodes: u64,
    history: Map<u64, BoardHistory>,
    b1: PositionView,
    depth: Depth,
    alpha: MoveScore,
    beta: MoveScore,
    first: bool,
    t: Map<u64, Item>,
    n: u64,
) -> bool
    decreases plies(depth), 0nat, 0nat,
{
    if depth < 1 {
        false
    } else if first {
        stopped_at(
            store,
            nodes,
            history,
            b1,
            (depth - 1) as Depth,
            (-beta) as MoveScore,
            (-alpha) as MoveScore,
            t,
            n,
        )
    } else {
        let scout = negated(
            search_spec(
                store,
                nodes,
                history,
                b1,
                (depth - 1) as Depth,
                (-alpha - 1) as MoveScore,
                (-alpha) as MoveScore,
            ),
        );
        ||| stopped_at(
            store,
            nodes,
            history,
            b1,
            (depth - 1) as Depth,
            (-alpha - 1) as MoveScore,
            (-alpha) as MoveScore,
            t,
            n,
        )
        ||| scout.score > alpha && scout.score < beta && stopped_at(
            scout.store,
            scout.nodes,
            history,
            b1,
            (depth - 1) as Depth,
            (-beta) as MoveScore,
            (-scout.score) as MoveScore,
            t,
            n,
        )
    }
}

/// What holds of a search that returned `r`: scores stay scores, the table only grows
/// deeper, the history is as before, a search that was stopped returns 0, one that was
/// stopped before it began leaves everything as it was, and one that was not stopped
/// comes to what [`search_spec`] says.
pub open spec fn search_post(
    before: PvsView,
    p: PositionView,
    depth: Depth,
    alpha: MoveScore,
    beta: MoveScore,
    r: MoveScore,
    after: PvsView,
) -> bool {
    &&& MIN_INT <= r <= MAX_INT
    &&& store_bounded(after.store)
    &&& store_grown(before.store, after.store)
    &&& after.history == before.history
    &&& before.stopped ==> after == before
    &&& after.stopped ==> r == 0
    &&& !before.stopped && after.stopped ==> stopped_at(
        before.store,
        before.node_count,
        before.history,
        p,
        depth,
        alpha,
        beta,
        after.store,
        after.node_count,
    )
    &&& !after.stopped ==> {
        let o = search_spec(before.store, before.node_count, before.history, p, depth, alpha, beta);
        r == o.score && after.store == o.store && after.node_count == o.nodes
    }
}

/// The same for the value of one move, see [`child_spec`].
pub open spec fn child_post(
    before: PvsView,
    b1: PositionView,
    depth: Depth,
    alpha: MoveScore,
    beta: MoveScore,
    first: bool,
    r: MoveScore,
    after: PvsView,
) -> bool {
    &&& MIN_INT <= r <= MAX_INT
    &&& store_bounded(after.store)
    &&& store_grown(before.store, after.store)
    &&& after.history == before.history
    &&& before.stopped ==> after == before
    &&& !before.stopped && after.stopped ==> stopped_in_child(
        before.store,
        before.node_count,
        before.history,
        b1,
        depth,
        alpha,
        beta,
        first,
        after.store,
        after.node_count,
    )
    &&& !after.stopped ==> {
        let o = child_spec(before.store, before.node_count, before.history, b1, depth, alpha, beta, first);
        r == o.score && after.store == o.store && after.node_count == o.nodes
    }
}

impl Pvs {
    /// Constructor
    pub fn new() -> (r: Self)
        ensures
            r.store@ == super::store::no_entries(),
            super::history::history_entries(r.history) == super::history::no_counts(),
            r.node_count == 0,
            !r.stopped,
    {
        Self { history: History::new(), node_count: 0, store: Store::new(), stopped: false }
    }

    /// The value of the move that led to `b1`, for the side that made it.
    fn child_value(
        &mut self,
        b1: &Position,
        depth: Depth,
        alpha: MoveScore,
        beta: MoveScore,
        first: bool,
        playing: &Timer,
        cp: bool,
    ) -> (r: MoveScore)
        requires
            depth >= 1,
            MIN_INT <= alpha < beta <= MAX_INT,
            store_bounded(old(self).store@),
        ensures
            child_post(old(self)@, b1@, depth, alpha, beta, first, r, final(self)@),
            playing.limit() is None && !old(self).stopped ==> !final(self).stopped,
        decreases depth, 0nat,
    {
        let ghost before = self@;
        if first {
            let value = -self.execute(b1, depth - 1, -beta, -alpha, playing, cp);
            assert(!self.stopped ==> child_spec(
                before.store,
                before.node_count,
                before.history,
                b1@,
                depth,
                alpha,
                beta,
                first,
            ) == negated(
                search_spec(
                    before.store,
                    before.node_count,
                    before.history,
                    b1@,
                    (depth - 1) as Depth,
                    (-beta) as MoveScore,
                    (-alpha) as MoveScore,
                ),
            ));
            value
        } else {
            let scout = -self.execute(b1, depth - 1, -alpha - 1, -alpha, playing, cp);
            let ghost middle = self@;
            let ghost o1 = negated(
                search_spec(
                    before.store,
                    before.node_count,
                    before.history,
                    b1@,
                    (depth - 1) as Depth,
                    (-alpha - 1) as MoveScore,
                    (-alpha) as MoveScore,
                ),
            );
            if scout > alpha && scout < beta {
                let value = -self.execute(b1, depth - 1, -beta, -scout, playing, cp);
                assert(!self.stopped ==> child_spec(
                    before.store,
                    before.node_count,
                    before.history,
                    b1@,
                    depth,
                    alpha,
                    beta,
                    first,
                ) == negated(
                    search_spec(
                        o1.store,
                        o1.nodes,
                        before.history,
                        b1@,
                        (depth - 1) as Depth,
                        (-beta) as MoveScore,
                        (-o1.score) as MoveScore,
                    ),
                ));
                assert(store_grown(before.store, self.store@));
                value
            } else {
                assert(!self.stopped ==> child_spec(
                    before.store,
                    before.node_count,
                    before.history,
                    b1@,
                    depth,
                    alpha,
                    beta,
                    first,
                ) == o1);
                scout
            }
        }
    }

    /// The end of a node: store the best move, if there is one, and hand out its score.
    fn finish(
        &mut self,
        board: &Position,
        depth: Depth,
        best_value: MoveScore,
        best_move: Option<ChessMove>,
    ) -> (r: MoveScore)
        requires
            depth >= 1,
            MIN_INT <= best_value <= MAX_INT,
            store_bounded(old(self).store@),
        ensures
            MIN_INT <= r <= MAX_INT,
            store_bounded(final(self).store@),
            store_grown(old(self).store@, final(self).store@),
            final(self).history == old(self).history,
            final(self).stopped == old(self).stopped,
            r == finish_spec(
                old(self).store@,
                old(self).node_count,
                board.key,
                depth,
                best_value,
                best_move,
            ).score,
            final(self).store@ == finish_spec(
                old(self).store@,
                old(self).node_count,
                board.key,
                depth,
                best_value,
                best_move,
            ).store,
            final(self).node_count == old(self).node_count,
    {
        match best_move {
            Some(bm) => {
                self.store.put(depth - 1, best_value, board, &bm);
                best_value
            },
            None => 0,
        }
    }

    /// Execute the search given a board and parameters Alpha and Beta
    pub fn execute(
        &mut self,
        board: &Position,
        depth: Depth,
        alpha: MoveScore,
        beta: MoveScore,
        playing: &Timer,
        _capture: bool,
    ) -> (r: MoveScore)
        requires
            MIN_INT <= alpha < beta <= MAX_INT,
            store_bounded(old(self).store@),
        ensures
            search_post(old(self)@, board@, depth, alpha, beta, r, final(self)@),
            playing.limit() is None && !old(self).stopped ==> !final(self).stopped,
        decreases depth, 1nat,
    {
        let ghost before = self@;
        let ghost target = search_spec(
            before.store,
            before.node_count,
            before.history,
            board@,
            depth,
            alpha,
            beta,
        );
        if self.stopped || !playing.playing() {
            self.stopped = true;
            return 0;
        }
        let probe = self.store.get(depth, board);
        assert(target == (if board.status == Status::Won {
            Outcome {
                score: (-MATE - depth) as MoveScore,
                store: before.store,
                nodes: before.node_count,
            }
        } else if board.status == Status::Drawn {
            Outcome { score: 0, store: before.store, nodes: before.node_count }
        } else if before.history[board.key] > 2 {
            Outcome { score: 0, store: before.store, nodes: before.node_count }
        } else if fresh_score(probe) is Some {
            Outcome {
                score: fresh_score(probe).unwrap(),
                store: before.store,
                nodes: before.node_count,
            }
        } else if depth < 1 {
            Outcome {
                score: position_value(board@) as MoveScore,
                store: before.store,
                nodes: bump(before.node_count),
            }
        } else {
            scan_spec(
                before.store,
                before.node_count,
                before.history,
                board@,
                legal_sorted_spec(board@, hint_of(probe)),
                0,
                depth,
                alpha,
                beta,
                MIN_INT,
                None,
            )
        }));
        match board.status {
            Status::Won => {
                return -MATE - depth as MoveScore;
            },
            Status::Drawn => {
                return 0;
            },
            Status::Ongoing => {},
        }
        if self.history.get(board) > 2 {
            return 0;
        }
        let hint = match probe {
            Some((_, v, true)) => {
                return v;
            },
            Some((mv, _, false)) => Some(mv),
            None => None,
        };
        if depth < 1 {
            if self.node_count < u64::MAX {
                self.node_count += 1;
            }
            return Simple::evaluate(board);
        }
        let children: Vec<AnnotatedMove> = board.get_legal_sorted(hint);

        let mut lower = alpha;
        let mut best_move: Option<ChessMove> = None;
        let mut best_value: MoveScore = MIN_INT;
        let mut i: usize = 0;
        while i < children.len()
            invariant
                depth >= 1,
                i <= children@.len(),
                MIN_INT <= lower < beta <= MAX_INT,
                target == search_spec(
                    before.store,
                    before.node_count,
                    before.history,
                    board@,
                    depth,
                    alpha,
                    beta,
                ),
                MIN_INT <= best_value <= MAX_INT,
                store_bounded(self.store@),
                store_grown(before.store, self.store@),
                self.history@ == before.history,
                !before.stopped,
                before == old(self)@,
                !self.stopped,
                forall|t: Map<u64, Item>, n: u64| #[trigger]
                    stopped_in_scan(
                        self.store@,
                        self.node_count,
                        before.history,
                        board@,
                        children@,
                        i as nat,
                        depth,
                        lower,
                        beta,
                        best_value,
                        best_move,
                        t,
                        n,
                    ) ==> stopped_at(
                        before.store,
                        before.node_count,
                        before.history,
                        board@,
                        depth,
                        alpha,
                        beta,
                        t,
                        n,
                    ),
                scan_spec(
                    self.store@,
                    self.node_count,
                    before.history,
                    board@,
                    children@,
                    i as nat,
                    depth,
                    lower,
                    beta,
                    best_value,
                    best_move,
                ) == target,
            decreases children@.len() - i,
        {
            let child = children[i];
            let ghost here = scan_spec(
                self.store@,
                self.node_count,
                before.history,
                board@,
                children@,
                i as nat,
                depth,
                lower,
                beta,
                best_value,
                best_move,
            );
            let ghost start = self@;
            match board.play(&child.mv) {
                None => {
                    assert(here == scan_spec(
                        start.store,
                        start.node_count,
                        before.history,
                        board@,
                        children@,
                        (i + 1) as nat,
                        depth,
                        lower,
                        beta,
                        best_value,
                        best_move,
                    ));
                    assert forall|t: Map<u64, Item>, n: u64| #[trigger]
                        stopped_in_scan(
                            start.store,
                            start.node_count,
                            before.history,
                            board@,
                            children@,
                            (i + 1) as nat,
                            depth,
                            lower,
                            beta,
                            best_value,
                            best_move,
                            t,
                            n,
                        ) implies stopped_at(
                        before.store,
                        before.node_count,
                        before.history,
                        board@,
                        depth,
                        alpha,
                        beta,
                        t,
                        n,
                    ) by {
                        assert(stopped_in_scan(
                            start.store,
                            start.node_count,
                            before.history,
                            board@,
                            children@,
                            i as nat,
                            depth,
                            lower,
                            beta,
                            best_value,
                            best_move,
                            t,
                            n,
                        ));
                    }
                },
                Some(b1) => {
                    let seen = self.history.get(&b1);
                    self.history.inc(&b1);
                    let value = self.child_value(
                        &b1,
                        depth,
                        lower,
                        beta,
                        i == 0,
                        playing,
                        child.cp,
                    );
                    if seen < BoardHistory::MAX {
                        self.history.dec(&b1);
                    }
                    assert(self.history@ =~= before.history);
                    if self.stopped {
                        proof {
                            assert(stopped_in_child(
                                start.store,
                                start.node_count,
                                inc_spec(before.history, b1.key),
                                b1@,
                                depth,
                                lower,
                                beta,
                                i == 0,
                                self.store@,
                                self.node_count,
                            ));
                            assert(stopped_in_scan(
                                start.store,
                                start.node_count,
                                before.history,
                                board@,
                                children@,
                                i as nat,
                                depth,
                                lower,
                                beta,
                                best_value,
                                best_move,
                                self.store@,
                                self.node_count,
                            ));
                        }
                        return 0;
                    }
                    let ghost old_value = best_value;
                    let ghost old_move = best_move;
                    let ghost old_lower = lower;
                    let ghost o = child_spec(
                        start.store,
                        start.node_count,
                        inc_spec(before.history, b1.key),
                        b1@,
                        depth,
                        lower,
                        beta,
                        i == 0,
                    );
                    assert(value == o.score && self.store@ == o.store && self.node_count
                        == o.nodes);
                    if value > best_value {
                        best_value = value;
                        best_move = Some(child.mv);
                    }
                    if best_value >= beta {
                        assert(here == finish_spec(
                            o.store,
                            o.nodes,
                            board.key,
                            depth,
                            best_value,
                            best_move,
                        ));
                        return self.finish(board, depth, best_value, best_move);
                    }
                    if best_value > lower {
                        lower = best_value;
                    }
                    assert forall|t: Map<u64, Item>, n: u64| #[trigger]
                        stopped_in_scan(
                            o.store,
                            o.nodes,
                            before.history,
                            board@,
                            children@,
                            (i + 1) as nat,
                            depth,
                            lower,
                            beta,
                            best_value,
                            best_move,
                            t,
                            n,
                        ) implies stopped_at(
                        before.store,
                        before.node_count,
                        before.history,
                        board@,
                        depth,
                        alpha,
                        beta,
                        t,
                        n,
                    ) by {
                        assert(stopped_in_scan(
                            start.store,
                            start.node_count,
                            before.history,
                            board@,
                            children@,
                            i as nat,
                            depth,
                            old_lower,
                            beta,
                            old_value,
                            old_move,
                            t,
                            n,
                        ));
                    }
                    assert(here == scan_spec(
                        o.store,
                        o.nodes,
                        before.history,
                        board@,
                        children@,
                        (i + 1) as nat,
                        depth,
                        lower,
                        beta,
                        best_value,
                        best_move,
                    ));
                },
            }
            i += 1;
        }
        assert(!self.stopped ==> target == finish_spec(
            self.store@,
            self.node_count,
            board.key,
            depth,
            best_value,
            best_move,
        ));
        self.finish(board, depth, best_value, best_move)
    }
}

/// Determinism: two searches that start from the same table, history and number of nodes
/// at the same position, depth and window, and that the timer did not stop, return the same
/// score and leave the same table and the same number of nodes.
pub proof fn law_search_is_deterministic(
    before: PvsView,
    p: PositionView,
    depth: Depth,
    alpha: MoveScore,
    beta: MoveScore,
    r1: MoveScore,
    after1: PvsView,
    r2: MoveScore,
    after2: PvsView,
)
    requires
        search_post(before, p, depth, alpha, beta, r1, after1),
        search_post(before, p, depth, alpha, beta, r2, after2),
        !after1.stopped,
        !after2.stopped,
    ensures
        r1 == r2,
        after1 == after2,
{
}

impl Default for Pvs {
    fn default() -> (r: Self)
        ensures
            r.store@ == super::store::no_entries(),
            super::history::history_entries(r.history) == super::history::no_counts(),
            r.node_count == 0,
            !r.stopped,
    {
        Self::new()
    }
}

} // verus!
