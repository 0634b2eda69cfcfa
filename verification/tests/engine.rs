use c4_e5_chess::cmd::time_management::{move_time_fraction, TimeManagement};
use c4_e5_chess::engine::game::{
    forward_prune, sort_by_score, stabilise_search_results, update_node_count, Game,
};
use c4_e5_chess::engine::history::History;
use c4_e5_chess::engine::move_gen::{captures, promote_move, MoveGenPrime};
use c4_e5_chess::engine::position::{GameError, Position, Status};
use c4_e5_chess::engine::store::Store;
use c4_e5_chess::misc::types::{AnnotatedMove, ChessMove};
use c4_e5_chess::misc::helpers::{parse_epd, to_chars};
use cozy_chess::Board;

fn square(text: &str) -> u8 {
    let b = text.as_bytes();
    (b[0] - b'a') + 8 * (b[1] - b'1')
}

fn mv(text: &str) -> ChessMove {
    let promotion = match text.as_bytes().get(4) {
        Some(b'n') => Some(1),
        Some(b'b') => Some(2),
        Some(b'r') => Some(3),
        Some(b'q') => Some(4),
        _ => None,
    };
    ChessMove { from: square(&text[0..2]), to: square(&text[2..4]), promotion }
}

fn text(m: &ChessMove) -> String {
    let sq = |s: u8| format!("{}{}", (b'a' + s % 8) as char, (b'1' + s / 8) as char);
    let p = match m.promotion {
        Some(1) => "n",
        Some(2) => "b",
        Some(3) => "r",
        Some(4) => "q",
        _ => "",
    };
    format!("{}{}{}", sq(m.from), sq(m.to), p)
}

fn scored(name: &str, sc: i32) -> AnnotatedMove {
    AnnotatedMove { mv: mv(name), sc, cp: false, node_count: 1 }
}

fn scores(v: &[AnnotatedMove]) -> Vec<(String, i32)> {
    v.iter().map(|m| (text(&m.mv), m.sc)).collect()
}

#[test]
fn test_history() {
    let g1 = Game::new("".to_string(), 10, 10000).unwrap();
    let g2 = Game::new(
        "rnbqkbnr/pp1ppppp/8/2p5/4P3/5N2/PPPP1PPP/RNBQKB1R b KQkq - 1 2".to_string(),
        10,
        10000,
    )
    .unwrap();
    let mut history = History::new();

    let result = history.get(&g1.board);
    assert_eq!(result, 0);

    history.inc(&g1.board);

    let result = history.get(&g1.board);
    assert_eq!(result, 1);

    let result = history.get(&g2.board);
    assert_eq!(result, 0);

    history.inc(&g1.board);
    history.inc(&g1.board);

    let result = history.get(&g1.board);
    assert_eq!(result, 3);

    history.dec(&g1.board);

    let result = history.get(&g1.board);
    assert_eq!(result, 2);
}

#[test]
fn history_round_trip() {
    let p = Position::from_fen("8/8/8/8/2R5/3k4/5K1n/8 w - - 0 1").unwrap();
    let mut history = History::new();
    assert_eq!(history.get(&p), 0);
    history.inc(&p);
    history.inc(&p);
    history.dec(&p);
    assert_eq!(history.get(&p), 1);
}

#[test]
fn history_stays_within_its_range() {
    let p = Position::from_fen("8/8/8/8/2R5/3k4/5K1n/8 w - - 0 1").unwrap();
    let mut history = History::new();
    history.dec(&p);
    assert_eq!(history.get(&p), 0);
    for _ in 0..70000 {
        history.inc(&p);
    }
    assert_eq!(history.get(&p), u16::MAX);
}

#[test]
fn test_store() {
    let g = Game::new("".to_string(), 10, 10000).unwrap();
    let mut store = Store::new();

    let result = store.get(5, &g.board);
    assert_eq!(result, None);

    store.put(5, 300, &g.board, &mv("c2c4"));

    let (m, v, fresh) = store.get(5, &g.board).unwrap();
    assert_eq!(v, 300);
    assert_eq!(text(&m), "c2c4");
    assert_eq!(fresh, true);

    let (m, _, fresh) = store.get(6, &g.board).unwrap();
    assert_eq!(text(&m), "c2c4");
    assert_eq!(fresh, false);

    let (m, v, fresh) = store.get(4, &g.board).unwrap();
    assert_eq!(v, 300);
    assert_eq!(text(&m), "c2c4");
    assert_eq!(fresh, true);

    store.put(5, 305, &g.board, &mv("e2e4"));

    let (m, v, fresh) = store.get(4, &g.board).unwrap();
    assert_eq!(v, 305);
    assert_eq!(text(&m), "e2e4");
    assert_eq!(fresh, true);
}

#[test]
fn store_deeper_entry_wins() {
    let g = Game::new("".to_string(), 10, 10000).unwrap();
    let mut store = Store::new();
    store.put(5, 100, &g.board, &mv("c2c4"));
    store.put(6, 200, &g.board, &mv("e2e4"));
    assert_eq!(store.get(4, &g.board), Some((mv("e2e4"), 200, true)));

    let mut store = Store::new();
    store.put(5, 100, &g.board, &mv("c2c4"));
    assert_eq!(store.get(6, &g.board), Some((mv("c2c4"), 100, false)));

    // A shallower entry does not replace a deeper one.
    store.put(4, 50, &g.board, &mv("d2d4"));
    assert_eq!(store.get(5, &g.board), Some((mv("c2c4"), 100, true)));
}

#[test]
fn store_keeps_positions_apart() {
    let a = Position::from_fen("8/8/8/8/2R5/3k4/5K1n/8 w - - 0 1").unwrap();
    let b = Position::from_fen("8/8/8/8/2R5/3k4/5K1n/8 b - - 0 1").unwrap();
    let mut store = Store::new();
    store.put(3, 7, &a, &mv("c4h4"));
    assert_eq!(store.get(3, &b), None);
    assert_eq!(store.get(3, &a), Some((mv("c4h4"), 7, true)));
}

static TEST_RESOURCE: &[&str] = &[
    "1k1r4/pp1b1R2/3q2pp/4p3/2B5/4Q3/PPP2B2/2K5 b - - bm Qd1+",
    "3r1k2/4npp1/1ppr3p/p6P/P2PPPP1/1NR5/5K2/2R5 w - - bm d5",
    "2q1rr1k/3bbnnp/p2p1pp1/2pPp3/PpP1P1P1/1P2BNNP/2BQ1PRK/7R b - - bm f5",
    "rnbqkb1r/p3pppp/1p6/2ppP3/3N4/2P5/PPP1QPPP/R1B1KB1R w KQkq - bm e6",
    "r1b2rk1/2q1b1pp/p2ppn2/1p6/3QP3/1BN1B3/PPP3PP/R4RK1 w - - bm Nd5 a4",
    "2r3k1/pppR1pp1/4p3/4P1P1/5P2/1P4K1/P1P5/8 w - - bm g6",
    "1nk1r1r1/pp2n1pp/4p3/q2pPp1N/b1pP1P2/B1P2R2/2P1B1PP/R2Q2K1 w - - bm Nf6",
    "4b3/p3kp2/6p1/3pP2p/2pP1P2/4K1P1/P3N2P/8 w - - bm f5",
    "2kr1bnr/pbpq4/2n1pp2/3p3p/3P1P1B/2N2N1Q/PPP3PP/2KR1B1R w - - bm f5",
    "3rr1k1/pp3pp1/1qn2np1/8/3p4/PP1R1P2/2P1NQPP/R1B3K1 b - - bm Ne5",
    "2r1nrk1/p2q1ppp/bp1p4/n1pPp3/P1P1P3/2PBB1N1/4QPPP/R4RK1 w - - bm f4",
    "r3r1k1/ppqb1ppp/8/4p1NQ/8/2P5/PP3PPP/R3R1K1 b - - bm Bf5",
    "r2q1rk1/4bppp/p2p4/2pP4/3pP3/3Q4/PP1B1PPP/R3R1K1 w - - bm b4",
    "rnb2r1k/pp2p2p/2pp2p1/q2P1p2/8/1Pb2NP1/PB2PPBP/R2Q1RK1 w - - bm Qd2",
    "2r3k1/1p2q1pp/2b1pr2/p1pp4/6Q1/1P1PP1R1/P1PN2PP/5RK1 w - - bm Qxg7+",
    "r1bqkb1r/4npp1/p1p4p/1p1pP1B1/8/1B6/PPPN1PPP/R2Q1RK1 w kq - bm Ne4",
    "r2q1rk1/1ppnbppp/p2p1nb1/3Pp3/2P1P1P1/2N2N1P/PPB1QP2/R1B2RK1 b - - bm h5",
    "r1bq1rk1/pp2ppbp/2np2p1/2n5/P3PP2/N1P2N2/1PB3PP/R1B1QRK1 b - - bm Nb3",
    "3rr3/2pq2pk/p2p1pnp/8/2QBPP2/1P6/P5PP/4RRK1 b - - bm Rxe4",
    "r4k2/pb2bp1r/1p1qp2p/3pNp2/3P1P2/2N3P1/PPP1Q2P/2KRR3 w - - bm g4",
    "3rn2k/ppb2rpp/2ppqp2/5N2/2P1P3/1P5Q/PB3PPP/3RR1K1 w - - bm Nh6",
    "2r2rk1/1bqnbpp1/1p1ppn1p/pP6/N1P1P3/P2B1N1P/1B2QPP1/R2R2K1 b - - bm Bxe4",
    "r1bqk2r/pp2bppp/2p5/3pP3/P2Q1P2/2N1B3/1PP3PP/R4RK1 b kq - bm f6",
    "r2qnrnk/p2b2b1/1p1p2pp/2pPpp2/1PP1P3/PRNBB3/3QNPPP/5RK1 w - - bm f4",
    "r1b1kbnr/pp3ppp/2n5/2pq4/Q3p3/2PP1N2/PP2BPPP/RNB1K2R b KQkq - bm exf3",
];

#[test]
fn test_get_legal_sorted() {
    for i in 0..TEST_RESOURCE.len() {
        let (fen, bestmoves, _) = parse_epd(TEST_RESOURCE[i].to_string()).unwrap();
        let first_move = mv(&bestmoves[0]);
        let board = Position::from_fen(fen.as_str()).unwrap();
        let rules: Board = fen.parse().unwrap();
        let mut moves_length = 0;
        rules.generate_moves(|moves| {
            moves_length += moves.len() as u64;
            false
        });
        let moves_sorted = board.get_legal_sorted(Some(first_move));
        assert_eq!(moves_length, moves_sorted.len() as u64);
        assert_eq!(moves_sorted[0].mv, first_move);
    }
}

#[test]
fn legal_sorted_puts_captures_first() {
    for i in 0..TEST_RESOURCE.len() {
        let (fen, _, _) = parse_epd(TEST_RESOURCE[i].to_string()).unwrap();
        let board = Position::from_fen(fen.as_str()).unwrap();
        let moves = board.get_legal_sorted(None);
        let first_quiet = moves.iter().position(|m| !m.cp).unwrap_or(moves.len());
        assert!(moves[first_quiet..].iter().all(|m| !m.cp));
        assert!(moves[..first_quiet].iter().all(|m| m.cp));
        for m in &moves {
            assert_eq!(m.cp, captures(&board.layout, &m.mv));
            assert_eq!(m.sc, 0);
            assert_eq!(m.node_count, 0);
        }
        // The moves of each kind stand in the order of the move generator.
        let generated = board.legal_moves();
        let expected: Vec<ChessMove> = generated
            .iter()
            .filter(|m| captures(&board.layout, m))
            .chain(generated.iter().filter(|m| !captures(&board.layout, m)))
            .copied()
            .collect();
        let got: Vec<ChessMove> = moves.iter().map(|m| m.mv).collect();
        assert_eq!(got, expected);
    }
}

#[test]
fn legal_sorted_exact_order() {
    // White can take on d5 with the pawn; en passant on d6 does not count as a capture.
    let board =
        Position::from_fen("4k3/8/8/2PpP3/8/8/8/4K3 w - d6 0 2").unwrap();
    let moves = board.get_legal_sorted(None);
    let got: Vec<(String, bool)> = moves.iter().map(|m| (text(&m.mv), m.cp)).collect();
    assert!(got.contains(&("c5d6".to_string(), false)));
    assert!(got.contains(&("e5d6".to_string(), false)));
    assert!(got.iter().all(|(_, cp)| !cp));

    let board = Position::from_fen("4k3/8/8/3p4/4P3/8/8/4K3 w - - 0 1").unwrap();
    let moves = board.get_legal_sorted(None);
    assert_eq!(text(&moves[0].mv), "e4d5");
    assert!(moves[0].cp);
    assert!(moves[1..].iter().all(|m| !m.cp));
}

#[test]
fn legal_sorted_with_a_hint_that_is_not_legal() {
    let board = Position::from_fen("4k3/8/8/3p4/4P3/8/8/4K3 w - - 0 1").unwrap();
    let plain = board.get_legal_sorted(None);
    let hinted = board.get_legal_sorted(Some(mv("a1a8")));
    assert_eq!(
        plain.iter().map(|m| m.mv).collect::<Vec<_>>(),
        hinted.iter().map(|m| m.mv).collect::<Vec<_>>()
    );
    // A legal hint changes places with the first move.
    let hinted = board.get_legal_sorted(Some(mv("e1d1")));
    let at = plain.iter().position(|m| m.mv == mv("e1d1")).unwrap();
    assert_eq!(hinted[0].mv, mv("e1d1"));
    assert_eq!(hinted[at].mv, plain[0].mv);
}

#[test]
fn promote_move_swaps_with_the_first_entry() {
    let mut v = vec![scored("a2a3", 1), scored("b2b3", 2), scored("c2c3", 3)];
    promote_move(&mut v, &mv("c2c3"));
    assert_eq!(scores(&v), vec![("c2c3".to_string(), 3), ("b2b3".to_string(), 2), ("a2a3".to_string(), 1)]);
    promote_move(&mut v, &mv("h2h3"));
    assert_eq!(scores(&v), vec![("c2c3".to_string(), 3), ("b2b3".to_string(), 2), ("a2a3".to_string(), 1)]);
}

#[test]
fn position_from_fen() {
    let p = Position::from_fen("rnbqkbnr/pppppppp/8/8/8/8/PPPPPPPP/RNBQKBNR w KQkq - 0 1").unwrap();
    assert_eq!(p.layout.pawns, 0x00ff00000000ff00);
    assert_eq!(p.layout.knights, 0x4200000000000042);
    assert_eq!(p.layout.bishops, 0x2400000000000024);
    assert_eq!(p.layout.rooks, 0x8100000000000081);
    assert_eq!(p.layout.queens, 0x0800000000000008);
    assert_eq!(p.layout.kings, 0x1000000000000010);
    assert_eq!(p.layout.white, 0xffff);
    assert_eq!(p.layout.black, 0xffff000000000000);
    assert!(p.layout.white_to_move);
    assert_eq!(p.layout.occupied(), 0xffff00000000ffff);
    assert_eq!(p.layout.own(), 0xffff);
    assert_eq!(p.layout.enemy(), 0xffff000000000000);
    assert_eq!(p.status, Status::Ongoing);
    assert_eq!(p.fen, "rnbqkbnr/pppppppp/8/8/8/8/PPPPPPPP/RNBQKBNR w HAha - 0 1");
    assert_eq!(p.key, "rnbqkbnr/pppppppp/8/8/8/8/PPPPPPPP/RNBQKBNR w KQkq - 0 1".parse::<Board>().unwrap().hash_without_ep());
    assert_eq!(p.legal_moves().len(), 20);
    assert_eq!(p.legal_moves_of(0x42).len(), 4);
}

#[test]
fn position_from_bad_fen() {
    assert_eq!(Position::from_fen("not a position").err(), Some(GameError::InvalidFen));
    assert_eq!(Position::from_fen("").err(), Some(GameError::InvalidFen));
    assert_eq!(
        Position::from_fen("rnbqkbnr/pppppppp/8/8/8/8/PPPPPPPP/RNBQKBNR w KQkq - 0").err(),
        Some(GameError::InvalidFen)
    );
    assert!(Game::new("8/8/8/8/8/8/8/8 w - - 0 1".to_string(), 3, 100).is_err());
}

#[test]
fn position_status() {
    let mate = Position::from_fen("R5k1/5ppp/8/8/8/8/8/4K3 b - - 0 1").unwrap();
    assert_eq!(mate.status, Status::Won);
    let stale = Position::from_fen("7k/5Q2/6K1/8/8/8/8/8 b - - 0 1").unwrap();
    assert_eq!(stale.status, Status::Drawn);
    let fifty = Position::from_fen("7k/8/6K1/8/8/8/8/R7 b - - 100 80").unwrap();
    assert_eq!(fifty.status, Status::Drawn);
}

#[test]
fn position_play() {
    let p = Position::from_fen("rnbqkbnr/pppppppp/8/8/8/8/PPPPPPPP/RNBQKBNR w KQkq - 0 1").unwrap();
    let next = p.play(&mv("e2e4")).unwrap();
    assert_eq!(next.fen, "rnbqkbnr/pppppppp/8/8/4P3/8/PPPP1PPP/RNBQKBNR b HAha e3 0 1");
    assert!(!next.layout.white_to_move);
    assert_eq!(next.layout.pawns, 0x00ff00001000ef00);
    assert_ne!(next.key, p.key);
    // Not legal, or not on the board.
    assert!(p.play(&mv("e2e5")).is_none());
    assert!(p.play(&ChessMove { from: 64, to: 1, promotion: None }).is_none());
    assert!(p.play(&ChessMove { from: 12, to: 28, promotion: Some(9) }).is_none());
    // The moves after a pass are those of the other side.
    assert_eq!(p.legal_moves_after_pass(u64::MAX).len(), 20);
    assert_eq!(p.legal_moves_after_pass(0xffff).len(), 0);
    // A promotion.
    let p = Position::from_fen("8/4P1k1/8/8/8/8/8/4K3 w - - 0 1").unwrap();
    let next = p.play(&mv("e7e8q")).unwrap();
    assert_eq!(next.layout.queens, 1 << 60);
    assert_eq!(next.layout.pawns, 0);
}

#[test]
fn game_new_defaults() {
    let g = Game::new("".to_string(), 0, 0).unwrap();
    assert_eq!(g.max_depth, 99);
    assert_eq!(g.move_time, 10_000);
    assert_eq!(g.move_number, 0);
    assert_eq!(g.node_count, 0);
    assert_eq!(g.board.fen, "rnbqkbnr/pppppppp/8/8/8/8/PPPPPPPP/RNBQKBNR w HAha - 0 1");
    let g = Game::new("8/8/8/8/2R5/3k4/5K1n/8 w - - 0 1".to_string(), 7, 123).unwrap();
    assert_eq!(g.max_depth, 7);
    assert_eq!(g.move_time, 123);
    assert_eq!(g.board.fen, "8/8/8/8/2R5/3k4/5K1n/8 w - - 0 1");
}

#[test]
fn update_node_count_sums() {
    let mut v = vec![scored("a2a3", 1), scored("b2b3", 2), scored("c2c3", 3)];
    assert_eq!(update_node_count(&v), 3);
    v[1].node_count = 40;
    assert_eq!(update_node_count(&v), 42);
    v[2].node_count = u64::MAX;
    assert_eq!(update_node_count(&v), u64::MAX);
    assert_eq!(update_node_count(&Vec::new()), 0);
}

#[test]
fn sort_by_score_is_stable_and_falling() {
    let v = vec![scored("a2a3", 5), scored("b2b3", 9), scored("c2c3", 5), scored("d2d3", -3), scored("e2e3", 9)];
    let sorted = sort_by_score(&v);
    assert_eq!(
        scores(&sorted),
        vec![
            ("b2b3".to_string(), 9),
            ("e2e3".to_string(), 9),
            ("a2a3".to_string(), 5),
            ("c2c3".to_string(), 5),
            ("d2d3".to_string(), -3)
        ]
    );
    assert!(sort_by_score(&Vec::new()).is_empty());
}

#[test]
fn stabilise_moves_by_the_mean_drift() {
    // The scores fell by 10 and by 30: the mean drift is 20.
    let old = vec![scored("a2a3", 100), scored("b2b3", 50)];
    let new = vec![scored("a2a3", 90), scored("b2b3", 20)];
    let r = stabilise_search_results(&old, &new);
    // 90 + 20 is capped by 100, 20 + 20 stays below 50.
    assert_eq!(scores(&r), vec![("a2a3".to_string(), 100), ("b2b3".to_string(), 40)]);

    // The scores rose by 10 and by 30: the mean drift is -20.
    let new = vec![scored("a2a3", 110), scored("b2b3", 80)];
    let r = stabilise_search_results(&old, &new);
    assert_eq!(scores(&r), vec![("a2a3".to_string(), 90), ("b2b3".to_string(), 50)]);

    // The mean is rounded towards 0: -7 / 2 is -3.
    let old = vec![scored("a2a3", 0), scored("b2b3", 0)];
    let new = vec![scored("a2a3", 3), scored("b2b3", 4)];
    let r = stabilise_search_results(&old, &new);
    assert_eq!(scores(&r), vec![("a2a3".to_string(), 0), ("b2b3".to_string(), 0)]);
    let new = vec![scored("a2a3", 7), scored("b2b3", 0)];
    let r = stabilise_search_results(&old, &new);
    assert_eq!(scores(&r), vec![("a2a3".to_string(), 0), ("b2b3".to_string(), -3)]);
}

#[test]
fn stabilise_matches_moves_by_what_they_are() {
    let old = vec![scored("a2a3", 100), scored("b2b3", 50)];
    let new = vec![scored("b2b3", 20), scored("a2a3", 90), scored("c2c3", 5)];
    let r = stabilise_search_results(&old, &new);
    // The drift is (30 + 10) / 3 = 13; the move without a score from before stays.
    assert_eq!(
        scores(&r),
        vec![("b2b3".to_string(), 33), ("a2a3".to_string(), 100), ("c2c3".to_string(), 5)]
    );
    assert!(stabilise_search_results(&old, &Vec::new()).is_empty());
}

#[test]
fn forward_prune_keeps_the_best() {
    let mut v: Vec<AnnotatedMove> = (0..20).map(|i| scored("a2a3", 100 - i)).collect();
    forward_prune(&mut v, 3);
    assert_eq!(v.len(), 20);
    forward_prune(&mut v, 4);
    assert_eq!(v.len(), 5);
    assert_eq!(v[4].sc, 96);
    forward_prune(&mut v, 5);
    assert_eq!(v.len(), 4);
    forward_prune(&mut v, 6);
    assert_eq!(v.len(), 4);
    let mut v: Vec<AnnotatedMove> = (0..3).map(|i| scored("a2a3", 100 - i)).collect();
    forward_prune(&mut v, 9);
    assert_eq!(v.len(), 3);
    // Moves that all score alike are all kept.
    let mut v: Vec<AnnotatedMove> = (0..20).map(|_| scored("a2a3", 7)).collect();
    forward_prune(&mut v, 9);
    assert_eq!(v.len(), 20);
}

#[test]
fn time_management() {
    assert_eq!(move_time_fraction(0), 12);
    assert_eq!(move_time_fraction(10), 21);
    assert_eq!(move_time_fraction(19), 29);
    assert_eq!(move_time_fraction(20), 30);
    assert_eq!(move_time_fraction(500), 30);

    let mut tm = TimeManagement::default();
    assert_eq!(tm.white_time, 0);
    let mut g = Game::new("".to_string(), 0, 0).unwrap();
    tm.set_game_time(&mut g);
    assert_eq!(g.move_time, 200);

    tm.white_time = 60_000;
    tm.white_inc = 1_000;
    tm.black_time = 12_000;
    tm.set_game_time(&mut g);
    assert_eq!(g.move_time, 60_000 / 12 + 500);
    g.move_number = 30;
    tm.set_game_time(&mut g);
    assert_eq!(g.move_time, 60_000 / 30 + 500);

    // No more than the time left less the minimum move time.
    tm.white_time = 1_000;
    tm.white_inc = 10_000;
    tm.set_game_time(&mut g);
    assert_eq!(g.move_time, 800);
    tm.white_time = 100;
    tm.set_game_time(&mut g);
    assert_eq!(g.move_time, 200);

    // Black to move.
    let mut g = Game::new("8/8/8/8/2R5/3k4/5K1n/8 b - - 0 1".to_string(), 0, 0).unwrap();
    tm.set_game_time(&mut g);
    assert_eq!(g.move_time, 1_000);
}

#[test]
fn test_parse_epd() {
    let epd =
        "r4rk1/pp2qpp1/2p1bn1p/8/1bP4Q/5N1P/PPB2PP1/R1BR2K1 w - - bm Bxh6; id \"11.IQ.1263\";";
    let (fen, expected_moves, find_best_move) = parse_epd(epd.to_string()).unwrap();
    assert_eq!(
        fen,
        "r4rk1/pp2qpp1/2p1bn1p/8/1bP4Q/5N1P/PPB2PP1/R1BR2K1 w - - 0 1"
    );
    assert_eq!(expected_moves, vec!["c1h6".to_string()]);
    assert_eq!(find_best_move, true);

    let epd = "r4rk1/pp2qpp1/2p1bn1p/8/1bP4Q/5N1P/PPB2PP1/R1BR2K1 w - - bm Bxh6";
    let (fen, expected_moves, find_best_move) = parse_epd(epd.to_string()).unwrap();
    assert_eq!(
        fen,
        "r4rk1/pp2qpp1/2p1bn1p/8/1bP4Q/5N1P/PPB2PP1/R1BR2K1 w - - 0 1"
    );
    assert_eq!(expected_moves, vec!["c1h6".to_string()]);
    assert_eq!(find_best_move, true);

    let epd = "r1b2rk1/ppp3p1/4p2p/4Qpq1/3P4/2PB4/PPK2PPP/R6R b - - am Qxg2";
    let (fen, expected_moves, find_best_move) = parse_epd(epd.to_string()).unwrap();
    assert_eq!(
        fen,
        "r1b2rk1/ppp3p1/4p2p/4Qpq1/3P4/2PB4/PPK2PPP/R6R b - - 0 1"
    );
    assert_eq!(expected_moves, vec!["g5g2".to_string()]);
    assert_eq!(find_best_move, false);

    let epd = "r1b2k1r/1p4pp/p4B2/2bpN3/8/q2n4/P1P2PPP/1R1QR1K1 w - - bm Bxg7+ Qh5; id \"5.IQ.1244\";";
    let (fen, expected_moves, find_best_move) = parse_epd(epd.to_string()).unwrap();
    assert_eq!(
        fen,
        "r1b2k1r/1p4pp/p4B2/2bpN3/8/q2n4/P1P2PPP/1R1QR1K1 w - - 0 1"
    );
    assert!(
        expected_moves == vec!["f6g7".to_string(), "d1h5".to_string()]
            || expected_moves == vec!["d1h5".to_string(), "f6g7".to_string()]
    );
    assert_eq!(find_best_move, true);
}

#[test]
fn parse_epd_rejects_what_it_cannot_read() {
    // No moves, a move that is none, a position that is none, two blanks between moves.
    assert_eq!(parse_epd("8/8/8/8/2R5/3k4/5K1n/8 w - -".to_string()), None);
    assert_eq!(parse_epd("8/8/8/8/2R5/3k4/5K1n/8 w - - bm Rh9".to_string()), None);
    assert_eq!(parse_epd("8/8/8/8/8/8/8/8 w - - bm Rh4".to_string()), None);
    assert_eq!(parse_epd("8/8/8/8/2R5/3k4/5K1n/8 w - - bm Rh4  Rc5".to_string()), None);
    assert_eq!(parse_epd("8/8/8/8/2R5/3k4/5K1n/8 w - - bm Rh4, Rc5".to_string()), None);
    assert_eq!(parse_epd("".to_string()), None);
    assert_eq!(parse_epd("; 8/8/8/8/2R5/3k4/5K1n/8 w - - bm Rh4".to_string()), None);
    // White space around a move is dropped; what follows a second `bm` is not read.
    assert_eq!(
        parse_epd("8/8/8/8/2R5/3k4/5K1n/8 w - - bm \tRh4\t bm Rc5".to_string()),
        Some(("8/8/8/8/2R5/3k4/5K1n/8 w - - 0 1".to_string(), vec!["c4h4".to_string()], true))
    );
    // Without `bm` anywhere the moves follow `am`.
    assert_eq!(
        parse_epd("8/8/8/8/2R5/3k4/5K1n/8 w - - am Rc5 Rh4;".to_string()),
        Some((
            "8/8/8/8/2R5/3k4/5K1n/8 w - - 0 1".to_string(),
            vec!["c4c5".to_string(), "c4h4".to_string()],
            false
        ))
    );
    assert_eq!(to_chars("aé\u{2003}"), vec!['a', 'é', '\u{2003}']);
}

#[test]
fn root_move_is_scored_on_copies_of_table_and_history() {
    let fen = "8/8/8/8/2R5/3k4/5K1n/8 w - - 0 1";
    let mut g = Game::new(fen.to_string(), 2, 15_000).unwrap();
    let mut moves = g.board.get_legal_sorted(None);
    let child = g.board.play(&moves[0].mv).unwrap();
    // An entry of the table of the game that is deep enough answers the search.
    g.game_store.put(9, 777, &child, &mv("d3d4"));
    assert!(g.score_root_move(3, &mut moves[0]));
    assert_eq!(moves[0].sc, -777);
    assert_eq!(moves[0].node_count, 0);
    // A position that the history of the game has seen twice is a draw when it is seen again.
    let mut g = Game::new(fen.to_string(), 2, 15_000).unwrap();
    g.game_history.inc(&child);
    g.game_history.inc(&child);
    assert!(g.score_root_move(3, &mut moves[0]));
    assert_eq!(moves[0].sc, 0);
    assert_eq!(moves[0].node_count, 0);
    assert_eq!(g.game_history.get(&child), 2);
    let copy = g.board.clone();
    assert_eq!(copy.fen, g.board.fen);
    assert_eq!(copy.key, g.board.key);
}
