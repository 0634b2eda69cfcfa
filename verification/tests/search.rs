use c4_e5_chess::engine::constants::{MATE, MAX_INT, MIN_INT};
use c4_e5_chess::engine::game::Game;
use c4_e5_chess::engine::move_gen::MoveGenPrime;
use c4_e5_chess::engine::position::{Position, Status};
use c4_e5_chess::engine::pvs::Pvs;
use c4_e5_chess::engine::timer::Timer;
use c4_e5_chess::eval::evaluation::Evaluation;
use c4_e5_chess::eval::simple::Simple;
use c4_e5_chess::misc::types::ChessMove;
use std::time::Instant;

fn text(m: &ChessMove) -> String {
    let sq = |s: u8| format!("{}{}", (b'a' + s % 8) as char, (b'1' + s / 8) as char);
    let p = match m.promotion {
        Some(1) => "n",
        Some(2) => "b",
        Some(3) => "r",
        Some(4) => "q",
        _ => "",
    };
    format!("{}{}{}", sq(m.from), sq(m.to), p)
}

fn best(fen: &str, depth: i16, time: u64) -> String {
    let started = Instant::now();
    let mut g = Game::new(fen.to_string(), depth, time).unwrap();
    let m = g.find_move().unwrap();
    println!("{} -> {} in {:?}, {} nodes", fen, text(&m), started.elapsed(), g.node_count);
    text(&m)
}

#[test]
fn single_legal_move_is_returned_at_once() {
    // The king in the corner has one move only.
    let fen = "7k/8/5K2/8/8/8/8/6R1 b - - 0 1";
    let p = Position::from_fen(fen).unwrap();
    assert_eq!(p.legal_moves().len(), 1);
    let mut g = Game::new(fen.to_string(), 0, 10_000).unwrap();
    let started = Instant::now();
    let m = g.find_move();
    assert_eq!(m, Some(p.legal_moves()[0]));
    assert_eq!(g.node_count, 0);
    assert!(started.elapsed().as_millis() < 1000);
}

#[test]
fn no_legal_move_gives_no_move() {
    let mut g = Game::new("R5k1/5ppp/8/8/8/8/8/4K3 b - - 0 1".to_string(), 3, 1000).unwrap();
    assert_eq!(g.find_move(), None);
    let mut g = Game::new("7k/5Q2/6K1/8/8/8/8/8 b - - 0 1".to_string(), 3, 1000).unwrap();
    assert_eq!(g.find_move(), None);
}

#[test]
fn mate_detection() {
    assert_eq!(best("8/8/8/8/2R5/3k4/5K1n/8 w - - 0 1", 4, 15_000), "c4h4");
}

#[test]
fn tactical_position_bishop_to_h6() {
    assert_eq!(best("r1b2k1r/pppq3p/2np1p2/8/2B2B2/8/PPP3PP/4RR1K w - - 0 1", 4, 15_000), "f4h6");
}

#[test]
fn tactical_position_queen_to_d5() {
    assert_eq!(best("1rb4r/pkPp3p/1b1P3n/1Q6/N3Pp2/8/P1P3PP/7K w - - 1 1", 4, 15_000), "b5d5");
}

#[test]
fn tactical_position_queen_to_c1() {
    assert_eq!(best("8/2Q5/8/6q1/2K5/8/8/7k b - - 0 1", 4, 15_000), "g5c1");
}

#[test]
fn tactical_position_rook_to_e1() {
    assert_eq!(best("4r1k1/5bpp/2p5/3pr3/8/1B3pPq/PPR2P2/2R2QK1 b - - 0 1", 4, 15_000), "e5e1");
}

#[test]
fn timeout_respects_deadline() {
    let fen = "r1bq1rk1/pp2ppbp/2np2p1/2n5/P3PP2/N1P2N2/1PB3PP/R1B1QRK1 b - - 0 1";
    let started = Instant::now();
    let mut g = Game::new(fen.to_string(), 0, 50).unwrap();
    let m = g.find_move();
    let elapsed = started.elapsed().as_millis();
    println!("{:?} after {} ms", m, elapsed);
    assert!(m.is_some());
    assert!(Position::from_fen(fen).unwrap().legal_moves().contains(&m.unwrap()));
    assert!(elapsed < 3_000);
}

#[test]
fn find_move_stores_the_best_move() {
    let fen = "8/8/8/8/2R5/3k4/5K1n/8 w - - 0 1";
    let mut g = Game::new(fen.to_string(), 2, 15_000).unwrap();
    let history_before = g.game_history.get(&g.board);
    let m = g.find_move().unwrap();
    let (stored, _, fresh) = g.game_store.get(2, &g.board).unwrap();
    assert_eq!(stored, m);
    assert!(fresh);
    assert!(g.node_count > 0);
    assert_eq!(g.game_history.get(&g.board), history_before);
    assert_eq!(g.board.fen, fen);
}

fn search(fen: &str, depth: i16, alpha: i32, beta: i32) -> (i32, u64, bool) {
    let p = Position::from_fen(fen).unwrap();
    let mut pvs = Pvs::new();
    let score = pvs.execute(&p, depth, alpha, beta, &Timer::unlimited(), false);
    (score, pvs.node_count, pvs.stopped)
}

#[test]
fn search_is_deterministic() {
    let fen = "r1b2k1r/pppq3p/2np1p2/8/2B2B2/8/PPP3PP/4RR1K w - - 0 1";
    let first = search(fen, 3, MIN_INT, MAX_INT);
    let second = search(fen, 3, MIN_INT, MAX_INT);
    assert_eq!(first, second);
    assert!(!first.2);
    assert!(first.1 > 0);
}

#[test]
fn search_at_depth_zero_is_the_evaluation() {
    let fen = "rn1qk1nr/pppbbppp/8/3pp3/3PP3/1P4P1/PBP2PBP/RN1QK1NR w KQkq - 0 1";
    let p = Position::from_fen(fen).unwrap();
    assert_eq!(search(fen, 0, MIN_INT, MAX_INT), (Simple::evaluate(&p), 1, false));
    assert_eq!(search(fen, -3, MIN_INT, MAX_INT), (Simple::evaluate(&p), 1, false));
}

#[test]
fn search_of_a_finished_game() {
    let mate = "R5k1/5ppp/8/8/8/8/8/4K3 b - - 0 1";
    assert_eq!(search(mate, 3, MIN_INT, MAX_INT), (-MATE - 3, 0, false));
    assert_eq!(search(mate, 0, MIN_INT, MAX_INT), (-MATE, 0, false));
    let stalemate = "7k/5Q2/6K1/8/8/8/8/8 b - - 0 1";
    assert_eq!(search(stalemate, 3, MIN_INT, MAX_INT), (0, 0, false));
}

#[test]
fn search_finds_the_mate_in_one() {
    // Ra8 mates: the value is that of a mate seen at depth 1 below the root.
    let fen = "6k1/5ppp/8/8/8/8/8/R3K3 w - - 0 1";
    let p = Position::from_fen(fen).unwrap();
    let mut pvs = Pvs::new();
    let score = pvs.execute(&p, 2, MIN_INT, MAX_INT, &Timer::unlimited(), false);
    assert_eq!(score, MATE + 1);
    let (m, v, fresh) = pvs.store.get(1, &p).unwrap();
    assert_eq!(text(&m), "a1a8");
    assert_eq!(v, MATE + 1);
    assert!(fresh);
    assert_eq!(pvs.history.get(&p), 0);
    assert_eq!(p.play(&m).unwrap().status, Status::Won);
}

#[test]
fn search_scores_a_repeated_position_as_a_draw() {
    let fen = "r1b2k1r/pppq3p/2np1p2/8/2B2B2/8/PPP3PP/4RR1K w - - 0 1";
    let p = Position::from_fen(fen).unwrap();
    let mut pvs = Pvs::new();
    pvs.history.inc(&p);
    pvs.history.inc(&p);
    pvs.history.inc(&p);
    let score = pvs.execute(&p, 2, MIN_INT, MAX_INT, &Timer::unlimited(), false);
    assert_eq!(score, 0);
    assert_eq!(pvs.node_count, 0);
    assert_eq!(pvs.history.get(&p), 3);
}

#[test]
fn search_uses_a_fresh_table_entry() {
    let fen = "r1b2k1r/pppq3p/2np1p2/8/2B2B2/8/PPP3PP/4RR1K w - - 0 1";
    let p = Position::from_fen(fen).unwrap();
    let first = p.get_legal_sorted(None)[3].mv;
    let mut pvs = Pvs::new();
    pvs.store.put(5, 1234, &p, &first);
    assert_eq!(pvs.execute(&p, 3, MIN_INT, MAX_INT, &Timer::unlimited(), false), 1234);
    assert_eq!(pvs.node_count, 0);
    // A stale entry gives its move as a hint only.
    let mut stale = Pvs::new();
    stale.store.put(0, 1234, &p, &first);
    let mut plain = Pvs::new();
    let with_hint = stale.execute(&p, 2, MIN_INT, MAX_INT, &Timer::unlimited(), false);
    let without = plain.execute(&p, 2, MIN_INT, MAX_INT, &Timer::unlimited(), false);
    assert_ne!(with_hint, 1234);
    println!("{} {}", with_hint, without);
}

#[test]
fn search_that_is_stopped_returns_zero() {
    let fen = "r1b2k1r/pppq3p/2np1p2/8/2B2B2/8/PPP3PP/4RR1K w - - 0 1";
    let p = Position::from_fen(fen).unwrap();
    let mut pvs = Pvs::new();
    let score = pvs.execute(&p, 3, MIN_INT, MAX_INT, &Timer::start(0), false);
    assert_eq!(score, 0);
    assert!(pvs.stopped);
    assert_eq!(pvs.node_count, 0);
    assert_eq!(pvs.store.get(0, &p), None);
    // Once stopped, a search stays stopped.
    let again = pvs.execute(&p, 1, MIN_INT, MAX_INT, &Timer::unlimited(), false);
    assert_eq!(again, 0);
    assert!(pvs.stopped);
}

#[test]
fn timer_without_a_limit_never_stops() {
    assert!(Timer::unlimited().playing());
    assert!(!Timer::start(0).playing());
    assert!(Timer::start(60_000).playing());
}

#[test]
fn timer_allows_what_lies_within_its_limit() {
    assert!(Timer::start(10).allows(0));
    assert!(Timer::start(10).allows(9));
    assert!(!Timer::start(10).allows(10));
    assert!(!Timer::start(0).allows(0));
    assert!(!Timer::start(u64::MAX).allows(u128::MAX));
    assert!(Timer::unlimited().allows(u128::MAX));
}

#[test]
fn score_root_move_keeps_the_move() {
    let fen = "8/8/8/8/2R5/3k4/5K1n/8 w - - 0 1";
    let g = Game::new(fen.to_string(), 2, 15_000).unwrap();
    let mut moves = g.board.get_legal_sorted(None);
    let before = moves[0];
    let done = g.score_root_move(1, &mut moves[0]);
    assert!(done);
    assert_eq!(moves[0].mv, before.mv);
    assert_eq!(moves[0].cp, before.cp);
    assert!(moves[0].node_count > 0);
    assert!(MIN_INT <= moves[0].sc && moves[0].sc <= MAX_INT);
}
