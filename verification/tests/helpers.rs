use c4_e5_chess::engine::position::Position;
use c4_e5_chess::eval::evaluation::Evaluation;
use c4_e5_chess::eval::helpers::{
    count_moves_qrbn, defending_kings_moves_count, file_fill, half_open_files, kings_distance,
    multiple_on_file, north_fill, open_files, own_kings_moves_count, south_fill,
};
use c4_e5_chess::eval::simple::{evaluate_layout, Simple};
use c4_e5_chess::misc::bits::mirror_ranks;

fn board(fen: &str) -> Position {
    Position::from_fen(fen).unwrap()
}

#[test]
fn test_defending_kings_moves_count() {
    let b = board("8/7k/8/5r2/1KN5/2R5/8/8 w - - 0 1");
    assert_eq!(defending_kings_moves_count(&b, false), 5);

    let b = board("8/7k/8/5r2/1KN5/2R5/8/8 b - - 0 1");
    assert_eq!(defending_kings_moves_count(&b, true), 3);

    let b = board("8/3K4/8/3k4/8/5N2/8/2Q1R3 w - - 0 1");
    assert_eq!(defending_kings_moves_count(&b, false), 0);
}

#[test]
fn helpers_test_defending_kings_moves_count() {
    let b = board("8/7k/8/5r2/1KN5/2R5/8/8 w - - 0 1");
    assert_eq!(defending_kings_moves_count(&b, !b.layout.white_to_move), 5);

    let b = board("8/7k/8/5r2/1KN5/2R5/8/8 b - - 0 1");
    assert_eq!(defending_kings_moves_count(&b, !b.layout.white_to_move), 3);

    let b = board("8/3K4/8/3k4/8/5N2/8/2Q1R3 w - - 0 1");
    assert_eq!(defending_kings_moves_count(&b, !b.layout.white_to_move), 0);
}

#[test]
fn defending_king_in_check_cannot_be_counted() {
    // The side to move is in check and cannot pass.
    let b = board("4k3/8/8/8/8/8/4r3/4K3 w - - 0 1");
    assert_eq!(defending_kings_moves_count(&b, false), 0);
}

#[test]
fn test_kings_distance() {
    let b = board("8/7k/8/5r2/1KN5/2R5/8/8 w - - 0 1");
    assert_eq!(kings_distance(&b), 6);
}

#[test]
fn helpers_test_kings_distance() {
    let b = board("8/7k/8/5r2/1KN5/2R5/8/8 w - - 0 1");
    assert_eq!(kings_distance(&b), 6);
}

#[test]
fn kings_distance_is_the_greater_of_both_distances() {
    assert_eq!(kings_distance(&board("8/8/4k3/8/3R4/4K3/8/8 w - - 0 1")), 3);
    assert_eq!(kings_distance(&board("8/8/4k3/8/3R4/8/8/4K3 w - - 0 1")), 5);
    assert_eq!(kings_distance(&board("k6K/8/8/8/8/8/8/8 w - - 0 1")), 7);
}

#[test]
fn test_multiple_on_file() {
    assert_eq!(multiple_on_file(8659230720), 1);
    assert_eq!(multiple_on_file(36028805676099584), 0);
    assert_eq!(multiple_on_file(36028805735055360), 4);
}

#[test]
fn multiple_on_file_edge_cases() {
    assert_eq!(multiple_on_file(0), 0);
    assert_eq!(multiple_on_file(u64::MAX), 56);
    assert_eq!(multiple_on_file(0x0101010101010101), 7);
    assert_eq!(multiple_on_file(0xff), 0);
}

#[test]
fn test_north_fill() {
    assert_eq!(north_fill(17179869184), 289360691284934656);
}

#[test]
fn helpers_test_north_fill() {
    assert_eq!(north_fill(17179869184), 289360691284934656);
}

#[test]
fn test_south_fill() {
    assert_eq!(south_fill(17179869184), 17247241220);
}

#[test]
fn helpers_test_south_fill() {
    assert_eq!(south_fill(17179869184), 17247241220);
}

#[test]
fn test_file_fill() {
    assert_eq!(file_fill(17179869184), 289360691352306692);
}

#[test]
fn helpers_test_file_fill() {
    assert_eq!(file_fill(17179869184), 289360691352306692);
}

#[test]
fn fills_of_the_empty_and_the_full_board() {
    assert_eq!(north_fill(0), 0);
    assert_eq!(south_fill(0), 0);
    assert_eq!(file_fill(0), 0);
    assert_eq!(north_fill(u64::MAX), u64::MAX);
    assert_eq!(north_fill(1), 0x0101010101010101);
    assert_eq!(south_fill(1 << 63), 0x8080808080808080);
}

#[test]
fn test_open_files() {
    let b = board("rnbqkbnr/p1ppp1p1/8/8/8/8/P1P1PPP1/RNBQKBNR w KQkq - 0 1");
    assert_eq!(open_files(&b), 0x8282828282828282);
}

#[test]
fn helpers_test_open_files() {
    let b = board("rnbqkbnr/p1ppp1p1/8/8/8/8/P1P1PPP1/RNBQKBNR w KQkq - 0 1");
    assert_eq!(open_files(&b), 0x8282828282828282);
}

#[test]
fn test_half_open_files() {
    let b = board("rnbqkbnr/p1ppp1p1/8/8/8/8/P1P1PPP1/RNBQKBNR w KQkq - 0 1");
    assert_eq!(half_open_files(&b), 0x2828282828282828);
}

#[test]
fn helpers_test_half_open_files() {
    let b = board("rnbqkbnr/p1ppp1p1/8/8/8/8/P1P1PPP1/RNBQKBNR w KQkq - 0 1");
    assert_eq!(half_open_files(&b), 0x2828282828282828);
}

#[test]
fn test_count_moves_qrbn() {
    let b = board("rnbqkbnr/pppppppp/8/8/8/8/PPPPPPPP/RNBQKBNR w KQkq - 0 1");
    let count = count_moves_qrbn(&b);
    assert_eq!(count, 0);

    let b = board("8/8/8/8/2R5/3k4/5K1n/8 w - - 0 1");
    let count = count_moves_qrbn(&b);
    assert_eq!(count, 11);

    let b = board("8/5k1N/3K4/2r5/8/8/8/8 b - - 0 1");
    let count = count_moves_qrbn(&b);
    assert_eq!(count, 11);
}

#[test]
fn test_evaluate() {
    let score = Simple::evaluate(&board("rnbqkbnr/pppppppp/8/8/8/8/PPPPPPPP/RNBQKBNR w KQkq - 0 1"));
    assert_eq!(score, 0); // Initial position should be balanced

    let score = Simple::evaluate(&board("rnbqkbnr/pppppppp/8/8/4P3/8/PPPP1PPP/RNBQKBNR b KQkq - 0 1"));
    assert_eq!(score, -30); // White has an advantage with an extra pawn in the center, but it's black's turn

    let score = Simple::evaluate(&board("rnbqkbnr/ppp1pppp/8/8/3Pp3/8/PPP2PPP/RNBQKBNR w KQkq - 0 1"));
    assert!(score < 0); // Black has an advantage with an extra pawn in the center, but it's white's turn

    let score = Simple::evaluate(&board("rn1qk1nr/pppbbppp/8/3pp3/3PP3/1P4P1/PBP2PBP/RN1QK1NR w KQkq - 0 1"));
    assert!(score > 0); // White has positional advantage and it's white's turn

    let score = Simple::evaluate(&board("rn1qk1nr/pppbbppp/8/3pp3/3PP3/1P4P1/PBP2PBP/RN1QK1NR b KQkq - 0 1"));
    assert!(score < 0); // White has positional advantage but it's black's turn

    let score = Simple::evaluate(&board("rn1qk1nr/pbp2pbp/1p4p1/3pp3/3PP3/8/PPPBBPPP/RN1QK1NR w KQkq - 0 1"));
    assert!(score < 0); // Black has positional advantage but it's white's turn

    let score = Simple::evaluate(&board("rn1qk1nr/pbp2pbp/1p4p1/3pp3/3PP3/8/PPPBBPPP/RN1QK1NR b KQkq - 0 1"));
    assert!(score > 0); // Black has positional advantage and it's black's turn

    let score_n = Simple::evaluate(&board("8/8/4k3/8/3R4/4K3/8/8 w - - 0 1"));
    let score_f = Simple::evaluate(&board("8/8/4k3/8/3R4/8/8/4K3 w - - 0 1"));
    assert!(score_n > score_f); // Nearer king is better for stronger party

    let score_n = Simple::evaluate(&board("8/8/4k3/8/3R4/4K3/8/8 b - - 0 1"));
    let score_f = Simple::evaluate(&board("8/8/4k3/8/3R4/8/8/4K3 b - - 0 1"));
    assert!(score_n < score_f); // Nearer king is worse for weaker party

    let score_n = Simple::evaluate(&board("8/8/5b2/5b2/5k2/8/8/5K2 b - - 0 1"));
    let score_f = Simple::evaluate(&board("8/5k2/5b2/5b2/8/8/8/5K2 b - - 0 1"));
    assert!(score_n > score_f); // Nearer king is better for stronger party

    let score_n = Simple::evaluate(&board("8/8/5b2/5b2/5k2/8/8/5K2 w - - 0 1"));
    let score_f = Simple::evaluate(&board("8/5k2/5b2/5b2/8/8/8/5K2 w - - 0 1"));
    assert!(score_n < score_f); // Nearer king is worse for weaker party
}

#[test]
fn evaluate_exact_values() {
    // Rook and king against king, white to move: 950 for the rook, 40 for its open file,
    // and for the black king on e6 with 5 moves, 3 steps from the white king:
    // -30 for the distance, -50 for the moves, -80 for the inner centre.
    let b = board("8/8/4k3/8/3R4/4K3/8/8 w - - 0 1");
    assert_eq!(defending_kings_moves_count(&b, false), 5);
    assert_eq!(Simple::evaluate(&b), 950 + 40 - 30 - 50 - 80);
    // The same with the number of king moves given.
    assert_eq!(evaluate_layout(&b.layout, 8), 800);
    assert_eq!(evaluate_layout(&b.layout, 0), 880);
    // Black to move is behind: the place of its own king, the king of the losing side, is
    // taken off. The king on e6 has 5 moves and costs -30 - 50 - 80 = -160.
    let b = board("8/8/4k3/8/3R4/4K3/8/8 b - - 0 1");
    assert_eq!(own_kings_moves_count(&b), 5);
    assert_eq!(Simple::evaluate(&b), -990 + 160);
    assert_eq!(evaluate_layout(&b.layout, 0), -990 + 110);
    // With equal material the side to move counts as behind.
    let b = board("8/8/4k3/8/8/4K3/8/8 w - - 0 1");
    assert_eq!(own_kings_moves_count(&b), 8);
    assert_eq!(Simple::evaluate(&b), 30 + 80 + 80);
}

#[test]
fn evaluate_takes_the_sign_of_the_king_term_from_who_is_ahead() {
    // The king at the edge is a gain for the side that is ahead and a loss for the side
    // that is behind, whichever of them is to move.
    let edge_w = board("4k3/8/8/8/3R4/4K3/8/8 w - - 0 1");
    let centre_w = board("8/8/4k3/8/3R4/4K3/8/8 w - - 0 1");
    let edge_b = board("4k3/8/8/8/3R4/4K3/8/8 b - - 0 1");
    let centre_b = board("8/8/4k3/8/3R4/4K3/8/8 b - - 0 1");
    assert_eq!(evaluate_layout(&edge_w.layout, 0) - evaluate_layout(&centre_w.layout, 0), 50 + 80 - 20);
    assert_eq!(evaluate_layout(&edge_b.layout, 0) - evaluate_layout(&centre_b.layout, 0), -(50 + 80 - 20));
    // With fewer than eight pieces and one side ahead the value negates with the move.
    assert_eq!(Simple::evaluate(&centre_w), -Simple::evaluate(&centre_b));
    assert_eq!(Simple::evaluate(&edge_w), -Simple::evaluate(&edge_b));
}

#[test]
fn evaluate_is_the_same_for_the_mirrored_position() {
    let fens = [
        "rnbqkbnr/pppppppp/8/8/4P3/8/PPPP1PPP/RNBQKBNR b KQkq - 0 1",
        "rn1qk1nr/pbp2pbp/1p4p1/3pp3/3PP3/8/PPPBBPPP/RN1QK1NR w KQkq - 0 1",
        "8/8/4k3/8/3R4/4K3/8/8 w - - 0 1",
        "8/5k2/5b2/5b2/8/8/8/5K2 b - - 0 1",
        "r1b2k1r/pppq3p/2np1p2/8/2B2B2/8/PPP3PP/4RR1K w - - 0 1",
    ];
    for fen in fens {
        let b = board(fen);
        let king_moves = defending_kings_moves_count(&b, !b.layout.white_to_move);
        let mirrored = b.layout.mirror_color();
        assert_eq!(evaluate_layout(&mirrored, king_moves), evaluate_layout(&b.layout, king_moves));
        assert_eq!(mirrored.mirror_color(), b.layout);
    }
}

#[test]
fn evaluate_of_a_balanced_position_negates_under_mirroring() {
    let b = board("rnbqkbnr/pppppppp/8/8/8/8/PPPPPPPP/RNBQKBNR w KQkq - 0 1");
    let mirrored = b.layout.mirror_color();
    assert_eq!(evaluate_layout(&b.layout, 0), 0);
    assert_eq!(evaluate_layout(&b.layout, 0), -evaluate_layout(&mirrored, 0));
}

#[test]
fn evaluate_negates_when_the_move_passes() {
    let white = board("rn1qk1nr/pbp2pbp/1p4p1/3pp3/3PP3/8/PPPBBPPP/RN1QK1NR w KQkq - 0 1");
    let black = board("rn1qk1nr/pbp2pbp/1p4p1/3pp3/3PP3/8/PPPBBPPP/RN1QK1NR b KQkq - 0 1");
    assert_eq!(Simple::evaluate(&white), -Simple::evaluate(&black));
}

#[test]
fn evaluate_is_deterministic() {
    let b = board("r1b2k1r/pppq3p/2np1p2/8/2B2B2/8/PPP3PP/4RR1K w - - 0 1");
    assert_eq!(Simple::evaluate(&b), Simple::evaluate(&b));
    let again = board("r1b2k1r/pppq3p/2np1p2/8/2B2B2/8/PPP3PP/4RR1K w - - 0 1");
    assert_eq!(Simple::evaluate(&b), Simple::evaluate(&again));
}

#[test]
fn mirror_ranks_turns_the_board() {
    assert_eq!(mirror_ranks(0xff), 0xff00000000000000);
    assert_eq!(mirror_ranks(1 << 12), 1 << 52);
    assert_eq!(mirror_ranks(0x0102030405060708), 0x0807060504030201);
}

#[test]
fn static_value_stays_below_the_mate_level() {
    let fens = [
        "4k3/8/8/8/8/8/QQQQQQQQ/QQQQKQQQ b - - 0 1",
        "rnbqkbnr/pppppppp/8/8/8/8/PPPPPPPP/RNBQKBNR w KQkq - 0 1",
        "4k3/8/8/8/8/8/8/QQQ1K1QQ w - - 0 1",
        "7k/5Q2/6K1/8/8/8/8/8 b - - 0 1",
    ];
    for fen in fens {
        let value = Simple::evaluate(&board(fen));
        assert!(-55_000 < value && value < 55_000, "{} is worth {}", fen, value);
    }
    // Five queens, and a king at the edge with five moves, seven steps from the other king.
    assert_eq!(
        Simple::evaluate(&board("4k3/8/8/8/8/8/8/QQQ1K1QQ w - - 0 1")),
        5 * 1800 + 50 - 70 - 50
    );
}
