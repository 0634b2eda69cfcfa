use crate::misc::bits::{flip_ranks, mirror_ranks, ones};
use crate::misc::types::ChessMove;
use cozy_chess::{util, BitBoard, Board, Color, FenParseError, GameStatus, Move, Piece, Square};
use vstd::prelude::*;

verus! {

/// The state of the game at a position.
#[derive(Clone, Copy, Debug, PartialEq, Eq, Structural)]
pub enum Status {
    /// The game is still going on.
    Ongoing,
    /// The side to move has been checkmated.
    Won,
    /// Stalemate, or a draw by the fifty-move rule.
    Drawn,
}

/// Why no game could be set up.
#[derive(Clone, Copy, Debug, PartialEq, Eq, Structural)]
pub enum GameError {
    /// The text given is no position in Forsyth-Edwards notation.
    InvalidFen,
}

/// Where the pieces stand and who is to move. Each field but the last is a set of squares,
/// with bit 0 for a1, bit 7 for h1 and bit 63 for h8.
#[derive(Clone, Copy, Debug, PartialEq, Eq, Structural)]
pub struct Layout {
    pub pawns: u64,
    pub knights: u64,
    pub bishops: u64,
    pub rooks: u64,
    pub queens: u64,
    pub kings: u64,
    pub white: u64,
    pub black: u64,
    pub white_to_move: bool,
}

/// A position of a game. `fen` is the whole position in Shredder-FEN, the form of
/// Forsyth-Edwards notation that names the files of the castling rooks; the rules of chess
/// are asked about a position by this text. The other fields hold what the engine itself
/// reads: the hash of the position without its en passant square, the state of the game
/// and the layout.
#[derive(Debug)]
pub struct Position {
    pub fen: String,
    pub key: u64,
    pub status: Status,
    pub layout: Layout,
}

/// A position as a mathematical value.
pub ghost struct PositionView {
    pub fen: Seq<char>,
    pub key: u64,
    pub status: Status,
    pub layout: Layout,
}

impl Clone for Position {
    fn clone(&self) -> (r: Self)
        ensures
            r == *self,
    {
        Position {
            fen: self.fen.clone(),
            key: self.key,
            status: self.status,
            layout: self.layout,
        }
    }
}

impl View for Position {
    type V = PositionView;

    open spec fn view(&self) -> PositionView {
        PositionView { fen: self.fen@, key: self.key, status: self.status, layout: self.layout }
    }
}

/// The position that a text in Forsyth-Edwards notation describes, as Cozy Chess has it:
/// `None` where `Board::from_str`, which reads plain and Shredder text, rejects the text.
/// The name stands for several of its functions at once, all applied to the board read:
/// the text as `Display` writes it in Shredder form, the hash of `hash_without_ep`, the
/// state of `status`, and the layout of `pieces`, `colors` and `side_to_move`.
pub uninterp spec fn position_of_fen(fen: Seq<char>) -> Option<PositionView>;

/// The text of the position after a move, as `Board::try_play` of Cozy Chess makes it:
/// `None` where the text given is no position or the move is not legal there. The text
/// given is read as Shredder text only, the form in which every [`Position`] that the
/// library makes holds its text, and so is the text given to the names that follow, but
/// for [`san_text_of`]. A text with the castling letters of plain notation is no position
/// to them: a `Position` written by hand with such a text has no position after a move and
/// no legal moves.
pub uninterp spec fn text_after_move(fen: Seq<char>, mv: ChessMove) -> Option<Seq<char>>;

/// The text of the position after the side to move has passed, as `Board::null_move` of
/// Cozy Chess makes it: `None` where the text given is no position or the side to move is
/// in check.
pub uninterp spec fn text_after_pass(fen: Seq<char>) -> Option<Seq<char>>;

/// The legal moves of the pieces that stand on the squares of `mask`, in the order in which
/// `Board::generate_moves_for` of Cozy Chess hands them out: empty where the text, read as
/// Shredder text, is no position.
pub uninterp spec fn legal_moves_from(fen: Seq<char>, mask: u64) -> Seq<ChessMove>;

/// The error of Cozy Chess for a text that is no position. Nothing is read from it.
#[verifier::external_type_specification]
#[verifier::external_body]
pub struct ExFenParseError(FenParseError);

impl ChessMove {
    /// Both squares lie on the board and the promotion piece, if any, is a piece.
    pub open spec fn wf(self) -> bool {
        &&& self.from < 64
        &&& self.to < 64
        &&& self.promotion matches Some(k) ==> k < 6
    }

    /// Whether both squares lie on the board and the promotion piece, if any, is a piece.
    pub fn is_wf(&self) -> (r: bool)
        ensures
            r == self.wf(),
    {
        self.from < 64 && self.to < 64 && match self.promotion {
            Some(k) => k < 6,
            None => true,
        }
    }
}

impl Layout {
    /// Each side has one king.
    pub open spec fn wf(self) -> bool {
        &&& exists|s: u64| s < 64 && self.kings & self.white == 1u64 << s
        &&& exists|s: u64| s < 64 && self.kings & self.black == 1u64 << s
    }

    /// A layout as the rules of chess have it: each side has one king, no square holds two
    /// men or a man of two kinds, every man has a colour and a kind, and neither side has
    /// more than sixteen men.
    pub open spec fn valid(self) -> bool {
        &&& self.wf()
        &&& self.white & self.black == 0
        &&& self.pawns & (self.knights | self.bishops | self.rooks | self.queens | self.kings)
            == 0
        &&& self.knights & (self.bishops | self.rooks | self.queens | self.kings) == 0
        &&& self.bishops & (self.rooks | self.queens | self.kings) == 0
        &&& self.rooks & (self.queens | self.kings) == 0
        &&& self.queens & self.kings == 0
        &&& self.pawns | self.knights | self.bishops | self.rooks | self.queens | self.kings
            == self.white | self.black
        &&& ones(self.white) <= 16
        &&& ones(self.black) <= 16
    }

    /// All occupied squares.
    pub open spec fn occupied_spec(self) -> u64 {
        self.white | self.black
    }

    /// All occupied squares.
    pub fn occupied(&self) -> (r: u64)
        ensures
            r == self.occupied_spec(),
    {
        self.white | self.black
    }

    /// The squares that the pieces of the side to move stand on.
    pub open spec fn own_spec(self) -> u64 {
        if self.white_to_move {
            self.white
        } else {
            self.black
        }
    }

    /// The squares that the pieces of the side not to move stand on.
    pub open spec fn enemy_spec(self) -> u64 {
        if self.white_to_move {
            self.black
        } else {
            self.white
        }
    }

    /// The squares that the pieces of the side to move stand on.
    pub fn own(&self) -> (r: u64)
        ensures
            r == self.own_spec(),
    {
        if self.white_to_move {
            self.white
        } else {
            self.black
        }
    }

    /// The squares that the pieces of the side not to move stand on.
    pub fn enemy(&self) -> (r: u64)
        ensures
            r == self.enemy_spec(),
    {
        if self.white_to_move {
            self.black
        } else {
            self.white
        }
    }

    /// The same layout with the colours of the pieces exchanged, the board turned upside
    /// down and the other side to move.
    pub open spec fn mirror_color_spec(self) -> Layout {
        Layout {
            pawns: flip_ranks(self.pawns),
            knights: flip_ranks(self.knights),
            bishops: flip_ranks(self.bishops),
            rooks: flip_ranks(self.rooks),
            queens: flip_ranks(self.queens),
            kings: flip_ranks(self.kings),
            white: flip_ranks(self.black),
            black: flip_ranks(self.white),
            white_to_move: !self.white_to_move,
        }
    }

    /// Exchange the colours of the pieces, turn the board upside down and give the move to
    /// the other side.
    pub fn mirror_color(&self) -> (r: Layout)
        ensures
            r == self.mirror_color_spec(),
    {
        Layout {
            pawns: mirror_ranks(self.pawns),
            knights: mirror_ranks(self.knights),
            bishops: mirror_ranks(self.bishops),
            rooks: mirror_ranks(self.rooks),
            queens: mirror_ranks(self.queens),
            kings: mirror_ranks(self.kings),
            white: mirror_ranks(self.black),
            black: mirror_ranks(self.white),
            white_to_move: !self.white_to_move,
        }
    }

    /// The same layout with the other side to move.
    pub open spec fn pass_spec(self) -> Layout {
        Layout { white_to_move: !self.white_to_move, ..self }
    }
}

/// Calls `Board::from_str` of Cozy Chess, which reads plain and Shredder-FEN, and takes from
/// the board what a [`Position`] holds. The contract names the outcome: the position read,
/// or none where the text is rejected.
#[verifier::external_body]
fn read_fen(fen: &str) -> (r: Result<Position, FenParseError>)
    ensures
        r matches Ok(p) ==> position_of_fen(fen@) == Some(p@),
        r is Err ==> position_of_fen(fen@) is None,
{
    let b = fen.parse::<Board>()?;
    let [pawns, knights, bishops, rooks, queens, kings] = Piece::ALL.map(|k| b.pieces(k).0);
    let [white, black] = Color::ALL.map(|c| b.colors(c).0);
    let white_to_move = b.side_to_move() == Color::White;
    let status = match b.status() {
        GameStatus::Ongoing => Status::Ongoing,
        GameStatus::Won => Status::Won,
        GameStatus::Drawn => Status::Drawn,
    };
    let layout =
        Layout { pawns, knights, bishops, rooks, queens, kings, white, black, white_to_move };
    Ok(Position { fen: format!("{:#}", b), key: b.hash_without_ep(), status, layout })
}

/// No position has more legal moves than this: the move generator hands out at most 18
/// batches, each with at most 64 destinations and at most 4 promotions to each.
pub const MAX_MOVES: usize = 4608;

/// No man has more legal moves than this: the move generator hands out at most two batches
/// for the man on a square, one of them for a pawn that takes en passant, each with at most
/// 64 destinations and at most 4 promotions to each.
pub const MAX_MOVES_OF_A_MAN: usize = 512;

/// Calls `Board::try_play` of Cozy Chess on the board that the text describes. The contract
/// names the outcome: the text of the position after the move, or none where the text is
/// no position or the move is not legal.
#[verifier::external_body]
fn fen_after_move(fen: &str, mv: &ChessMove) -> (r: Option<String>)
    requires
        mv.wf(),
    ensures
        r matches Some(t) ==> text_after_move(fen@, *mv) == Some(t@),
        r is None ==> text_after_move(fen@, *mv) is None,
{
    let mut b = Board::from_fen(fen, true).ok()?;
    let from = Square::index(mv.from as usize);
    let to = Square::index(mv.to as usize);
    let promotion = mv.promotion.map(|k| Piece::index(k as usize));
    b.try_play(Move { from, to, promotion }).ok()?;
    Some(format!("{:#}", b))
}

/// Calls `Board::null_move` of Cozy Chess on the board that the text describes. The
/// contract names the outcome: the text of the position after the pass, or none where the
/// text is no position or the side to move is in check.
#[verifier::external_body]
fn fen_after_pass(fen: &str) -> (r: Option<String>)
    ensures
        r matches Some(t) ==> text_after_pass(fen@) == Some(t@),
        r is None ==> text_after_pass(fen@) is None,
{
    let b = Board::from_fen(fen, true).ok()?.null_move()?;
    Some(format!("{:#}", b))
}

/// Calls `Board::generate_moves_for` of Cozy Chess on the board that the text describes and
/// unpacks what it hands out, in its order. The contract names the moves and adds what the
/// documentation, the source and the types give: each move lies on the board, there are
/// at most [`MAX_MOVES`] of them, and at most [`MAX_MOVES_OF_A_MAN`] for each square of
/// the mask, since only men on squares of the mask are moved.
#[verifier::external_body]
fn generate_moves_for(fen: &str, mask: u64) -> (r: Vec<ChessMove>)
    ensures
        r@ == legal_moves_from(fen@, mask),
        r@.len() <= MAX_MOVES,
        r@.len() <= MAX_MOVES_OF_A_MAN * ones(mask),
        forall|i: int| 0 <= i < r@.len() ==> (#[trigger] r@[i]).wf(),
{
    let mut v = Vec::new();
    if let Ok(b) = Board::from_fen(fen, true) {
        b.generate_moves_for(BitBoard(mask), |moves| {
            v.extend(moves.into_iter().map(|m| ChessMove {
                from: m.from as u8,
                to: m.to as u8,
                promotion: m.promotion.map(|k| k as u8),
            }));
            false
        });
    }
    v
}

/// The move that a text in the notation of the Universal Chess Interface stands for at a
/// position, as `parse_uci_move` of Cozy Chess reads it: `None` where it rejects the text
/// or the position. Castling, which the interface writes as a move of the king by two
/// squares, comes out as the king moving onto its rook.
pub uninterp spec fn uci_move_of(fen: Seq<char>, text: Seq<char>) -> Option<ChessMove>;

/// A move in the notation of the Universal Chess Interface, as `display_uci_move` of Cozy
/// Chess writes it at a position: `None` where the text given is no position.
pub uninterp spec fn uci_text_of(fen: Seq<char>, mv: ChessMove) -> Option<Seq<char>>;

/// The move that a text in standard algebraic notation stands for at a position, written
/// as Cozy Chess writes a move (from, to and the promotion piece; castling as the king
/// moving onto its rook), as `parse_san_move` of Cozy Chess reads it: `None` where it
/// rejects the text or the position.
pub uninterp spec fn san_text_of(fen: Seq<char>, san: Seq<char>) -> Option<Seq<char>>;

/// Calls `parse_san_move` of Cozy Chess on the board that `Board::from_str` reads from the
/// text `fen`, and writes the move out. The contract names the outcome.
#[verifier::external_body]
pub(crate) fn parse_san_move(fen: &str, san: &str) -> (r: Option<String>)
    ensures
        r matches Some(t) ==> san_text_of(fen@, san@) == Some(t@),
        r is None ==> san_text_of(fen@, san@) is None,
{
    let b = fen.parse::<Board>().ok()?;
    let m = util::parse_san_move(&b, san).ok()?;
    Some(format!("{}", m))
}

/// Calls `parse_uci_move` of Cozy Chess on the board that the text `fen` describes. The
/// contract names the outcome and adds that a move read lies on the board.
#[verifier::external_body]
pub(crate) fn parse_uci_move(fen: &str, text: &str) -> (r: Option<ChessMove>)
    ensures
        r == uci_move_of(fen@, text@),
        r matches Some(m) ==> m.wf(),
{
    let b = Board::from_fen(fen, true).ok()?;
    let m = util::parse_uci_move(&b, text).ok()?;
    Some(ChessMove { from: m.from as u8, to: m.to as u8, promotion: m.promotion.map(|k| k as u8) })
}

/// Calls `display_uci_move` of Cozy Chess on the board that the text `fen` describes and
/// writes out what it returns. The contract names the outcome.
#[verifier::external_body]
pub(crate) fn display_uci_move(fen: &str, mv: &ChessMove) -> (r: Option<String>)
    requires
        mv.wf(),
    ensures
        r matches Some(t) ==> uci_text_of(fen@, *mv) == Some(t@),
        r is None ==> uci_text_of(fen@, *mv) is None,
{
    let b = Board::from_fen(fen, true).ok()?;
    let from = Square::index(mv.from as usize);
    let to = Square::index(mv.to as usize);
    let promotion = mv.promotion.map(|k| Piece::index(k as usize));
    Some(format!("{}", util::display_uci_move(&b, Move { from, to, promotion })))
}

/// The position after `mv` at the position that the text describes, or `None` where `mv` is
/// not legal there.
pub open spec fn position_after(fen: Seq<char>, mv: ChessMove) -> Option<PositionView> {
    if mv.wf() {
        match text_after_move(fen, mv) {
            Some(t) => position_of_fen(t),
            None => None,
        }
    } else {
        None
    }
}

/// The legal moves at the position that the text describes, in the order of the move
/// generator.
pub open spec fn legal_moves_at(fen: Seq<char>) -> Seq<ChessMove> {
    legal_moves_from(fen, u64::MAX)
}

/// The legal moves of the pieces on the squares of `mask`, after the side to move has
/// passed: none where it cannot pass.
pub open spec fn moves_after_pass(fen: Seq<char>, mask: u64) -> Seq<ChessMove> {
    match text_after_pass(fen) {
        Some(t) => legal_moves_from(t, mask),
        None => Seq::empty(),
    }
}

impl Position {
    /// Read a position from Forsyth-Edwards notation, plain or Shredder.
    pub fn from_fen(fen: &str) -> (r: Result<Position, GameError>)
        ensures
            r matches Ok(p) ==> position_of_fen(fen@) == Some(p@),
            r is Err <==> position_of_fen(fen@) is None,
            r matches Err(e) ==> e == GameError::InvalidFen,
    {
        match read_fen(fen) {
            Ok(p) => Ok(p),
            Err(_) => Err(GameError::InvalidFen),
        }
    }

    /// All legal moves, in the order of the move generator.
    pub fn legal_moves(&self) -> (r: Vec<ChessMove>)
        ensures
            r@ == legal_moves_at(self.fen@),
            r@.len() <= MAX_MOVES,
            forall|i: int| 0 <= i < r@.len() ==> (#[trigger] r@[i]).wf(),
    {
        generate_moves_for(self.fen.as_str(), u64::MAX)
    }

    /// The legal moves of the pieces on the squares of `mask`.
    pub fn legal_moves_of(&self, mask: u64) -> (r: Vec<ChessMove>)
        ensures
            r@ == legal_moves_from(self.fen@, mask),
            r@.len() <= MAX_MOVES,
            r@.len() <= MAX_MOVES_OF_A_MAN * ones(mask),
            forall|i: int| 0 <= i < r@.len() ==> (#[trigger] r@[i]).wf(),
    {
        generate_moves_for(self.fen.as_str(), mask)
    }

    /// The legal moves that the pieces on the squares of `mask` have once the side to move
    /// has passed: none where it is in check and cannot pass.
    pub fn legal_moves_after_pass(&self, mask: u64) -> (r: Vec<ChessMove>)
        ensures
            r@ == moves_after_pass(self.fen@, mask),
            r@.len() <= MAX_MOVES,
            r@.len() <= MAX_MOVES_OF_A_MAN * ones(mask),
    {
        proof {
            crate::misc::bits::lemma_ones_bounds(mask);
        }
        match fen_after_pass(self.fen.as_str()) {
            Some(t) => generate_moves_for(t.as_str(), mask),
            None => Vec::new(),
        }
    }

    /// Play a move: the position after it, or `None` where the move is not legal here.
    pub fn play(&self, mv: &ChessMove) -> (r: Option<Position>)
        ensures
            r matches Some(p) ==> position_after(self.fen@, *mv) == Some(p@),
            r is None <==> position_after(self.fen@, *mv) is None,
    {
        if !mv.is_wf() {
            return None;
        }
        match fen_after_move(self.fen.as_str(), mv) {
            Some(t) => match read_fen(t.as_str()) {
                Ok(p) => Some(p),
                Err(_) => None,
            },
            None => None,
        }
    }
}

} // verus!
