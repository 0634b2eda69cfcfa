use super::time_management::{game_time_spec, TimeManagement};
use crate::engine::game::Game;
use crate::engine::history::inc_spec;
use crate::engine::position::{
    display_uci_move, legal_moves_at, parse_uci_move, position_after, position_of_fen,
    uci_move_of, uci_text_of, GameError, Position, PositionView,
};
use crate::engine::pvs::{bump, store_grown};
use crate::misc::text::{
    i16_spec, parse_i16, parse_u64, split_whitespace, texts, u64_spec, words_spec,
};
use crate::misc::types::{BoardHistory, ChessMove, Depth, MoveNumber, MoveTime};
use vstd::prelude::*;
use vstd::string::*;

verus! {

/// An UCI interface to be used with a chess GUI.
/// See https://en.wikipedia.org/wiki/Universal_Chess_Interface .
pub struct Cli {
    pub game: Game,
    pub tm: TimeManagement,
}

/// What the engine answers to one line of input: the lines to send, and whether to leave.
pub struct Reply {
    pub lines: Vec<String>,
    pub quit: bool,
}

/// What the command `position` sets up.
pub ghost struct Setup {
    pub board: PositionView,
    pub history: Map<u64, BoardHistory>,
    pub move_number: MoveNumber,
}

/// What the command `go` sets before the search.
pub ghost struct Limits {
    pub tm: TimeManagement,
    pub max_depth: Depth,
    pub move_time: MoveTime,
}

/// The six fields of a position in Forsyth-Edwards notation that follow the word at `i`,
/// with one blank between them.
pub open spec fn fen_of(words: Seq<Seq<char>>, i: int) -> Seq<char> {
    words[i + 1] + " "@ + words[i + 2] + " "@ + words[i + 3] + " "@ + words[i + 4] + " "@ + words[i
        + 5] + " "@ + words[i + 6]
}

/// The game after the moves from the word at `i` on were played: each move is counted in
/// the history and starts a new move number where it was White's. The first word that is
/// no legal move ends the list.
pub open spec fn moves_spec(s: Setup, words: Seq<Seq<char>>, i: nat) -> Setup
    decreases words.len() - i,
{
    if i >= words.len() {
        s
    } else {
        match uci_move_of(s.board.fen, words[i as int]) {
            None => s,
            Some(m) => match position_after(s.board.fen, m) {
                None => s,
                Some(b) => moves_spec(
                    Setup {
                        board: b,
                        history: inc_spec(s.history, s.board.key),
                        move_number: if b.layout.white_to_move {
                            s.move_number
                        } else {
                            bump(s.move_number)
                        },
                    },
                    words,
                    i + 1,
                ),
            },
        }
    }
}

/// The game after the command `position`, whose words follow from the place `i` on: `fen`
/// and six fields set the position and the move number, `startpos` leaves the game as it
/// is, `moves` plays the moves that follow, and any other word ends the command.
pub open spec fn position_spec(s: Setup, words: Seq<Seq<char>>, i: nat) -> Setup
    decreases words.len() - i,
{
    if i >= words.len() {
        s
    } else if words[i as int] == "fen"@ {
        if i + 6 >= words.len() {
            s
        } else {
            let numbered = Setup {
                move_number: match u64_spec(words[i as int + 6]) {
                    Some(n) => n,
                    None => s.move_number,
                },
                ..s
            };
            match position_of_fen(fen_of(words, i as int)) {
                Some(b) => position_spec(Setup { board: b, ..numbered }, words, i + 7),
                None => numbered,
            }
        }
    } else if words[i as int] == "startpos"@ {
        position_spec(s, words, i + 1)
    } else if words[i as int] == "moves"@ {
        moves_spec(s, words, i + 1)
    } else {
        s
    }
}

/// Nine tenths of a time, rounded down.
pub open spec fn nine_tenths(a: MoveTime) -> MoveTime {
    (a as int * 9 / 10) as MoveTime
}

/// The limits after the command `go`, whose words follow from the place `i` on: each of
/// `wtime`, `btime`, `winc`, `binc`, `movestogo`, `depth` and `movetime` takes the number
/// that follows it, `searchmoves`, `ponder`, `nodes` and `mate` are passed over, and any
/// other word, a missing number or a word that is no number ends the command.
pub open spec fn go_spec(l: Limits, words: Seq<Seq<char>>, i: nat) -> Limits
    decreases words.len() - i,
{
    if i >= words.len() {
        l
    } else {
        let w = words[i as int];
        if w == "searchmoves"@ || w == "ponder"@ || w == "nodes"@ || w == "mate"@ {
            go_spec(l, words, i + 1)
        } else if i + 1 >= words.len() {
            l
        } else if w == "depth"@ {
            match i16_spec(words[i as int + 1]) {
                Some(a) => go_spec(Limits { max_depth: a, ..l }, words, i + 2),
                None => l,
            }
        } else {
            match u64_spec(words[i as int + 1]) {
                None => l,
                Some(a) => if w == "wtime"@ {
                    go_spec(
                        Limits { tm: TimeManagement { white_time: a, ..l.tm }, ..l },
                        words,
                        i + 2,
                    )
                } else if w == "btime"@ {
                    go_spec(
                        Limits { tm: TimeManagement { black_time: a, ..l.tm }, ..l },
                        words,
                        i + 2,
                    )
                } else if w == "winc"@ {
                    go_spec(
                        Limits { tm: TimeManagement { white_inc: a, ..l.tm }, ..l },
                        words,
                        i + 2,
                    )
                } else if w == "binc"@ {
                    go_spec(
                        Limits { tm: TimeManagement { black_inc: a, ..l.tm }, ..l },
                        words,
                        i + 2,
                    )
                } else if w == "movestogo"@ {
                    go_spec(
                        Limits { tm: TimeManagement { moves_to_go: a, ..l.tm }, ..l },
                        words,
                        i + 2,
                    )
                } else if w == "movetime"@ {
                    go_spec(Limits { move_time: nine_tenths(a), ..l }, words, i + 2)
                } else {
                    l
                },
            }
        }
    }
}

/// The text of an answer, if there is one.
pub open spec fn line_of(r: Option<String>) -> Option<Seq<char>> {
    match r {
        Some(line) => Some(line@),
        None => None,
    }
}

/// What the command `go` does, its words following from the place `from` on: the limits
/// are read, the move time is set from the times of the side to move, and the search
/// gives its move. The answer is `bestmove` and the move as the interface writes it; the
/// move is counted in the history and played on the board. An answer is owed where the
/// position has a legal move and every legal move can be written and played: no answer
/// comes only without a legal move, or where the rules refuse one of them.
pub open spec fn go_post(
    before: Cli,
    words: Seq<Seq<char>>,
    from: nat,
    line: Option<Seq<char>>,
    after: Cli,
) -> bool {
    let limits = go_spec(before.limits(), words, from);
    let fen = before.game.board.fen@;
    let available = limits.tm.available(before.game.board.layout.white_to_move);
    &&& after.wf()
    &&& after.tm == limits.tm
    &&& after.game.max_depth == limits.max_depth
    &&& after.game.move_time == game_time_spec(
        available.0,
        available.1,
        before.game.move_number,
    )
    &&& after.game.time_limit() == Some(after.game.move_time)
    &&& after.game.move_number == before.game.move_number
    &&& after.game.node_count >= before.game.node_count
    &&& store_grown(before.game.table(), after.game.table())
    &&& legal_moves_at(fen).len() == 0 ==> line is None
    &&& line is None ==> after.game.board == before.game.board && after.game.game_history
        == before.game.game_history
    &&& line is None ==> legal_moves_at(fen).len() == 0 || exists|m: ChessMove|
        {
            &&& #[trigger] legal_moves_at(fen).contains(m)
            &&& uci_text_of(fen, m) is None || position_after(fen, m) is None
        }
    &&& line matches Some(t) ==> exists|m: ChessMove|
        {
            &&& #[trigger] legal_moves_at(fen).contains(m)
            &&& uci_text_of(fen, m) matches Some(u) && t == "bestmove "@ + u
            &&& position_after(fen, m) == Some(after.game.board@)
            &&& after.game.game_history@ == inc_spec(
                before.game.game_history@,
                before.game.board.key,
            )
        }
}

/// Whether a word is the given one.
fn is_word(s: &String, word: &str) -> (r: bool)
    ensures
        r == (s@ == word@),
{
    *s == String::from_str(word)
}

impl Cli {
    /// What the command `position` works on.
    pub open spec fn setup(&self) -> Setup {
        Setup {
            board: self.game.board@,
            history: self.game.game_history@,
            move_number: self.game.move_number,
        }
    }

    /// What the command `go` works on.
    pub open spec fn limits(&self) -> Limits {
        Limits { tm: self.tm, max_depth: self.game.max_depth, move_time: self.game.move_time }
    }

    /// The game is well-formed.
    pub open spec fn wf(&self) -> bool {
        self.game.wf()
    }

    /// Constructor: a game at the start position and no times set.
    pub fn new() -> (r: Result<Cli, GameError>)
        ensures
            r matches Ok(c) ==> c.wf() && c.tm == (TimeManagement {
                white_time: 0,
                black_time: 0,
                white_inc: 0,
                black_inc: 0,
                moves_to_go: 0,
            }) && c.game.max_depth == crate::engine::constants::INIT_MAX_DEPTH && c.game.move_time
                == crate::engine::constants::DEFAULT_TIME && c.game.move_number == 0,
            r is Ok <==> position_of_fen(crate::engine::game::FEN_START@) is Some,
    {
        proof {
            reveal_strlit("");
        }
        match Game::new(String::from_str(""), 0, 0) {
            Ok(game) => Ok(Cli { game, tm: TimeManagement::default() }),
            Err(e) => Err(e),
        }
    }

    /// UCI `position` command. The words of the command follow in `args` from the place
    /// `from` on.
    pub fn position(&mut self, args: &Vec<String>, from: usize)
        requires
            old(self).wf(),
        ensures
            final(self).wf(),
            final(self).setup() == position_spec(old(self).setup(), texts(args@), from as nat),
            final(self).tm == old(self).tm,
            final(self).game.max_depth == old(self).game.max_depth,
            final(self).game.move_time == old(self).game.move_time,
            final(self).game.node_count == old(self).game.node_count,
            final(self).game.game_store == old(self).game.game_store,
    {
        let ghost words = texts(args@);
        let mut i: usize = from;
        let mut moves = false;
        while i < args.len()
            invariant
                words == texts(args@),
                self.wf(),
                self.tm == old(self).tm,
                self.game.max_depth == old(self).game.max_depth,
                self.game.move_time == old(self).game.move_time,
                self.game.node_count == old(self).game.node_count,
                self.game.game_store == old(self).game.game_store,
                !moves ==> position_spec(self.setup(), words, i as nat) == position_spec(
                    old(self).setup(),
                    words,
                    from as nat,
                ),
                moves ==> moves_spec(self.setup(), words, i as nat) == position_spec(
                    old(self).setup(),
                    words,
                    from as nat,
                ),
            decreases args@.len() - i,
        {
            assert(words[i as int] == args@[i as int]@);
            if moves {
                match parse_uci_move(self.game.board.fen.as_str(), args[i].as_str()) {
                    Some(m) => match self.game.board.play(&m) {
                        Some(b) => {
                            self.game.game_history.inc(&self.game.board);
                            self.game.board = b;
                            if !self.game.board.layout.white_to_move {
                                if self.game.move_number < MoveNumber::MAX {
                                    self.game.move_number += 1;
                                }
                            }
                            i += 1;
                        },
                        None => {
                            return ;
                        },
                    },
                    None => {
                        return ;
                    },
                }
            } else if is_word(&args[i], "fen") {
                if args.len() - i <= 6 {
                    return ;
                }
                let mut fen = String::from_str(args[i + 1].as_str());
                fen.append(" ");
                fen.append(args[i + 2].as_str());
                fen.append(" ");
                fen.append(args[i + 3].as_str());
                fen.append(" ");
                fen.append(args[i + 4].as_str());
                fen.append(" ");
                fen.append(args[i + 5].as_str());
                fen.append(" ");
                fen.append(args[i + 6].as_str());
                proof {
                    assert(words[i + 1] == args@[i + 1]@);
                    assert(words[i + 2] == args@[i + 2]@);
                    assert(words[i + 3] == args@[i + 3]@);
                    assert(words[i + 4] == args@[i + 4]@);
                    assert(words[i + 5] == args@[i + 5]@);
                    assert(words[i + 6] == args@[i + 6]@);
                    assert(fen@ =~= fen_of(words, i as int));
                }
                match parse_u64(args[i + 6].as_str()) {
                    Some(n) => {
                        self.game.move_number = n;
                    },
                    None => {},
                }
                match Position::from_fen(fen.as_str()) {
                    Ok(b) => {
                        self.game.board = b;
                    },
                    Err(_) => {
                        return ;
                    },
                }
                i += 7;
            } else if is_word(&args[i], "startpos") {
                // do nothing as game was already initialised with startposition
                i += 1;
            } else if is_word(&args[i], "moves") {
                moves = true;
                i += 1;
            } else {
                return ;
            }
        }
    }

    /// The limits that the UCI `go` command sets. The words of the command follow in `args`
    /// from the place `from` on.
    pub fn read_limits(&mut self, args: &Vec<String>, from: usize)
        ensures
            final(self).limits() == go_spec(old(self).limits(), texts(args@), from as nat),
            final(self).game.board == old(self).game.board,
            final(self).game.move_number == old(self).game.move_number,
            final(self).game.node_count == old(self).game.node_count,
            final(self).game.playing == old(self).game.playing,
            final(self).game.game_store == old(self).game.game_store,
            final(self).game.game_history == old(self).game.game_history,
    {
        let ghost words = texts(args@);
        let mut i: usize = from;
        while i < args.len()
            invariant
                words == texts(args@),
                self.game.board == old(self).game.board,
                self.game.move_number == old(self).game.move_number,
                self.game.node_count == old(self).game.node_count,
                self.game.playing == old(self).game.playing,
                self.game.game_store == old(self).game.game_store,
                self.game.game_history == old(self).game.game_history,
                go_spec(self.limits(), words, i as nat) == go_spec(
                    old(self).limits(),
                    words,
                    from as nat,
                ),
            decreases args@.len() - i,
        {
            assert(words[i as int] == args@[i as int]@);
            let cmd = &args[i];
            if is_word(cmd, "searchmoves") || is_word(cmd, "ponder") || is_word(cmd, "nodes")
                || is_word(cmd, "mate") {
                i += 1;
                continue ;
            }
            if args.len() - i <= 1 {
                return ;
            }
            assert(words[i + 1] == args@[i + 1]@);
            let arg = args[i + 1].as_str();
            if is_word(cmd, "depth") {
                match parse_i16(arg) {
                    Some(a) => {
                        self.game.max_depth = a;
                    },
                    None => {
                        return ;
                    },
                }
            } else {
                match parse_u64(arg) {
                    None => {
                        return ;
                    },
                    Some(a) => {
                        if is_word(cmd, "wtime") {
                            self.tm.white_time = a;
                        } else if is_word(cmd, "btime") {
                            self.tm.black_time = a;
                        } else if is_word(cmd, "winc") {
                            self.tm.white_inc = a;
                        } else if is_word(cmd, "binc") {
                            self.tm.black_inc = a;
                        } else if is_word(cmd, "movestogo") {
                            self.tm.moves_to_go = a;
                        } else if is_word(cmd, "movetime") {
                            self.game.move_time = a / 10 * 9 + a % 10 * 9 / 10;
                        } else {
                            return ;
                        }
                    },
                }
            }
            i += 2;
        }
    }

    /// Get best move from the engine module: the answer to send, `bestmove` and the move.
    /// The move is counted in the history and played on the board of the game.
    pub fn get_move_from_engine(&mut self) -> (r: Option<String>)
        requires
            old(self).wf(),
        ensures
            final(self).wf(),
            final(self).tm == old(self).tm,
            final(self).game.max_depth == old(self).game.max_depth,
            final(self).game.move_time == old(self).game.move_time,
            final(self).game.move_number == old(self).game.move_number,
            final(self).game.time_limit() == Some(old(self).game.move_time),
            final(self).game.node_count >= old(self).game.node_count,
            store_grown(old(self).game.table(), final(self).game.table()),
            r is None ==> final(self).game.board == old(self).game.board && final(self).game.game_history == old(self).game.game_history,
            legal_moves_at(old(self).game.board.fen@).len() == 0 ==> r is None,
            r is None ==> legal_moves_at(old(self).game.board.fen@).len() == 0 || exists|
                m: ChessMove,
            |
                {
                    &&& #[trigger] legal_moves_at(old(self).game.board.fen@).contains(m)
                    &&& uci_text_of(old(self).game.board.fen@, m) is None || position_after(
                        old(self).game.board.fen@,
                        m,
                    ) is None
                },
            r matches Some(line) ==> exists|m: ChessMove|
                {
                    &&& #[trigger] legal_moves_at(old(self).game.board.fen@).contains(m)
                    &&& uci_text_of(old(self).game.board.fen@, m) matches Some(t) && line@
                        == "bestmove "@ + t
                    &&& position_after(old(self).game.board.fen@, m) == Some(
                        final(self).game.board@,
                    )
                    &&& final(self).game.game_history@ == inc_spec(
                        old(self).game.game_history@,
                        old(self).game.board.key,
                    )
                },
    {
        match self.game.find_move() {
            Some(m) => {
                assert(legal_moves_at(old(self).game.board.fen@).contains(m));
                if !m.is_wf() {
                    return None;
                }
                let text = display_uci_move(self.game.board.fen.as_str(), &m);
                let next = self.game.board.play(&m);
                match (text, next) {
                    (Some(result_uci), Some(b)) => {
                        self.game.game_history.inc(&self.game.board);
                        self.game.board = b;
                        let mut result = String::from_str("bestmove ");
                        result.append(result_uci.as_str());
                        Some(result)
                    },
                    _ => None,
                }
            },
            None => None,
        }
    }

    /// UCI `go` command: read the limits, set the time for the move and search. Returns
    /// the answer to send, if a move was found.
    pub fn go(&mut self, args: &Vec<String>, from: usize) -> (r: Option<String>)
        requires
            old(self).wf(),
        ensures
            go_post(*old(self), texts(args@), from as nat, line_of(r), *final(self)),
    {
        self.read_limits(args, from);
        self.tm.set_game_time(&mut self.game);
        self.get_move_from_engine()
    }

    /// Answer one line of input.
    pub fn respond(&mut self, input: &str) -> (r: Reply)
        requires
            old(self).wf(),
        ensures
            final(self).wf(),
            r.quit == (words_spec(input@).len() > 0 && words_spec(input@)[0] == "quit"@),
            words_spec(input@).len() > 0 && words_spec(input@)[0] == "uci"@ ==> texts(r.lines@)
                == seq![
                "id name C4-E5 Chess"@,
                "id author Eugen Lindorfer"@,
                "option"@,
                "uciok"@,
            ] && *final(self) == *old(self),
            words_spec(input@).len() > 0 && words_spec(input@)[0] == "isready"@ ==> texts(
                r.lines@,
            ) == seq!["readyok"@] && *final(self) == *old(self),
            words_spec(input@).len() > 0 && words_spec(input@)[0] == "position"@ ==> r.lines@.len()
                == 0 && final(self).setup() == position_spec(
                old(self).setup(),
                words_spec(input@),
                1,
            ),
            words_spec(input@).len() > 0 && words_spec(input@)[0] == "go"@ ==> r.lines@.len() <= 1
                && go_post(
                *old(self),
                words_spec(input@),
                1,
                if r.lines@.len() == 0 {
                    None
                } else {
                    Some(r.lines@[0]@)
                },
                *final(self),
            ),
            words_spec(input@).len() == 0 || (words_spec(input@)[0] != "uci"@ && words_spec(
                input@,
            )[0] != "isready"@ && words_spec(input@)[0] != "position"@ && words_spec(input@)[0]
                != "go"@) ==> r.lines@.len() == 0 && *final(self) == *old(self),
    {
        let words = split_whitespace(input);
        let mut lines: Vec<String> = Vec::new();
        if words.len() == 0 {
            return Reply { lines, quit: false };
        }
        assert(texts(words@)[0] == words@[0]@);
        let command = &words[0];
        proof {
            reveal_strlit("uci");
            reveal_strlit("isready");
            reveal_strlit("position");
            reveal_strlit("go");
            reveal_strlit("quit");
        }
        if is_word(command, "uci") {
            lines.push(String::from_str("id name C4-E5 Chess"));
            lines.push(String::from_str("id author Eugen Lindorfer"));
            lines.push(String::from_str("option"));
            lines.push(String::from_str("uciok"));
            assert(texts(lines@) =~= seq![
                "id name C4-E5 Chess"@,
                "id author Eugen Lindorfer"@,
                "option"@,
                "uciok"@,
            ]);
        } else if is_word(command, "isready") {
            lines.push(String::from_str("readyok"));
            assert(texts(lines@) =~= seq!["readyok"@]);
        } else if is_word(command, "position") {
            self.position(&words, 1);
        } else if is_word(command, "go") {
            match self.go(&words, 1) {
                Some(line) => {
                    lines.push(line);
                },
                None => {},
            }
        } else if is_word(command, "quit") {
            return Reply { lines, quit: true };
        }
        Reply { lines, quit: false }
    }
}

} // verus!
