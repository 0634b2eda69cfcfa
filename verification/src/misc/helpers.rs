use super::text::{is_whitespace, is_whitespace_spec, texts};
use crate::engine::position::{parse_san_move, position_of_fen, san_text_of, Position};
use vstd::prelude::*;
use vstd::string::*;

verus! {

/// The characters of a text.
pub fn to_chars(s: &str) -> (r: Vec<char>)
    ensures
        r@ == s@,
{
    let len = s.unicode_len();
    let mut r: Vec<char> = Vec::new();
    let mut i: usize = 0;
    while i < len
        invariant
            len == s@.len(),
            i <= len,
            r@ == s@.take(i as int),
        decreases len - i,
    {
        r.push(s.get_char(i));
        assert(r@ =~= s@.take(i + 1));
        i += 1;
    }
    assert(s@.take(len as int) =~= s@);
    r
}

/// The first place from `from` on and before `to` at which `c` stands in `s`, or `to`
/// where it stands at none.
pub open spec fn first_char(s: Seq<char>, c: char, from: int, to: int) -> int
    decreases to - from,
{
    if from >= to || from < 0 || to > s.len() {
        to
    } else if s[from] == c {
        from
    } else {
        first_char(s, c, from + 1, to)
    }
}

/// Whether `pat` stands in `s` at the place `i` and ends at or before `to`.
pub open spec fn starts_at(s: Seq<char>, pat: Seq<char>, i: int, to: int) -> bool {
    0 <= i && i + pat.len() <= to <= s.len() && s.subrange(i, i + pat.len()) == pat
}

/// The first place from `from` on at which `pat` stands in `s` and ends at or before `to`,
/// or `to` where it stands at none.
pub open spec fn first_sub(s: Seq<char>, pat: Seq<char>, from: int, to: int) -> int
    decreases to - from,
{
    if from >= to || from < 0 || to > s.len() {
        to
    } else if starts_at(s, pat, from, to) {
        from
    } else {
        first_sub(s, pat, from + 1, to)
    }
}

/// The first place from `from` on and before `to` at which no white space stands, or `to`.
pub open spec fn skip_blank(s: Seq<char>, from: int, to: int) -> int
    decreases to - from,
{
    if from >= to || from < 0 || to > s.len() {
        to
    } else if !is_whitespace_spec(s[from]) {
        from
    } else {
        skip_blank(s, from + 1, to)
    }
}

/// The place behind the last character before `to` and from `from` on that is no white
/// space, or `from`.
pub open spec fn skip_blank_back(s: Seq<char>, from: int, to: int) -> int
    decreases to - from,
{
    if from >= to || from < 0 || to > s.len() {
        from
    } else if !is_whitespace_spec(s[to - 1]) {
        to
    } else {
        skip_blank_back(s, from, to - 1)
    }
}

/// The text from `from` to `to` without the white space at its ends.
pub open spec fn trimmed(s: Seq<char>, from: int, to: int) -> Seq<char> {
    let a = skip_blank(s, from, to);
    s.subrange(a, skip_blank_back(s, a, to))
}

/// The moves that the text from `from` to `to` names at a position, one between each two
/// blanks, each trimmed and read in standard algebraic notation: `None` where one of them
/// is no move.
pub open spec fn san_list(fen: Seq<char>, s: Seq<char>, from: int, to: int) -> Option<
    Seq<Seq<char>>,
>
    decreases to - from,
{
    if from > to || from < 0 || to > s.len() {
        None
    } else {
        let blank = first_char(s, ' ', from, to);
        match san_text_of(fen, trimmed(s, from, blank)) {
            None => None,
            Some(t) => if blank >= to || blank < from {
                Some(seq![t])
            } else {
                match san_list(fen, s, blank + 1, to) {
                    Some(rest) => Some(seq![t] + rest),
                    None => None,
                }
            },
        }
    }
}

/// What an EPD record says, see [`parse_epd`].
pub open spec fn parse_epd_spec(epd: Seq<char>) -> Option<(Seq<char>, Seq<Seq<char>>, bool)> {
    let end = first_char(epd, ';', 0, epd.len() as int);
    let find_best_move = first_sub(epd, "bm"@, 0, end) < end;
    let delimiter = if find_best_move {
        " bm "@
    } else {
        " am "@
    };
    let first = first_sub(epd, delimiter, 0, end);
    let fen = epd.subrange(0, first) + " 0 1"@;
    if first >= end || position_of_fen(fen) is None {
        None
    } else {
        match san_list(
            fen,
            epd,
            first + delimiter.len(),
            first_sub(epd, delimiter, first + delimiter.len(), end),
        ) {
            Some(moves) => Some((fen, moves, find_best_move)),
            None => None,
        }
    }
}

/// Find a character.
fn find_char(v: &Vec<char>, c: char, from: usize, to: usize) -> (r: usize)
    requires
        from <= to <= v@.len(),
    ensures
        r == first_char(v@, c, from as int, to as int),
        from <= r <= to,
{
    let mut i = from;
    while i < to
        invariant
            from <= i <= to <= v@.len(),
            first_char(v@, c, from as int, to as int) == first_char(v@, c, i as int, to as int),
        decreases to - i,
    {
        if v[i] == c {
            return i;
        }
        i += 1;
    }
    to
}

/// Whether `pat` stands in `v` at the place `i` and ends at or before `to`.
fn matches_at(v: &Vec<char>, pat: &Vec<char>, i: usize, to: usize) -> (r: bool)
    requires
        i <= to <= v@.len(),
    ensures
        r == starts_at(v@, pat@, i as int, to as int),
{
    if pat.len() > to - i {
        return false;
    }
    let mut k: usize = 0;
    while k < pat.len()
        invariant
            i + pat@.len() <= to <= v@.len(),
            k <= pat@.len(),
            v@.subrange(i as int, i + k) == pat@.take(k as int),
        decreases pat@.len() - k,
    {
        if v[i + k] != pat[k] {
            assert(v@.subrange(i as int, i + pat@.len())[k as int] != pat@[k as int]);
            return false;
        }
        assert(v@.subrange(i as int, i + k + 1) =~= pat@.take(k + 1));
        k += 1;
    }
    assert(pat@.take(pat@.len() as int) =~= pat@);
    true
}

/// Find a text in a text.
fn find_sub(v: &Vec<char>, pat: &Vec<char>, from: usize, to: usize) -> (r: usize)
    requires
        from <= to <= v@.len(),
    ensures
        r == first_sub(v@, pat@, from as int, to as int),
        from <= r <= to,
        r < to ==> r + pat@.len() <= to,
{
    let mut i = from;
    while i < to
        invariant
            from <= i <= to <= v@.len(),
            first_sub(v@, pat@, from as int, to as int) == first_sub(
                v@,
                pat@,
                i as int,
                to as int,
            ),
        decreases to - i,
    {
        if matches_at(v, pat, i, to) {
            return i;
        }
        i += 1;
    }
    to
}

/// The text from `from` to `to` without the white space at its ends.
fn trim(s: &str, v: &Vec<char>, from: usize, to: usize) -> (r: String)
    requires
        v@ == s@,
        from <= to <= v@.len(),
    ensures
        r@ == trimmed(v@, from as int, to as int),
{
    let mut a = from;
    while a < to && is_whitespace(v[a])
        invariant
            from <= a <= to <= v@.len(),
            skip_blank(v@, from as int, to as int) == skip_blank(v@, a as int, to as int),
        decreases to - a,
    {
        a += 1;
    }
    let mut b = to;
    while a < b && is_whitespace(v[b - 1])
        invariant
            a <= b <= to <= v@.len(),
            skip_blank_back(v@, a as int, to as int) == skip_blank_back(v@, a as int, b as int),
        decreases b - a,
    {
        b -= 1;
    }
    String::from_str(s.substring_char(a, b))
}

/// Parse EPD (Extended Position Description): a position without its two counters, `bm`
/// or `am`, and the best moves or the moves to avoid in standard algebraic notation, up to
/// the first semicolon. Returns the position with counters, the moves, and whether they
/// are best moves; `None` where the record cannot be read.
/// EPD parsing is not comprehensive, but it is enough to be used in some tests.
pub fn parse_epd(epd: String) -> (r: Option<(String, Vec<String>, bool)>)
    ensures
        r is Some <==> parse_epd_spec(epd@) is Some,
        r matches Some((fen, moves, best)) ==> parse_epd_spec(epd@) == Some(
            (fen@, texts(moves@), best),
        ),
{
    let text = epd.as_str();
    let v = to_chars(text);
    // remove everything from the string after the first semicolon
    let end = find_char(&v, ';', 0, v.len());
    let bm = to_chars("bm");
    let find_best_move = find_sub(&v, &bm, 0, end) < end;
    let delimiter = if find_best_move {
        to_chars(" bm ")
    } else {
        to_chars(" am ")
    };
    proof {
        reveal_strlit(" bm ");
        reveal_strlit(" am ");
    }
    let first = find_sub(&v, &delimiter, 0, end);
    if first >= end {
        return None;
    }
    let mut fen = String::from_str(text.substring_char(0, first));
    fen.append(" 0 1");
    if Position::from_fen(fen.as_str()).is_err() {
        return None;
    }
    let from = first + 4;
    let to = find_sub(&v, &delimiter, from, end);
    let ghost target = san_list(fen@, v@, from as int, to as int);
    let mut valid_best_moves: Vec<String> = Vec::new();
    let mut i = from;
    assert(texts(valid_best_moves@) =~= Seq::empty());
    assert(fen@ =~= epd@.subrange(0, first as int) + " 0 1"@);
    loop
        invariant
            v@ == text@,
            from <= i <= to <= v@.len(),
            parse_epd_spec(epd@) == (match target {
                Some(moves) => Some((fen@, moves, find_best_move)),
                None => None,
            }),
            target == (match san_list(fen@, v@, i as int, to as int) {
                Some(rest) => Some(texts(valid_best_moves@) + rest),
                None => None,
            }),
        decreases to - i,
    {
        let blank = find_char(&v, ' ', i, to);
        let best_move = trim(text, &v, i, blank);
        match parse_san_move(fen.as_str(), best_move.as_str()) {
            None => {
                return None;
            },
            Some(mv) => {
                let ghost before = texts(valid_best_moves@);
                valid_best_moves.push(mv);
                assert(texts(valid_best_moves@) =~= before + seq![mv@]);
                if blank >= to {
                    assert(target == Some(texts(valid_best_moves@)));
                    return Some((fen, valid_best_moves, find_best_move));
                }
                proof {
                    let rest = san_list(fen@, v@, blank + 1, to as int);
                    if rest is Some {
                        assert(before + (seq![mv@] + rest.unwrap()) =~= texts(valid_best_moves@)
                            + rest.unwrap());
                    }
                }
                i = blank + 1;
            },
        }
    }
}

} // verus!
