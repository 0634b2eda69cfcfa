use vstd::prelude::*;
use vstd::string::*;

verus! {

/// White space as Unicode has it.
pub open spec fn is_whitespace_spec(c: char) -> bool {
    let n = c as u32;
    ||| 0x09 <= n <= 0x0d
    ||| n == 0x20
    ||| n == 0x85
    ||| n == 0xa0
    ||| n == 0x1680
    ||| 0x2000 <= n <= 0x200a
    ||| n == 0x2028
    ||| n == 0x2029
    ||| n == 0x202f
    ||| n == 0x205f
    ||| n == 0x3000
}

/// Whether a character is white space.
pub fn is_whitespace(c: char) -> (r: bool)
    ensures
        r == is_whitespace_spec(c),
{
    let n = c as u32;
    (0x09 <= n && n <= 0x0d) || n == 0x20 || n == 0x85 || n == 0xa0 || n == 0x1680 || (0x2000 <= n
        && n <= 0x200a) || n == 0x2028 || n == 0x2029 || n == 0x202f || n == 0x205f || n
        == 0x3000
}

/// The words of a text: the longest runs of characters that are not white space, in their
/// order.
pub open spec fn words_spec(s: Seq<char>) -> Seq<Seq<char>>
    decreases s.len(),
{
    if s.len() == 0 {
        Seq::empty()
    } else {
        let front = words_spec(s.drop_last());
        if is_whitespace_spec(s.last()) {
            front
        } else if s.len() >= 2 && !is_whitespace_spec(s[s.len() - 2]) && front.len() > 0 {
            front.drop_last().push(front.last().push(s.last()))
        } else {
            front.push(seq![s.last()])
        }
    }
}

/// The texts of a list of strings.
pub open spec fn texts(v: Seq<String>) -> Seq<Seq<char>> {
    Seq::new(v.len(), |i: int| v[i]@)
}

/// Split a text into its words.
pub fn split_whitespace(s: &str) -> (r: Vec<String>)
    ensures
        texts(r@) == words_spec(s@),
{
    let len = s.unicode_len();
    let mut result: Vec<String> = Vec::new();
    let mut start: usize = 0;
    let mut inside = false;
    let mut i: usize = 0;
    assert(s@.take(0) =~= Seq::empty());
    assert(texts(result@) =~= Seq::empty());
    while i < len
        invariant
            len == s@.len(),
            i <= len,
            inside ==> start < i && !is_whitespace_spec(s@[i - 1]) && words_spec(
                s@.take(i as int),
            ) == texts(result@).push(s@.subrange(start as int, i as int)),
            !inside ==> (i > 0 ==> is_whitespace_spec(s@[i - 1])) && words_spec(s@.take(i as int))
                == texts(result@),
        decreases len - i,
    {
        let c = s.get_char(i);
        proof {
            let next = s@.take(i + 1);
            assert(next.drop_last() =~= s@.take(i as int));
            assert(next.last() == c);
            if i > 0 {
                assert(next[next.len() - 2] == s@[i - 1]);
            }
        }
        if is_whitespace(c) {
            if inside {
                let word = s.substring_char(start, i);
                let ghost before = texts(result@);
                result.push(String::from_str(word));
                assert(texts(result@) =~= before.push(s@.subrange(start as int, i as int)));
                inside = false;
            }
        } else {
            if !inside {
                start = i;
                inside = true;
                assert(s@.subrange(i as int, i + 1) =~= seq![c]);
            } else {
                let ghost front = words_spec(s@.take(i as int));
                assert(front.drop_last() =~= texts(result@));
                assert(front.last().push(c) =~= s@.subrange(start as int, i + 1));
            }
        }
        i += 1;
    }
    assert(s@.take(len as int) =~= s@);
    if inside {
        let word = s.substring_char(start, len);
        let ghost before = texts(result@);
        result.push(String::from_str(word));
        assert(texts(result@) =~= before.push(s@.subrange(start as int, len as int)));
    }
    result
}

/// The value of a digit, or `None` for any other character.
pub open spec fn digit_spec(c: char) -> Option<int> {
    if '0' <= c <= '9' {
        Some(c as u32 - '0' as u32)
    } else {
        None
    }
}

/// The number that a run of digits stands for, or `None` where a character is no digit.
/// The empty run stands for 0.
pub open spec fn digits_spec(s: Seq<char>) -> Option<int>
    decreases s.len(),
{
    if s.len() == 0 {
        Some(0)
    } else {
        match (digits_spec(s.drop_last()), digit_spec(s.last())) {
            (Some(front), Some(d)) => Some(10 * front + d),
            _ => None,
        }
    }
}

/// The number that a text stands for: digits, at least one, after a sign where `signed`
/// allows a minus or a plus, or after a plus else.
pub open spec fn number_spec(s: Seq<char>, signed: bool) -> Option<int> {
    if s.len() == 0 {
        None
    } else if s[0] == '+' || (signed && s[0] == '-') {
        if s.len() == 1 {
            None
        } else {
            match digits_spec(s.subrange(1, s.len() as int)) {
                Some(v) => Some(
                    if s[0] == '-' {
                        -v
                    } else {
                        v
                    },
                ),
                None => None,
            }
        }
    } else {
        digits_spec(s)
    }
}

/// A number that `u64` holds, read as `u64::from_str` reads it.
pub open spec fn u64_spec(s: Seq<char>) -> Option<u64> {
    match number_spec(s, false) {
        Some(v) => if v <= u64::MAX {
            Some(v as u64)
        } else {
            None
        },
        None => None,
    }
}

/// A number that `i16` holds, read as `i16::from_str` reads it.
pub open spec fn i16_spec(s: Seq<char>) -> Option<i16> {
    match number_spec(s, true) {
        Some(v) => if i16::MIN <= v <= i16::MAX {
            Some(v as i16)
        } else {
            None
        },
        None => None,
    }
}

/// Read the digits of `s` from the place `from` on, as far as the number stays within
/// `limit`.
fn parse_digits(s: &str, from: usize, limit: u64) -> (r: Option<u64>)
    requires
        from <= s@.len(),
    ensures
        r == (match digits_spec(s@.subrange(from as int, s@.len() as int)) {
            Some(v) => if v <= limit {
                Some(v as u64)
            } else {
                None
            },
            None => None,
        }),
        r matches Some(v) ==> v <= limit,
{
    let len = s.unicode_len();
    let ghost tail = s@.subrange(from as int, len as int);
    let mut value: u64 = 0;
    let mut i: usize = from;
    assert(tail.take(0) =~= Seq::empty());
    while i < len
        invariant
            len == s@.len(),
            from <= i <= len,
            tail == s@.subrange(from as int, len as int),
            digits_spec(tail.take(i - from)) == Some(value as int),
            value <= limit,
        decreases len - i,
    {
        let c = s.get_char(i);
        proof {
            let next = tail.take(i - from + 1);
            assert(next.drop_last() =~= tail.take(i - from));
            assert(next.last() == c);
            lemma_digits_prefix(tail, i - from + 1);
        }
        if c < '0' || c > '9' {
            return None;
        }
        let d = (c as u32 - '0' as u32) as u64;
        if value > limit / 10 || (value == limit / 10 && d > limit % 10) {
            return None;
        }
        value = value * 10 + d;
        i += 1;
    }
    assert(tail.take(len - from) =~= tail);
    Some(value)
}

/// Where a run of digits stands for a number, so does each of its beginnings, and for one
/// that is no greater.
pub proof fn lemma_digits_prefix(s: Seq<char>, n: int)
    requires
        0 <= n <= s.len(),
    ensures
        digits_spec(s.take(n)) is None ==> digits_spec(s) is None,
        digits_spec(s) matches Some(v) ==> 0 <= digits_spec(s.take(n)).unwrap() <= v,
    decreases s.len() - n,
{
    if n == s.len() {
        assert(s.take(n) =~= s);
        lemma_digits_nonnegative(s);
    } else {
        lemma_digits_prefix(s, n + 1);
        assert(s.take(n + 1).drop_last() =~= s.take(n));
        lemma_digits_nonnegative(s.take(n));
    }
}

/// A run of digits stands for no negative number.
pub proof fn lemma_digits_nonnegative(s: Seq<char>)
    ensures
        digits_spec(s) matches Some(v) ==> v >= 0,
    decreases s.len(),
{
    if s.len() > 0 {
        lemma_digits_nonnegative(s.drop_last());
    }
}

/// Read a number that `u64` holds.
pub fn parse_u64(s: &str) -> (r: Option<u64>)
    ensures
        r == u64_spec(s@),
{
    let len = s.unicode_len();
    if len == 0 {
        return None;
    }
    if s.get_char(0) == '+' {
        if len == 1 {
            return None;
        }
        parse_digits(s, 1, u64::MAX)
    } else {
        assert(s@.subrange(0, len as int) =~= s@);
        parse_digits(s, 0, u64::MAX)
    }
}

/// Read a number that `i16` holds.
pub fn parse_i16(s: &str) -> (r: Option<i16>)
    ensures
        r == i16_spec(s@),
{
    let len = s.unicode_len();
    if len == 0 {
        return None;
    }
    let first = s.get_char(0);
    proof {
        lemma_digits_nonnegative(s@);
        lemma_digits_nonnegative(s@.subrange(1, len as int));
    }
    if first == '-' {
        if len == 1 {
            return None;
        }
        let magnitude = parse_digits(s, 1, 32768);
        match magnitude {
            Some(v) => {
                assert(v <= 32768);
                Some((0 - v as i32) as i16)
            },
            None => None,
        }
    } else if first == '+' {
        if len == 1 {
            return None;
        }
        let magnitude = parse_digits(s, 1, 32767);
        match magnitude {
            Some(v) => {
                assert(v <= 32767);
                Some(v as i16)
            },
            None => None,
        }
    } else {
        assert(s@.subrange(0, len as int) =~= s@);
        let magnitude = parse_digits(s, 0, 32767);
        match magnitude {
            Some(v) => {
                assert(v <= 32767);
                Some(v as i16)
            },
            None => None,
        }
    }
}

} // verus!
