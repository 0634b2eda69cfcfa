use crate::engine::position::Position;
use crate::misc::types::BoardHistory;
use hashbrown::HashMap;
use vstd::prelude::*;

verus! {

/// A counter how often a position has already occured. The map is one of hashbrown, which
/// Verus does not look into: what it holds is named by [`history_entries`].
#[verifier::external_body]
pub struct History {
    h: HashMap<u64, BoardHistory>,
}

/// What a history holds: the number stored under each position hash.
pub uninterp spec fn history_entries(h: History) -> Map<u64, BoardHistory>;

/// The history with nothing in it.
pub open spec fn no_counts() -> Map<u64, BoardHistory> {
    Map::empty()
}

/// The count under `key`: a key that was never stored counts as 0.
pub open spec fn count_spec(t: Map<u64, BoardHistory>, key: u64) -> BoardHistory {
    if t.contains_key(key) {
        t[key]
    } else {
        0
    }
}

/// The counts after one more visit of `key`. A count stays at its greatest value.
pub open spec fn inc_spec(c: Map<u64, BoardHistory>, key: u64) -> Map<u64, BoardHistory> {
    if c[key] < BoardHistory::MAX {
        c.insert(key, (c[key] + 1) as BoardHistory)
    } else {
        c
    }
}

/// The counts after one visit of `key` was taken back. A count stays at 0.
pub open spec fn dec_spec(c: Map<u64, BoardHistory>, key: u64) -> Map<u64, BoardHistory> {
    if c[key] > 0 {
        c.insert(key, (c[key] - 1) as BoardHistory)
    } else {
        c
    }
}

/// Calls `HashMap::get` of hashbrown, which returns the value stored under the key, if any.
#[verifier::external_body]
fn lookup(s: &History, key: u64) -> (r: Option<BoardHistory>)
    ensures
        r == (if history_entries(*s).contains_key(key) {
            Some(history_entries(*s)[key])
        } else {
            None
        }),
{
    s.h.get(&key).copied()
}

/// Calls `HashMap::insert` of hashbrown, which stores the value under the key and replaces
/// what was stored there.
#[verifier::external_body]
fn insert(s: &mut History, key: u64, count: BoardHistory)
    ensures
        history_entries(*final(s)) == history_entries(*old(s)).insert(key, count),
{
    s.h.insert(key, count);
}

impl View for History {
    type V = Map<u64, BoardHistory>;

    /// The count of every position hash.
    open spec fn view(&self) -> Map<u64, BoardHistory> {
        Map::total(|key: u64| count_spec(history_entries(*self), key))
    }
}

impl History {
    /// Constructor: calls `HashMap::new` of hashbrown, which makes an empty map.
    #[verifier::external_body]
    pub fn new() -> (r: Self)
        ensures
            history_entries(r) == no_counts(),
    {
        Self { h: HashMap::new() }
    }

    /// A copy of the history: calls `HashMap::clone` of hashbrown, which copies every entry.
    #[verifier::external_body]
    pub(crate) fn snapshot(&self) -> (r: Self)
        ensures
            history_entries(r) == history_entries(*self),
            r@ == self@,
    {
        Self { h: self.h.clone() }
    }

    /// Increment counter for given position.
    pub fn inc(&mut self, b: &Position)
        ensures
            final(self)@ == inc_spec(old(self)@, b.key),
    {
        let key = b.key;
        match lookup(self, key) {
            Some(val) => {
                if val < BoardHistory::MAX {
                    insert(self, key, val + 1);
                }
            },
            None => {
                insert(self, key, 1);
            },
        }
        assert(final(self)@ =~= inc_spec(old(self)@, b.key));
    }

    /// Decrement counter for given position.
    pub fn dec(&mut self, b: &Position)
        ensures
            final(self)@ == dec_spec(old(self)@, b.key),
    {
        let key = b.key;
        match lookup(self, key) {
            Some(val) => {
                if val > 0 {
                    insert(self, key, val - 1);
                }
            },
            None => {
                insert(self, key, 0);
            },
        }
        assert(final(self)@ =~= dec_spec(old(self)@, b.key));
    }

    /// Get counter for the given position.
    pub fn get(&self, b: &Position) -> (r: BoardHistory)
        ensures
            r == self@[b.key],
    {
        match lookup(self, b.key) {
            Some(val) => val,
            None => 0,
        }
    }
}

impl Default for History {
    fn default() -> (r: Self)
        ensures
            history_entries(r) == no_counts(),
    {
        Self::new()
    }
}

/// A position that was never visited counts as 0.
pub proof fn law_unvisited_is_zero(h: History, key: u64)
    requires
        history_entries(h) == no_counts(),
    ensures
        h@[key] == 0,
{
}

/// Counting round trip: two visits and one taken back leave one visit more than before,
/// as long as the count has room for two more.
pub proof fn law_inc_inc_dec(c: Map<u64, BoardHistory>, key: u64)
    requires
        c[key] + 2 <= BoardHistory::MAX,
    ensures
        dec_spec(inc_spec(inc_spec(c, key), key), key)[key] == c[key] + 1,
{
}

/// Push and pop: a visit that was counted and then taken back leaves every count as it was.
pub proof fn law_inc_dec_restores(c: Map<u64, BoardHistory>, key: u64)
    requires
        c[key] < BoardHistory::MAX,
        c.dom() == Set::<u64>::full(),
    ensures
        dec_spec(inc_spec(c, key), key) == c,
{
    assert(dec_spec(inc_spec(c, key), key) =~= c);
}

} // verus!
