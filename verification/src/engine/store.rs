use crate::engine::position::Position;
use crate::misc::types::{ChessMove, Depth, MoveScore};
use hashbrown::HashMap;
use vstd::prelude::*;

verus! {

/// An entry of the transposition table.
#[derive(Clone, Copy, Debug, PartialEq, Eq, Structural)]
pub struct Item {
    pub depth: Depth,
    pub value: MoveScore,
    pub chessmove: ChessMove,
}

/// What a lookup hands out: the stored move, the stored score, and whether the entry was
/// searched at least as deep as asked for.
pub type Probe = Option<(ChessMove, MoveScore, bool)>;

/// A hashmap for use in the transposition table. The map is one of hashbrown, which Verus
/// does not look into: what it holds is named by [`store_entries`].
#[verifier::external_body]
pub struct Store {
    h: HashMap<u64, Item>,
}

/// What a transposition table holds: the entry stored under each position hash.
pub uninterp spec fn store_entries(s: Store) -> Map<u64, Item>;

/// The table with nothing in it.
pub open spec fn no_entries() -> Map<u64, Item> {
    Map::empty()
}

/// The table after an entry was offered to it: the entry is taken unless a deeper one is
/// stored under the same key.
pub open spec fn put_spec(t: Map<u64, Item>, key: u64, item: Item) -> Map<u64, Item> {
    if t.contains_key(key) && t[key].depth > item.depth {
        t
    } else {
        t.insert(key, item)
    }
}

/// What a lookup at `depth` finds under `key`.
pub open spec fn get_spec(t: Map<u64, Item>, depth: Depth, key: u64) -> Probe {
    if t.contains_key(key) {
        Some((t[key].chessmove, t[key].value, t[key].depth >= depth))
    } else {
        None
    }
}

/// Calls `HashMap::get` of hashbrown, which returns the value stored under the key, if any.
#[verifier::external_body]
fn lookup(s: &Store, key: u64) -> (r: Option<Item>)
    ensures
        r == (if store_entries(*s).contains_key(key) {
            Some(store_entries(*s)[key])
        } else {
            None
        }),
{
    s.h.get(&key).copied()
}

/// Calls `HashMap::insert` of hashbrown, which stores the value under the key and replaces
/// what was stored there.
#[verifier::external_body]
fn insert(s: &mut Store, key: u64, item: Item)
    ensures
        store_entries(*final(s)) == store_entries(*old(s)).insert(key, item),
{
    s.h.insert(key, item);
}

impl View for Store {
    type V = Map<u64, Item>;

    open spec fn view(&self) -> Map<u64, Item> {
        store_entries(*self)
    }
}

impl Store {
    /// Constructor: calls `HashMap::new` of hashbrown, which makes an empty map.
    #[verifier::external_body]
    pub fn new() -> (r: Self)
        ensures
            r@ == no_entries(),
    {
        Self { h: HashMap::new() }
    }

    /// A copy of the table: calls `HashMap::clone` of hashbrown, which copies every entry.
    #[verifier::external_body]
    pub(crate) fn snapshot(&self) -> (r: Self)
        ensures
            r@ == self@,
    {
        Self { h: self.h.clone() }
    }

    /// Put a position, its score and depth and the best move into the transposition table.
    /// An entry that was searched deeper than `depth` is kept as it is.
    pub fn put(&mut self, depth: Depth, value: MoveScore, b: &Position, chessmove: &ChessMove)
        ensures
            final(self)@ == put_spec(
                old(self)@,
                b.key,
                (Item { depth, value, chessmove: *chessmove }),
            ),
    {
        let item = Item { depth, value, chessmove: *chessmove };
        match lookup(self, b.key) {
            Some(stored) => {
                if stored.depth <= depth {
                    insert(self, b.key, item);
                }
            },
            None => {
                insert(self, b.key, item);
            },
        }
    }

    /// Get a move and its score for the given position. The flag says whether the entry was
    /// searched at least as deep as `depth`, so that its score can stand for a search.
    pub fn get(&self, depth: Depth, b: &Position) -> (r: Probe)
        ensures
            r == get_spec(self@, depth, b.key),
    {
        match lookup(self, b.key) {
            Some(item) => {
                if item.depth < depth {
                    Some((item.chessmove, item.value, false))
                } else {
                    Some((item.chessmove, item.value, true))
                }
            },
            None => None,
        }
    }
}

impl Default for Store {
    fn default() -> (r: Self)
        ensures
            r@ == no_entries(),
    {
        Self::new()
    }
}

/// Deeper knowledge is never given up for shallower: whatever is offered to a table, the
/// entry under each key is afterwards at least as deep as before.
pub proof fn law_put_keeps_deeper(t: Map<u64, Item>, key: u64, item: Item, k: u64)
    requires
        t.contains_key(k),
    ensures
        put_spec(t, key, item).contains_key(k),
        put_spec(t, key, item)[k].depth >= t[k].depth,
        k != key ==> put_spec(t, key, item)[k] == t[k],
{
}

/// Transposition dominance: an entry offered at a depth and then another at the same or a
/// greater depth, under a key that held nothing deeper, leave the second one, and it is
/// fresh for every lookup up to its depth.
pub proof fn law_deeper_put_wins(t: Map<u64, Item>, key: u64, first: Item, second: Item, d: Depth)
    requires
        first.depth <= second.depth,
        t.contains_key(key) ==> t[key].depth <= second.depth,
        d <= second.depth,
    ensures
        get_spec(put_spec(put_spec(t, key, first), key, second), d, key) == Some(
            (second.chessmove, second.value, true),
        ),
{
}

/// Transposition dominance: an entry that was taken is handed out as stale to a lookup that
/// asks for more depth, with its move and score.
pub proof fn law_shallow_entry_is_stale(t: Map<u64, Item>, key: u64, item: Item, d: Depth)
    requires
        t.contains_key(key) ==> t[key].depth <= item.depth,
        d > item.depth,
    ensures
        get_spec(put_spec(t, key, item), d, key) == Some((item.chessmove, item.value, false)),
{
}

} // verus!
