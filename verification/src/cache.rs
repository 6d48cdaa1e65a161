//! The connection cache: at most one live connection per peer address.
//!
//! The entries are kept in a sharded concurrent map. The map is reached
//! through a handful of small functions whose contracts are taken on trust
//! from the map's documentation; everything built on them is proved.

use dashmap::DashMap;
use vstd::prelude::*;

use crate::error::TunnelError;
use crate::identity::PublicKey;

verus! {

/// A handle on one transport connection. The transport keeps the
/// connection itself; the tunnel passes the handle around.
#[derive(Clone, Copy, Debug, PartialEq, Eq, Structural)]
pub struct Connection {
    pub id: u64,
}

/// `dashmap::DashMap`, opaque to the verifier.
#[verifier::external_type_specification]
#[verifier::external_body]
#[verifier::reject_recursive_types(K)]
#[verifier::reject_recursive_types(V)]
#[verifier::reject_recursive_types(S)]
pub struct ExDashMap<K, V, S>(DashMap<K, V, S>);

/// The key-value pairs that a map holds, each key by its bytes.
pub uninterp spec fn entries(map: &DashMap<[u8; 32], u64>) -> Map<Seq<u8>, u64>;

/// The contents of a cache that holds nothing.
pub open spec fn no_entries() -> Map<Seq<u8>, u64> {
    Map::empty()
}

/// `DashMap::new`: a map with no entries.
#[verifier::external_body]
fn map_new() -> (map: DashMap<[u8; 32], u64>)
    ensures
        entries(&map) == no_entries(),
{
    DashMap::new()
}

/// `DashMap::get`: the value stored under `key`, if there is one. The map
/// is left as it was.
#[verifier::external_body]
fn map_get(map: &DashMap<[u8; 32], u64>, key: &[u8; 32]) -> (found: Option<u64>)
    ensures
        found == (if entries(map).contains_key(key@) {
            Some(entries(map)[key@])
        } else {
            None
        }),
{
    match map.get(key) {
        Some(entry) => Some(*entry),
        None => None,
    }
}

/// `DashMap::insert`: stores `value` under `key` and returns the value
/// that was stored there before, if there was one.
#[verifier::external_body]
fn map_insert(map: &mut DashMap<[u8; 32], u64>, key: [u8; 32], value: u64) -> (previous: Option<
    u64,
>)
    ensures
        entries(final(map)) == entries(old(map)).insert(key@, value),
        previous == (if entries(old(map)).contains_key(key@) {
            Some(entries(old(map))[key@])
        } else {
            None
        }),
{
    map.insert(key, value)
}

/// `DashMap::remove`: takes the entry under `key` out of the map and
/// returns its value, if there was one.
#[verifier::external_body]
fn map_remove(map: &mut DashMap<[u8; 32], u64>, key: &[u8; 32]) -> (removed: Option<u64>)
    ensures
        entries(final(map)) == entries(old(map)).remove(key@),
        removed == (if entries(old(map)).contains_key(key@) {
            Some(entries(old(map))[key@])
        } else {
            None
        }),
{
    match map.remove(key) {
        Some((_, value)) => Some(value),
        None => None,
    }
}

/// `DashMap::clear`: removes every entry.
#[verifier::external_body]
fn map_clear(map: &mut DashMap<[u8; 32], u64>)
    ensures
        entries(final(map)) == no_entries(),
{
    map.clear();
}

/// `DashMap::iter`: walks the map and yields every entry once, in an
/// order that is not specified. The entries are copied out.
#[verifier::external_body]
fn map_pairs(map: &DashMap<[u8; 32], u64>) -> (pairs: Vec<([u8; 32], u64)>)
    ensures
        lists(pair_keys(pairs@), pair_values(pairs@), entries(map)),
{
    let mut pairs = Vec::new();
    for entry in map.iter() {
        pairs.push((*entry.key(), *entry.value()));
    }
    pairs
}

/// The keys of a list of raw entries, each by its bytes.
pub open spec fn pair_keys(pairs: Seq<([u8; 32], u64)>) -> Seq<Seq<u8>> {
    Seq::new(pairs.len(), |i: int| pairs[i].0@)
}

/// The values of a list of raw entries.
pub open spec fn pair_values(pairs: Seq<([u8; 32], u64)>) -> Seq<u64> {
    Seq::new(pairs.len(), |i: int| pairs[i].1)
}

/// Whether `keys` and `ids`, read side by side, list exactly the entries
/// of `map`, each entry once. Nothing is said of the order.
pub open spec fn lists(keys: Seq<Seq<u8>>, ids: Seq<u64>, map: Map<Seq<u8>, u64>) -> bool {
    &&& keys.len() == ids.len()
    &&& forall|i: int|
        0 <= i < keys.len() ==> map.contains_key(#[trigger] keys[i]) && map[keys[i]] == ids[i]
    &&& forall|i: int, j: int|
        0 <= i < j < keys.len() ==> #[trigger] keys[i] != #[trigger] keys[j]
    &&& forall|k: Seq<u8>| #[trigger]
        map.contains_key(k) ==> exists|i: int| 0 <= i < keys.len() && #[trigger] keys[i] == k
}

/// Whether `ids` are the connections of `map`, one for each entry, in
/// some order.
pub open spec fn drains(ids: Seq<u64>, map: Map<Seq<u8>, u64>) -> bool {
    exists|keys: Seq<Seq<u8>>| lists(keys, ids, map)
}

/// The addresses of a snapshot, each by its bytes.
pub open spec fn snapshot_keys(pairs: Seq<(PublicKey, Connection)>) -> Seq<Seq<u8>> {
    Seq::new(pairs.len(), |i: int| pairs[i].0@)
}

/// The connection ids of a snapshot.
pub open spec fn snapshot_ids(pairs: Seq<(PublicKey, Connection)>) -> Seq<u64> {
    Seq::new(pairs.len(), |i: int| pairs[i].1.id)
}

/// The ids of a list of connections.
pub open spec fn connection_ids(connections: Seq<Connection>) -> Seq<u64> {
    Seq::new(connections.len(), |i: int| connections[i].id)
}

/// What looking up `id` and, where it is absent, storing `dialed` leaves
/// in the cache.
pub open spec fn entries_after_create(map: Map<Seq<u8>, u64>, id: Seq<u8>, dialed: u64) -> Map<
    Seq<u8>,
    u64,
> {
    if map.contains_key(id) {
        map
    } else {
        map.insert(id, dialed)
    }
}

/// The connection that looking up `id` and, where it is absent, storing
/// `dialed` hands back.
pub open spec fn connection_after_create(map: Map<Seq<u8>, u64>, id: Seq<u8>, dialed: u64) -> u64 {
    if map.contains_key(id) {
        map[id]
    } else {
        dialed
    }
}

/// A map from peer address to the connection that is open to it.
#[derive(Debug)]
pub struct ConnectionCache {
    map: DashMap<[u8; 32], u64>,
}

impl View for ConnectionCache {
    type V = Map<Seq<u8>, u64>;

    closed spec fn view(&self) -> Map<Seq<u8>, u64> {
        entries(&self.map)
    }
}

impl ConnectionCache {
    /// A cache with no entries.
    pub fn new() -> (cache: ConnectionCache)
        ensures
            cache@ == no_entries(),
    {
        ConnectionCache { map: map_new() }
    }

    /// The connection cached for `id`, if there is one.
    pub fn get(&self, id: &PublicKey) -> (found: Option<Connection>)
        ensures
            found == (if self@.contains_key(id@) {
                Some(Connection { id: self@[id@] })
            } else {
                None
            }),
    {
        let key = id.as_bytes();
        match map_get(&self.map, &key) {
            Some(handle) => Some(Connection { id: handle }),
            None => None,
        }
    }

    /// Stores `connection` under `id` unless an entry is there already, and
    /// returns the connection that the cache holds for `id` afterwards. When
    /// that is not `connection`, the caller still owns `connection` and has
    /// to close it.
    pub fn insert_if_absent(&mut self, id: PublicKey, connection: Connection) -> (kept: Connection)
        ensures
            final(self)@ == entries_after_create(old(self)@, id@, connection.id),
            kept.id == connection_after_create(old(self)@, id@, connection.id),
    {
        let key = id.as_bytes();
        match map_get(&self.map, &key) {
            Some(handle) => Connection { id: handle },
            None => {
                let _ = map_insert(&mut self.map, key, connection.id);
                connection
            },
        }
    }

    /// Returns the connection cached for `id`. Where there is none, calls
    /// `connector`, stores the connection it gives and returns it; where
    /// `connector` fails, returns its error and leaves the cache as it was.
    pub fn get_or_create<F>(&mut self, id: PublicKey, connector: F) -> (outcome: Result<
        Connection,
        TunnelError,
    >) where F: FnOnce() -> Result<Connection, TunnelError>
        requires
            connector.requires(()),
        ensures
            old(self)@.contains_key(id@) ==> outcome == Ok::<Connection, TunnelError>(
                Connection { id: old(self)@[id@] },
            ),
            !old(self)@.contains_key(id@) ==> connector.ensures((), outcome),
            outcome.is_ok() ==> final(self)@ == entries_after_create(
                old(self)@,
                id@,
                outcome.unwrap().id,
            ),
            outcome.is_ok() ==> outcome.unwrap().id == connection_after_create(
                old(self)@,
                id@,
                outcome.unwrap().id,
            ),
            outcome.is_err() ==> final(self)@ == old(self)@,
    {
        let key = id.as_bytes();
        match map_get(&self.map, &key) {
            Some(handle) => Ok(Connection { id: handle }),
            None => {
                let dialed = connector();
                match dialed {
                    Ok(connection) => {
                        let _ = map_insert(&mut self.map, key, connection.id);
                        Ok(connection)
                    },
                    Err(e) => Err(e),
                }
            },
        }
    }

    /// Takes the entry for `id` out of the cache and returns its
    /// connection, which the caller has to close.
    pub fn remove(&mut self, id: &PublicKey) -> (removed: Option<Connection>)
        ensures
            final(self)@ == old(self)@.remove(id@),
            removed == (if old(self)@.contains_key(id@) {
                Some(Connection { id: old(self)@[id@] })
            } else {
                None
            }),
    {
        let key = id.as_bytes();
        match map_remove(&mut self.map, &key) {
            Some(handle) => Some(Connection { id: handle }),
            None => None,
        }
    }

    /// Every entry of the cache, each once, in no particular order.
    pub fn snapshot(&self) -> (pairs: Vec<(PublicKey, Connection)>)
        ensures
            lists(snapshot_keys(pairs@), snapshot_ids(pairs@), self@),
    {
        let raw = map_pairs(&self.map);
        let mut pairs: Vec<(PublicKey, Connection)> = Vec::new();
        let mut i: usize = 0;
        while i < raw.len()
            invariant
                i <= raw.len(),
                pairs@.len() == i,
                forall|j: int|
                    0 <= j < i ==> (#[trigger] pairs@[j]).0@ == raw@[j].0@ && pairs@[j].1.id
                        == raw@[j].1,
            decreases raw.len() - i,
        {
            let (key, handle) = raw[i];
            pairs.push((PublicKey::from_bytes(key), Connection { id: handle }));
            i = i + 1;
        }
        assert(snapshot_keys(pairs@) =~= pair_keys(raw@));
        assert(snapshot_ids(pairs@) =~= pair_values(raw@));
        pairs
    }

    /// Empties the cache and returns the connections it held, each once.
    /// The caller has to close them.
    pub fn clear(&mut self) -> (drained: Vec<Connection>)
        ensures
            final(self)@ == no_entries(),
            drains(connection_ids(drained@), old(self)@),
    {
        let raw = map_pairs(&self.map);
        let mut drained: Vec<Connection> = Vec::new();
        let mut i: usize = 0;
        while i < raw.len()
            invariant
                i <= raw.len(),
                drained@.len() == i,
                forall|j: int| 0 <= j < i ==> (#[trigger] drained@[j]).id == raw@[j].1,
            decreases raw.len() - i,
        {
            let (_, handle) = raw[i];
            drained.push(Connection { id: handle });
            i = i + 1;
        }
        map_clear(&mut self.map);
        assert(connection_ids(drained@) =~= pair_values(raw@));
        assert(lists(pair_keys(raw@), connection_ids(drained@), old(self)@));
        drained
    }
}

/// A listing has one item for each entry of the map: the map is finite
/// and has as many entries as the listing has items.
pub proof fn lemma_listing_counts_entries(keys: Seq<Seq<u8>>, ids: Seq<u64>, map: Map<Seq<u8>, u64>)
    requires
        lists(keys, ids, map),
    ensures
        map.dom().finite(),
        map.dom().len() == ids.len(),
{
    assert(keys.no_duplicates()) by {
        assert forall|i: int, j: int|
            0 <= i < keys.len() && 0 <= j < keys.len() && i != j implies keys[i] != keys[j] by {
            if i < j {
                assert(keys[i] != keys[j]);
            } else {
                assert(keys[j] != keys[i]);
            }
        }
    }
    assert(map.dom() =~= keys.to_set()) by {
        assert forall|k: Seq<u8>| map.dom().contains(k) == keys.to_set().contains(k) by {
            if map.contains_key(k) {
                let i = choose|i: int| 0 <= i < keys.len() && keys[i] == k;
                assert(keys.contains(k));
            }
            if keys.contains(k) {
                let i = choose|i: int| 0 <= i < keys.len() && keys[i] == k;
                assert(map.contains_key(keys[i]));
            }
        }
    }
    vstd::seq_lib::seq_to_set_is_finite(keys);
    keys.unique_seq_to_set();
}

/// What comes out of an empty cache is nothing, and every connection that
/// comes out of a cache was in it.
pub proof fn lemma_drained_connections_were_cached(ids: Seq<u64>, map: Map<Seq<u8>, u64>)
    requires
        drains(ids, map),
    ensures
        map.dom().finite(),
        ids.len() == map.dom().len(),
        forall|i: int| 0 <= i < ids.len() ==> map.contains_value(#[trigger] ids[i]),
        forall|k: Seq<u8>| #[trigger] map.contains_key(k) ==> ids.contains(map[k]),
{
    let keys = choose|keys: Seq<Seq<u8>>| lists(keys, ids, map);
    lemma_listing_counts_entries(keys, ids, map);
    assert forall|i: int| 0 <= i < ids.len() implies map.contains_value(#[trigger] ids[i]) by {
        assert(map.contains_key(keys[i]) && map[keys[i]] == ids[i]);
    }
    assert forall|k: Seq<u8>| #[trigger] map.contains_key(k) implies ids.contains(map[k]) by {
        let i = choose|i: int| 0 <= i < keys.len() && keys[i] == k;
        assert(ids[i] == map[k]);
    }
}

/// A second lookup of an address that a first one left in the cache gives
/// the connection of the first and changes nothing, whatever was dialed
/// for it.
pub proof fn lemma_lookup_reuses_connection(
    map: Map<Seq<u8>, u64>,
    id: Seq<u8>,
    first: u64,
    second: u64,
)
    ensures
        connection_after_create(entries_after_create(map, id, first), id, second)
            == connection_after_create(map, id, first),
        entries_after_create(entries_after_create(map, id, first), id, second)
            == entries_after_create(map, id, first),
{
}

/// Once an entry is removed, the next lookup of its address stores and
/// returns the newly dialed connection.
pub proof fn lemma_lookup_after_remove_dials(map: Map<Seq<u8>, u64>, id: Seq<u8>, dialed: u64)
    ensures
        connection_after_create(map.remove(id), id, dialed) == dialed,
        entries_after_create(map.remove(id), id, dialed) == map.remove(id).insert(id, dialed),
{
}

} // verus!
