//! The bounded least-recently-used maps of the address-validation cache, kept
//! in lru's `LruCache` and described by what they map.
use vstd::prelude::*;
use lru::LruCache;
use std::num::NonZeroUsize;

verus! {

/// A network address: IP octets (4 or 16 of them) and port.
pub type SocketAddress = (Vec<u8>, u16);

/// A node: identity and network address.
pub type Node = (Vec<u8>, SocketAddress);

/// What is compared of a node: identity bytes, address bytes and port.
pub type NodeView = (Seq<u8>, (Seq<u8>, u16));

pub open spec fn node_view(n: Node) -> NodeView {
    (n.0@, (n.1.0@, n.1.1))
}

#[verifier::external_type_specification]
#[verifier::external_body]
#[verifier::reject_recursive_types(K)]
#[verifier::reject_recursive_types(V)]
#[verifier::reject_recursive_types(S)]
pub struct ExLruCache<K, V, S>(LruCache<K, V, S>);

#[verifier::external_type_specification]
#[verifier::external_body]
pub struct ExDefaultHasher(lru::DefaultHasher);

/// What a node-keyed cache maps each node to.
pub uninterp spec fn node_times(c: LruCache<Node, u64>) -> Map<NodeView, u64>;

/// The capacity a node-keyed cache was made with.
pub uninterp spec fn node_times_cap(c: LruCache<Node, u64>) -> nat;

/// What a hash-keyed cache maps each hash to.
pub uninterp spec fn pending_nodes(c: LruCache<Vec<u8>, Node>) -> Map<Seq<u8>, NodeView>;

/// The capacity a hash-keyed cache was made with.
pub uninterp spec fn pending_cap(c: LruCache<Vec<u8>, Node>) -> nat;

/// The map after `put(k, v)` into a cache of capacity `cap`: `k` maps to `v`;
/// where `k` was absent and the cache full, one other entry (the least
/// recently used) is evicted, so the cache never holds more than `cap`.
pub open spec fn put_result<K, V>(old: Map<K, V>, new: Map<K, V>, cap: nat, k: K, v: V) -> bool {
    &&& new.contains_key(k) && new[k] == v
    &&& (old.dom().finite() && old.dom().len() <= cap) ==> (new.dom().finite() && new.dom().len() <= cap)
    &&& (new == old.insert(k, v) || exists|e: K|
        #![trigger old.remove(e)]
        old.contains_key(e) && e != k && new == old.remove(e).insert(k, v))
    &&& (old.contains_key(k) || old.dom().len() < cap) ==> new == old.insert(k, v)
}

pub open spec fn lookup<K, V>(m: Map<K, V>, k: K) -> Option<V> {
    if m.contains_key(k) {
        Some(m[k])
    } else {
        None
    }
}

/// Relies on LruCache::new: an empty cache holding at most `cap` entries.
#[verifier::external_body]
pub(crate) fn times_new(cap: usize) -> (r: LruCache<Node, u64>)
    requires
        cap > 0,
    ensures
        node_times(r).dom() == Set::<NodeView>::empty(),
        node_times_cap(r) == cap,
{
    LruCache::new(NonZeroUsize::new(cap).unwrap())
}

/// Relies on LruCache::peek: the value of a key, without touching recency.
#[verifier::external_body]
pub(crate) fn times_peek(c: &LruCache<Node, u64>, k: &Node) -> (r: Option<u64>)
    ensures
        r == lookup(node_times(*c), node_view(*k)),
{
    c.peek(k).copied()
}

/// Relies on LruCache::get: the value of a key, which becomes most recently
/// used; what the cache maps is unchanged.
#[verifier::external_body]
pub(crate) fn times_get(c: &mut LruCache<Node, u64>, k: &Node) -> (r: Option<u64>)
    ensures
        r == lookup(node_times(*old(c)), node_view(*k)),
        node_times(*final(c)) == node_times(*old(c)),
        node_times_cap(*final(c)) == node_times_cap(*old(c)),
{
    c.get(k).copied()
}

/// Relies on LruCache::put: sets a key's value, evicting the least recently
/// used entry when a new key finds the cache full.
#[verifier::external_body]
pub(crate) fn times_put(c: &mut LruCache<Node, u64>, k: Node, v: u64)
    ensures
        put_result(node_times(*old(c)), node_times(*final(c)), node_times_cap(*old(c)), node_view(k), v),
        node_times_cap(*final(c)) == node_times_cap(*old(c)),
{
    c.put(k, v);
}

/// Relies on LruCache::pop: removes a key and returns its value.
#[verifier::external_body]
pub(crate) fn times_pop(c: &mut LruCache<Node, u64>, k: &Node) -> (r: Option<u64>)
    ensures
        r == lookup(node_times(*old(c)), node_view(*k)),
        node_times(*final(c)) == node_times(*old(c)).remove(node_view(*k)),
        node_times_cap(*final(c)) == node_times_cap(*old(c)),
{
    c.pop(k)
}

/// Relies on LruCache::new: an empty cache holding at most `cap` entries.
#[verifier::external_body]
pub(crate) fn pending_new(cap: usize) -> (r: LruCache<Vec<u8>, Node>)
    requires
        cap > 0,
    ensures
        pending_nodes(r).dom() == Set::<Seq<u8>>::empty(),
        pending_cap(r) == cap,
{
    LruCache::new(NonZeroUsize::new(cap).unwrap())
}

/// Relies on LruCache::peek: the value of a key, without touching recency.
#[verifier::external_body]
pub(crate) fn pending_peek(c: &LruCache<Vec<u8>, Node>, k: &Vec<u8>) -> (r: Option<Node>)
    ensures
        match r {
            Some(n) => lookup(pending_nodes(*c), k@) == Some(node_view(n)),
            None => lookup(pending_nodes(*c), k@) is None,
        },
{
    c.peek(k).cloned()
}

/// Relies on LruCache::put: sets a key's value, evicting the least recently
/// used entry when a new key finds the cache full.
#[verifier::external_body]
pub(crate) fn pending_put(c: &mut LruCache<Vec<u8>, Node>, k: Vec<u8>, v: Node)
    ensures
        put_result(pending_nodes(*old(c)), pending_nodes(*final(c)), pending_cap(*old(c)), k@, node_view(v)),
        pending_cap(*final(c)) == pending_cap(*old(c)),
{
    c.put(k, v);
}

/// Relies on LruCache::pop: removes a key and returns its value.
#[verifier::external_body]
pub(crate) fn pending_pop(c: &mut LruCache<Vec<u8>, Node>, k: &Vec<u8>) -> (r: Option<Node>)
    ensures
        pending_nodes(*final(c)) == pending_nodes(*old(c)).remove(k@),
        pending_cap(*final(c)) == pending_cap(*old(c)),
{
    c.pop(k)
}

} // verus!
