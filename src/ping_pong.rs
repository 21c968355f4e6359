//! Address validation by challenge and response: a node proves that it is
//! reachable at an address by answering a ping's token with a pong.
use vstd::prelude::*;
use lru::LruCache;
use crate::crypto::{bytes_eq, hashv_pair, random_token, serialize_token, sign_message, sha256_of, signature_valid, SigningKey};
use crate::lru_cache::{
    lookup, node_times, node_times_cap, node_view, pending_cap, pending_new, pending_nodes,
    pending_peek, pending_pop, pending_put, put_result, times_get, times_new, times_peek, times_pop,
    times_put, Node, NodeView, SocketAddress,
};

verus! {

pub const GOSSIP_PING_TOKEN_SIZE: usize = 32;

/// Domain separation prefix of a pong's hash: `"SOLANA_PING_PONG"`.
pub open spec fn ping_pong_prefix() -> Seq<u8> {
    seq![0x53u8, 0x4f, 0x4c, 0x41, 0x4e, 0x41, 0x5f, 0x50, 0x49, 0x4e, 0x47, 0x5f, 0x50, 0x4f, 0x4e, 0x47]
}

fn ping_pong_prefix_bytes() -> (r: Vec<u8>)
    ensures
        r@ == ping_pong_prefix(),
{
    let r: Vec<u8> = vec![0x53u8, 0x4f, 0x4c, 0x41, 0x4e, 0x41, 0x5f, 0x50, 0x49, 0x4e, 0x47, 0x5f, 0x50, 0x4f, 0x4e, 0x47];
    assert(r@ =~= ping_pong_prefix());
    r
}

/// The hash that answers a ping carrying `token`.
pub open spec fn pong_hash(token: Seq<u8>) -> Seq<u8> {
    sha256_of(ping_pong_prefix() + token)
}

/// Why a ping or pong could not be made.
#[derive(PartialEq, Eq, Structural, Debug, Clone, Copy)]
pub enum PingPongError {
    SerializeFailed,
}

/// A challenge: a random token signed by its sender.
pub struct Ping {
    pub from: Vec<u8>,
    pub token: [u8; 32],
    pub signature: Vec<u8>,
}

/// The answer to a ping: the domain-separated hash of its token, signed by the
/// responder.
pub struct Pong {
    pub from: Vec<u8>,
    pub hash: Vec<u8>,
    pub signature: Vec<u8>,
}

impl Ping {
    /// A ping carrying `token`, from `key`'s public key and signed by it over
    /// the token.
    pub fn new(token: [u8; 32], key: &SigningKey) -> (r: Result<Ping, PingPongError>)
        ensures
            r is Ok,
            r matches Ok(p) ==> p.token == token && p.from@ == key.pubkey_spec() && p.signature@.len() == 64
                && signature_valid(p.from@, token@, p.signature@),
    {
        let msg = match serialize_token(&token) {
            Some(m) => m,
            None => return Err(PingPongError::SerializeFailed),
        };
        let signature = sign_message(key, msg.as_slice());
        let from = vstd::slice::slice_to_vec(key.pubkey().as_slice());
        Ok(Ping { from, token, signature })
    }

    /// A ping with a fresh random token.
    pub fn rand(key: &SigningKey) -> (r: Result<Ping, PingPongError>)
        ensures
            r is Ok,
            r matches Ok(p) ==> p.from@ == key.pubkey_spec() && p.signature@.len() == 64
                && signature_valid(p.from@, p.token@, p.signature@),
    {
        let token = random_token();
        Self::new(token, key)
    }
}

impl Pong {
    /// The pong that answers `ping`: the hash of its token, from `key`'s public
    /// key and signed by it over the hash.
    pub fn new(ping: &Ping, key: &SigningKey) -> (r: Result<Pong, PingPongError>)
        ensures
            r is Ok,
            r matches Ok(p) ==> p.hash@ == pong_hash(ping.token@) && p.from@ == key.pubkey_spec() && p.signature@.len() == 64
                && signature_valid(p.from@, p.hash@, p.signature@),
    {
        let token = match serialize_token(&ping.token) {
            Some(t) => t,
            None => return Err(PingPongError::SerializeFailed),
        };
        let prefix = ping_pong_prefix_bytes();
        let hash = hashv_pair(prefix.as_slice(), token.as_slice());
        let signature = sign_message(key, hash.as_slice());
        let from = vstd::slice::slice_to_vec(key.pubkey().as_slice());
        Ok(Pong { from, hash, signature })
    }

    /// The responder's identity.
    pub fn from(&self) -> (r: &Vec<u8>)
        ensures
            r == &self.from,
    {
        &self.from
    }
}

fn copy_node(n: &Node) -> (r: Node)
    ensures
        node_view(r) == node_view(*n),
{
    (vstd::slice::slice_to_vec(n.0.as_slice()), (vstd::slice::slice_to_vec(n.1.0.as_slice()), n.1.1))
}

fn same_node(a: &Node, b: &Node) -> (r: bool)
    ensures
        r == (node_view(*a) == node_view(*b)),
{
    bytes_eq(a.0.as_slice(), b.0.as_slice()) && bytes_eq(a.1.0.as_slice(), b.1.0.as_slice()) && a.1.1 == b.1.1
}

/// Ping and pong bookkeeping per node. Times and durations are in one unit of
/// a monotonic clock.
pub struct PingCache {
    ttl: u64,
    rate_limit_delay: u64,
    pings: LruCache<Node, u64>,
    pongs: LruCache<Node, u64>,
    pending_cache: LruCache<Vec<u8>, Node>,
}

impl PingCache {
    pub closed spec fn ttl_spec(&self) -> u64 {
        self.ttl
    }

    pub closed spec fn rate_limit_delay_spec(&self) -> u64 {
        self.rate_limit_delay
    }

    /// When a ping was last sent to each node.
    pub closed spec fn pings_map(&self) -> Map<NodeView, u64> {
        node_times(self.pings)
    }

    /// When each node last answered a ping.
    pub closed spec fn pongs_map(&self) -> Map<NodeView, u64> {
        node_times(self.pongs)
    }

    /// The node that each outstanding ping's answer hash is expected from.
    pub closed spec fn pending_map(&self) -> Map<Seq<u8>, NodeView> {
        pending_nodes(self.pending_cache)
    }

    pub closed spec fn cap(&self) -> nat {
        node_times_cap(self.pongs)
    }

    /// The three maps share one capacity and none holds more than it.
    pub closed spec fn wf(&self) -> bool {
        &&& node_times_cap(self.pings) == node_times_cap(self.pongs)
        &&& pending_cap(self.pending_cache) == node_times_cap(self.pongs)
        &&& bounded(self.pings_map(), self.cap())
        &&& bounded(self.pongs_map(), self.cap())
        &&& bounded(self.pending_map(), self.cap())
    }

    /// An empty cache whose three maps hold at most `cap` entries each.
    pub fn new(ttl: u64, rate_limit_delay: u64, cap: usize) -> (r: PingCache)
        requires
            cap > 0,
        ensures
            r.wf(),
            r.ttl_spec() == ttl,
            r.rate_limit_delay_spec() == rate_limit_delay,
            r.cap() == cap,
            r.pings_map().dom() == Set::<NodeView>::empty(),
            r.pongs_map().dom() == Set::<NodeView>::empty(),
            r.pending_map().dom() == Set::<Seq<u8>>::empty(),
    {
        PingCache {
            ttl,
            rate_limit_delay,
            pings: times_new(cap),
            pongs: times_new(cap),
            pending_cache: pending_new(cap),
        }
    }

    /// Records a pong from `socket`. It counts only where an outstanding ping
    /// expects exactly this identity at exactly this address: then the node's
    /// pong time becomes `now` and its ping records are cleared. Otherwise
    /// nothing changes.
    pub fn add(&mut self, pong: &Pong, socket: SocketAddress, now: u64) -> (r: bool)
        requires
            old(self).wf(),
        ensures
            final(self).wf(),
            r == (lookup(old(self).pending_map(), pong.hash@) == Some((pong.from@, (socket.0@, socket.1)))),
            final(self).ttl_spec() == old(self).ttl_spec(),
            final(self).rate_limit_delay_spec() == old(self).rate_limit_delay_spec(),
            final(self).cap() == old(self).cap(),
            r ==> final(self).pings_map() == old(self).pings_map().remove((pong.from@, (socket.0@, socket.1))),
            r ==> put_result(old(self).pongs_map(), final(self).pongs_map(), old(self).cap(), (pong.from@, (socket.0@, socket.1)), now),
            r ==> final(self).pending_map() == old(self).pending_map().remove(pong.hash@),
            !r ==> *final(self) == *old(self),
    {
        let node: Node = (vstd::slice::slice_to_vec(pong.from.as_slice()), socket);
        match pending_peek(&self.pending_cache, &pong.hash) {
            Some(value) => {
                if same_node(&value, &node) {
                    let _ = times_pop(&mut self.pings, &node);
                    times_put(&mut self.pongs, node, now);
                    let _ = pending_pop(&mut self.pending_cache, &pong.hash);
                    true
                } else {
                    false
                }
            },
            None => false,
        }
    }

    /// Whether a ping to `node` at `now` would come too soon after the last.
    pub open spec fn rate_limited(&self, now: u64, node: NodeView) -> bool {
        self.pings_map().contains_key(node) && (if now >= self.pings_map()[node] {
            now - self.pings_map()[node]
        } else {
            0
        }) < self.rate_limit_delay_spec()
    }

    /// Sends a ping to `node` unless one went out within the rate limit: the
    /// ping comes from `pingf`, its answer hash joins the pending map for the
    /// node and the node's ping time becomes `now`.
    fn maybe_ping<F>(&mut self, now: u64, node: Node, pingf: F) -> (r: Option<Ping>)
        where
            F: FnOnce() -> Option<Ping>,
        requires
            old(self).wf(),
            call_requires(pingf, ()),
        ensures
            final(self).wf(),
            final(self).ttl_spec() == old(self).ttl_spec(),
            final(self).rate_limit_delay_spec() == old(self).rate_limit_delay_spec(),
            final(self).cap() == old(self).cap(),
            final(self).pongs_map() == old(self).pongs_map(),
            old(self).rate_limited(now, node_view(node)) ==> r is None && *final(self) == *old(self),
            !old(self).rate_limited(now, node_view(node)) ==> call_ensures(pingf, (), r),
            r is None ==> final(self).pings_map() == old(self).pings_map() && final(self).pending_map() == old(self).pending_map(),
            r matches Some(p) ==> {
                &&& put_result(old(self).pings_map(), final(self).pings_map(), old(self).cap(), node_view(node), now)
                &&& put_result(old(self).pending_map(), final(self).pending_map(), old(self).cap(), pong_hash(p.token@), node_view(node))
            },
    {
        match times_peek(&self.pings, &node) {
            Some(t) => {
                if now.saturating_sub(t) < self.rate_limit_delay {
                    return None;
                }
            },
            None => {},
        }
        let ping = match pingf() {
            Some(p) => p,
            None => return None,
        };
        let token = match serialize_token(&ping.token) {
            Some(t) => t,
            None => return None,
        };
        let prefix = ping_pong_prefix_bytes();
        let hash = hashv_pair(prefix.as_slice(), token.as_slice());
        pending_put(&mut self.pending_cache, hash, copy_node(&node));
        times_put(&mut self.pings, node, now);
        Some(ping)
    }

    /// Whether `node` counts as validated at `now`, and a ping to send it if
    /// one is due. A node with a recorded pong is valid; a pong older than the
    /// TTL is dropped but still counts this once. A ping is due when no pong
    /// is recorded or the pong is older than an eighth of the TTL, and is sent
    /// only outside the rate limit.
    pub fn check<F>(&mut self, now: u64, node: Node, pingf: F) -> (r: (bool, Option<Ping>))
        where
            F: FnOnce() -> Option<Ping>,
        requires
            old(self).wf(),
            call_requires(pingf, ()),
        ensures
            final(self).wf(),
            final(self).ttl_spec() == old(self).ttl_spec(),
            final(self).rate_limit_delay_spec() == old(self).rate_limit_delay_spec(),
            final(self).cap() == old(self).cap(),
            r.0 == old(self).pongs_map().contains_key(node_view(node)),
            final(self).pongs_map() == pongs_after_check(old(self).pongs_map(), node_view(node), now, old(self).ttl_spec()),
            !old(self).ping_due(now, node_view(node)) ==> r.1 is None,
            old(self).rate_limited(now, node_view(node)) ==> r.1 is None,
            old(self).ping_due(now, node_view(node)) && !old(self).rate_limited(now, node_view(node)) ==> call_ensures(pingf, (), r.1),
            r.1 is None ==> final(self).pings_map() == old(self).pings_map() && final(self).pending_map() == old(self).pending_map(),
            r.1 matches Some(p) ==> {
                &&& put_result(old(self).pings_map(), final(self).pings_map(), old(self).cap(), node_view(node), now)
                &&& put_result(old(self).pending_map(), final(self).pending_map(), old(self).cap(), pong_hash(p.token@), node_view(node))
            },
    {
        let (valid, should_ping) = match times_get(&mut self.pongs, &node) {
            None => (false, true),
            Some(t) => {
                let age = now.saturating_sub(t);
                if age > self.ttl {
                    let _ = times_pop(&mut self.pongs, &node);
                }
                (true, age > self.ttl / 8)
            },
        };
        let ping = if should_ping {
            self.maybe_ping(now, node, pingf)
        } else {
            None
        };
        (valid, ping)
    }

    /// Whether a ping to `node` is due at `now`: no pong recorded, or the pong
    /// is older than an eighth of the TTL.
    pub open spec fn ping_due(&self, now: u64, node: NodeView) -> bool {
        !self.pongs_map().contains_key(node) || pong_age(now, self.pongs_map()[node]) > self.ttl_spec() / 8
    }
}

/// The pong times after a check of `node` at `now`: an expired pong is dropped.
pub open spec fn pongs_after_check(pongs: Map<NodeView, u64>, node: NodeView, now: u64, ttl: u64) -> Map<NodeView, u64> {
    if pongs.contains_key(node) && pong_age(now, pongs[node]) > ttl {
        pongs.remove(node)
    } else {
        pongs
    }
}

/// A pong recorded at `t0` keeps its node valid through every check up to
/// `t0 + ttl`: the check passes and leaves the pong in place. Past an eighth
/// of the TTL each such check finds a refresh ping due.
pub proof fn lemma_validation_freshness(cache: PingCache, node: NodeView, t0: u64, now: u64)
    requires
        cache.pongs_map().contains_key(node),
        cache.pongs_map()[node] == t0,
        t0 <= now,
        now - t0 <= cache.ttl_spec(),
    ensures
        pongs_after_check(cache.pongs_map(), node, now, cache.ttl_spec()).contains_key(node),
        pongs_after_check(cache.pongs_map(), node, now, cache.ttl_spec())[node] == t0,
        cache.ping_due(now, node) == (now - t0 > cache.ttl_spec() / 8),
{
}

/// A map with finitely many keys, at most `cap` of them.
pub open spec fn bounded<K, V>(m: Map<K, V>, cap: nat) -> bool {
    m.dom().finite() && m.dom().len() <= cap
}

/// Every well-formed cache holds at most its capacity in each of its maps.
pub proof fn lemma_caches_bounded(cache: PingCache)
    requires
        cache.wf(),
    ensures
        bounded(cache.pings_map(), cache.cap()),
        bounded(cache.pongs_map(), cache.cap()),
        bounded(cache.pending_map(), cache.cap()),
{
}

/// Time since `t` at `now`, 0 if `t` is later.
pub open spec fn pong_age(now: u64, t: u64) -> u64 {
    if now >= t {
        (now - t) as u64
    } else {
        0
    }
}

} // verus!
