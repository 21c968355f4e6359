//! The gossip message vocabulary and the dispatch of inbound messages to the
//! record table and the address-validation cache.
use vstd::prelude::*;
use crate::contact_info::ContactInfo;
use crate::crypto::{signature_valid, SigningKey};
use crate::data::{same_value, signed_by, GossipTableData, GossipTableValue};
use crate::filter::{bloom_num_bits, DataFilter};
use crate::lru_cache::{lookup, put_result, Node, NodeView, SocketAddress};
use crate::ping_pong::{pong_hash, pongs_after_check, Ping, PingCache, Pong};
use crate::table::{derefs, insert_all, missing_pred, values_of, GossipRoute, GossipTable};

verus! {

/// A gossip message. Variant order is the wire order.
pub enum Protocol {
    /// A filter of what the requester holds, and its signed contact record.
    PullRequest(DataFilter, GossipTableValue),
    /// The responder's identity and the values the requester lacks.
    PullResponse(Vec<u8>, Vec<GossipTableValue>),
    /// Unsolicited values.
    PushMessage(Vec<GossipTableValue>),
    /// A node's identity and the origins it no longer wants pushes from.
    PruneMessage(Vec<u8>, Vec<Vec<u8>>),
    PingMessage(Ping),
    PongMessage(Pong),
}

/// Why a pull request could not be built.
#[derive(PartialEq, Eq, Structural, Debug, Clone, Copy)]
pub enum PushMessagesErrors {
    /// The contact record advertises no socket.
    NoSocketEntry,
    /// The message could not be encoded.
    SerializeFailed,
}

/// A pull request for what `filter` does not hold, carrying `contact_info`
/// signed by `key`. A contact record without sockets is refused before
/// anything is signed.
pub fn create_pull_request_message(
    contact_info: ContactInfo,
    filter: DataFilter,
    key: &SigningKey,
) -> (r: Result<Protocol, PushMessagesErrors>)
    ensures
        contact_info.sockets@.len() == 0 <==> r == Err::<Protocol, PushMessagesErrors>(PushMessagesErrors::NoSocketEntry),
        contact_info.sockets@.len() > 0 ==> (r matches Ok(Protocol::PullRequest(f, v)) && f == filter
            && v.data == GossipTableData::ContactInfo(contact_info) && v.signature@.len() == 64
            && signed_by(v, key.pubkey_spec())
            && (contact_info.pubkey@ == key.pubkey_spec() ==> v.verify_spec())),
{
    if contact_info.sockets().len() == 0 {
        return Err(PushMessagesErrors::NoSocketEntry);
    }
    let signed_data = GossipTableValue::new_signed(GossipTableData::ContactInfo(contact_info), key);
    Ok(Protocol::PullRequest(filter, signed_data))
}

/// A pull request is answered only for a verified contact record that
/// advertises a socket.
pub open spec fn acceptable_pull_request(value: GossipTableValue) -> bool {
    &&& value.verify_spec()
    &&& value.data matches GossipTableData::ContactInfo(ci) && ci.sockets@.len() > 0
}

/// The (time, value) pairs to insert from a batch: the values whose signature
/// verifies, in order.
pub open spec fn verified_inserts(values: Seq<GossipTableValue>, now: u64) -> Seq<(GossipTableValue, u64)> {
    values.filter(|v: GossipTableValue| v.verify_spec()).map_values(|v: GossipTableValue| (v, now))
}

/// A pull response, if the message is one, names `pk` as the responder.
pub open spec fn responds_as(m: Protocol, pk: Seq<u8>) -> bool {
    match m {
        Protocol::PullResponse(id, _) => id@ == pk,
        _ => true,
    }
}

/// A ping from `pk` whose answer the cache now expects from `node`.
pub open spec fn is_pending_ping(m: Protocol, cache: PingCache, node: NodeView, pk: Seq<u8>) -> bool {
    match m {
        Protocol::PingMessage(p) => p.from@ == pk && lookup(cache.pending_map(), pong_hash(p.token@)) == Some(node),
        _ => false,
    }
}

/// A pull response whose values are copies of `answer`, in order.
pub open spec fn is_pull_response_with(m: Protocol, answer: Seq<GossipTableValue>) -> bool {
    match m {
        Protocol::PullResponse(_, vals) => {
            &&& vals@.len() == answer.len()
            &&& forall|j: int| 0 <= j < vals@.len() ==> same_value(#[trigger] vals@[j], answer[j])
        },
        _ => false,
    }
}

/// Inserts each value of a batch whose signature verifies, in order; a value
/// that fails verification is dropped alone.
pub fn insert_verified(table: &mut GossipTable, values: Vec<GossipTableValue>, now: u64, route: &GossipRoute)
    requires
        old(table).wf(),
    ensures
        final(table).wf(),
        final(table).limits_spec() == old(table).limits_spec(),
        (final(table).entries_view(), final(table).next_ordinal()) == insert_all(
            old(table).entries_view(),
            old(table).next_ordinal(),
            old(table).limits_spec(),
            verified_inserts(values@, now),
        ),
{
    let ghost all = values@;
    let ghost pred = |v: GossipTableValue| v.verify_spec();
    let mut rest = values;
    let ghost mut k: int = 0;
    while rest.len() > 0
        invariant
            table.wf(),
            table.limits_spec() == old(table).limits_spec(),
            0 <= k <= all.len(),
            rest@ == all.subrange(k, all.len() as int),
            pred == |v: GossipTableValue| v.verify_spec(),
            (table.entries_view(), table.next_ordinal()) == insert_all(
                old(table).entries_view(),
                old(table).next_ordinal(),
                old(table).limits_spec(),
                verified_inserts(all.subrange(0, k), now),
            ),
        decreases rest@.len(),
    {
        let value = rest.remove(0);
        proof {
            let pre = all.subrange(0, k);
            let pre1 = all.subrange(0, k + 1);
            assert(value == all[k]);
            assert(pre1.drop_last() =~= pre);
            assert(pre1.last() == value);
            reveal(Seq::filter);
            if value.verify_spec() {
                assert(pre1.filter(pred) == pre.filter(pred).push(value));
                assert(verified_inserts(pre1, now) =~= verified_inserts(pre, now).push((value, now)));
                assert(verified_inserts(pre1, now).drop_last() =~= verified_inserts(pre, now));
            } else {
                assert(pre1.filter(pred) == pre.filter(pred));
                assert(verified_inserts(pre1, now) =~= verified_inserts(pre, now));
            }
            assert(rest@ =~= all.subrange(k + 1, all.len() as int));
        }
        if value.verify() {
            let _ = table.insert(value, now, route);
        }
        proof {
            k = k + 1;
        }
    }
    assert(all.subrange(0, k) =~= all);
}

/// Copies of the values a table reference list points to.
fn copy_values(values: &Vec<&GossipTableValue>) -> (r: Vec<GossipTableValue>)
    ensures
        r@.len() == values@.len(),
        forall|i: int| 0 <= i < r@.len() ==> same_value(#[trigger] r@[i], *values@[i]),
{
    let mut out: Vec<GossipTableValue> = Vec::new();
    let mut i: usize = 0;
    while i < values.len()
        invariant
            0 <= i <= values@.len(),
            out@.len() == i,
            forall|j: int| 0 <= j < i ==> same_value(#[trigger] out@[j], *values@[j]),
        decreases values@.len() - i,
    {
        out.push(values[i].duplicate());
        i = i + 1;
    }
    out
}

/// Handles one decoded message from `from` at local time `now` and returns
/// the messages to send back to `from`.
/// - A ping is answered with its pong.
/// - A pong goes to the validation cache; nothing is sent.
/// - A pull request with a verified contact record that advertises a socket
///   is checked against the validation cache; a validated requester gets the
///   values its filter lacks, and a ping goes out where one is due.
/// - Pushed or pulled values are verified one by one and inserted.
/// - Prune messages are left to peer selection.
pub fn process_message(
    table: &mut GossipTable,
    cache: &mut PingCache,
    protocol: Protocol,
    from: SocketAddress,
    now: u64,
    key: &SigningKey,
) -> (r: Vec<Protocol>)
    requires
        old(table).wf(),
        old(cache).wf(),
    ensures
        final(table).wf(),
        final(cache).wf(),
        match protocol {
            Protocol::PingMessage(ping) => {
                &&& *final(table) == *old(table) && *final(cache) == *old(cache)
                &&& r@.len() == 1
                &&& r@[0] matches Protocol::PongMessage(p) && p.hash@ == pong_hash(ping.token@)
                    && p.from@ == key.pubkey_spec() && signature_valid(p.from@, p.hash@, p.signature@)
            },
            Protocol::PongMessage(pong) => {
                let node = (pong.from@, (from.0@, from.1));
                &&& *final(table) == *old(table)
                &&& r@.len() == 0
                &&& lookup(old(cache).pending_map(), pong.hash@) == Some(node) ==> {
                    &&& final(cache).pings_map() == old(cache).pings_map().remove(node)
                    &&& put_result(old(cache).pongs_map(), final(cache).pongs_map(), old(cache).cap(), node, now)
                    &&& final(cache).pending_map() == old(cache).pending_map().remove(pong.hash@)
                }
                &&& lookup(old(cache).pending_map(), pong.hash@) != Some(node) ==> *final(cache) == *old(cache)
            },
            Protocol::PullRequest(filter, value) => {
                &&& *final(table) == *old(table)
                &&& !acceptable_pull_request(value) ==> *final(cache) == *old(cache) && r@.len() == 0
                &&& acceptable_pull_request(value) ==> {
                    let node = (value.data.owner(), (from.0@, from.1));
                    let validated = old(cache).pongs_map().contains_key(node);
                    let answer = values_of(old(table).entries_view().filter(
                        missing_pred(filter.mask_spec(), filter.mask_bits_spec(), filter.bloom()),
                    ));
                    let ping_sent = old(cache).ping_due(now, node) && !old(cache).rate_limited(now, node);
                    &&& (validated && bloom_num_bits(filter.bloom()) > 0) ==> exists|i: int|
                        0 <= i < r@.len() && is_pull_response_with(#[trigger] r@[i], answer)
                    &&& !validated ==> forall|i: int| 0 <= i < r@.len() ==> !((#[trigger] r@[i]) is PullResponse)
                    &&& forall|i: int| 0 <= i < r@.len() ==> responds_as(#[trigger] r@[i], key.pubkey_spec())
                    &&& final(cache).pongs_map() == pongs_after_check(old(cache).pongs_map(), node, now, old(cache).ttl_spec())
                    &&& final(cache).ttl_spec() == old(cache).ttl_spec()
                    &&& final(cache).rate_limit_delay_spec() == old(cache).rate_limit_delay_spec()
                    &&& final(cache).cap() == old(cache).cap()
                    &&& ping_sent ==> exists|i: int| 0 <= i < r@.len() && is_pending_ping(#[trigger] r@[i], *final(cache), node, key.pubkey_spec())
                    &&& ping_sent ==> final(cache).pings_map().contains_key(node) && final(cache).pings_map()[node] == now
                    &&& !ping_sent ==> forall|i: int| 0 <= i < r@.len() ==> !((#[trigger] r@[i]) is PingMessage)
                    &&& !ping_sent ==> final(cache).pings_map() == old(cache).pings_map() && final(cache).pending_map() == old(cache).pending_map()
                }
            },
            Protocol::PullResponse(_, values) | Protocol::PushMessage(values) => {
                &&& *final(cache) == *old(cache)
                &&& r@.len() == 0
                &&& (final(table).entries_view(), final(table).next_ordinal()) == insert_all(
                    old(table).entries_view(),
                    old(table).next_ordinal(),
                    old(table).limits_spec(),
                    verified_inserts(values@, now),
                )
            },
            Protocol::PruneMessage(_, _) => {
                &&& *final(table) == *old(table) && *final(cache) == *old(cache)
                &&& r@.len() == 0
            },
        },
{
    let mut out: Vec<Protocol> = Vec::new();
    match protocol {
        Protocol::PingMessage(ping) => {
            match Pong::new(&ping, key) {
                Ok(pong) => out.push(Protocol::PongMessage(pong)),
                Err(_) => {},
            }
        },
        Protocol::PongMessage(pong) => {
            let _ = cache.add(&pong, from, now);
        },
        Protocol::PullRequest(filter, value) => {
            if !value.verify() {
                return out;
            }
            let requester = match &value.data {
                GossipTableData::ContactInfo(ci) => {
                    if ci.sockets().len() == 0 {
                        return out;
                    }
                    vstd::slice::slice_to_vec(ci.pubkey().as_slice())
                },
                _ => {
                    return out;
                },
            };
            let node: Node = (requester, from);
            let ghost nv = (value.data.owner(), (from.0@, from.1));
            let factory = || -> (p: Option<Ping>)
                ensures
                    p matches Some(q) && q.from@ == key.pubkey_spec(),
                { Ping::rand(key).ok() };
            let (valid, ping) = cache.check(now, node, factory);
            match ping {
                Some(p) => {
                    out.push(Protocol::PingMessage(p));
                    assert(is_pending_ping(out@[out@.len() - 1], *cache, nv, key.pubkey_spec()));
                },
                None => {},
            }
            if valid {
                let matching = table.values_matching(&filter);
                if filter.num_bits() > 0 {
                    let values = copy_values(&matching);
                    let ghost answer = derefs(matching@);
                    assert forall|j: int| 0 <= j < values@.len() implies same_value(#[trigger] values@[j], answer[j]) by {
                        assert(answer[j] == *matching@[j]);
                    }
                    out.push(Protocol::PullResponse(vstd::slice::slice_to_vec(key.pubkey().as_slice()), values));
                    assert(is_pull_response_with(out@[out@.len() - 1], answer));
                }
            }
        },
        Protocol::PullResponse(_, values) => {
            insert_verified(table, values, now, &GossipRoute::PullResponse);
        },
        Protocol::PushMessage(values) => {
            insert_verified(table, values, now, &GossipRoute::PushMessage(Vec::new()));
        },
        Protocol::PruneMessage(_, _) => {},
    }
    out
}

} // verus!
