//! The replicated record table: at most one current record per label, each
//! with a fresh insertion ordinal, plus the recently-purged list.
use vstd::prelude::*;
use crate::crypto::{bytes_eq, sha256_of};
use crate::cursor::Cursor;
use crate::data::{GossipTableData, GossipTableValue, Label, RecordKind};
use crate::filter::{bloom_members, bloom_num_bits, in_shard, DataFilter, HashBloom};

verus! {

broadcast use vstd::seq_lib::group_filter_ensures;

/// Outcome of an insertion that did not store the value.
#[derive(PartialEq, Eq, Structural, Debug, Clone, Copy)]
pub enum GossipTableError {
    /// The exact value is already stored; the count of times it was received
    /// again, saturating at 255.
    DuplicatePush(u8),
    /// A record for the label with a later timestamp, or with the same
    /// timestamp and different content, is already stored.
    InsertFailed,
    /// Trust cannot be judged without stake information.
    UnknownStakes,
}

/// How a value reached this node. It does not change what is accepted.
pub enum GossipRoute {
    LocalMessage,
    PullRequest,
    PullResponse,
    PushMessage(Vec<u8>),
}

/// A stored value with its bookkeeping.
pub struct TableEntry {
    pub value: GossipTableValue,
    /// Insertion sequence number, assigned once.
    pub ordinal: u64,
    /// Local receipt time.
    pub local_timestamp: u64,
    /// How many times this exact value was received again.
    pub num_push_dups: u8,
}

pub struct GossipTable {
    entries: Vec<TableEntry>,
    cursor: Cursor,
    purged: Vec<(Vec<u8>, u64)>,
    limits: TableLimits,
}

/// The label of `identity`'s contact record.
pub open spec fn contact_label(identity: Seq<u8>) -> Label {
    Label { from: identity, kind: RecordKind::ContactInfo, index: 0 }
}

/// The shred version a record advertises, for contact records.
pub open spec fn contact_shred_version(d: GossipTableData) -> Option<u16> {
    match d {
        GossipTableData::ContactInfo(ci) => Some(ci.shred_version),
        _ => None,
    }
}

/// Index of the entry that holds `label`, if any.
pub open spec fn find_label(entries: Seq<TableEntry>, label: Label) -> Option<int> {
    if exists|i: int| 0 <= i < entries.len() && (#[trigger] entries[i]).value.label() == label {
        Some(choose|i: int| 0 <= i < entries.len() && (#[trigger] entries[i]).value.label() == label)
    } else {
        None
    }
}

proof fn lemma_find_label(entries: Seq<TableEntry>, label: Label)
    ensures
        match find_label(entries, label) {
            Some(i) => 0 <= i < entries.len() && entries[i].value.label() == label,
            None => forall|j: int| 0 <= j < entries.len() ==> (#[trigger] entries[j]).value.label() != label,
        },
{
}

/// Labels are unique, ordinals strictly increase along the sequence and stay
/// below the next ordinal to hand out.
pub open spec fn entries_wf(entries: Seq<TableEntry>, next: u64) -> bool {
    &&& forall|i: int, j: int|
        0 <= i < j < entries.len() ==> (#[trigger] entries[i]).value.label() != (#[trigger] entries[j]).value.label()
    &&& forall|i: int, j: int|
        0 <= i < j < entries.len() ==> (#[trigger] entries[i]).ordinal < (#[trigger] entries[j]).ordinal
    &&& forall|i: int| 0 <= i < entries.len() ==> (#[trigger] entries[i]).ordinal < next
}

/// A freshly stored value.
pub open spec fn fresh_entry(value: GossipTableValue, ordinal: u64, now: u64) -> TableEntry {
    TableEntry { value, ordinal, local_timestamp: now, num_push_dups: 0 }
}

/// How many records of a kind one owner may hold at once, for the kinds that
/// allow several (by secondary index). When a new record goes over the bound,
/// the owner's oldest record of that kind is evicted.
#[derive(Clone, Copy, Debug)]
pub struct TableLimits {
    pub max_votes: u64,
    pub max_epoch_slots: u64,
    pub max_duplicate_shreds: u64,
}

pub const DEFAULT_MAX_VOTES: u64 = 32;

pub const DEFAULT_MAX_EPOCH_SLOTS: u64 = 255;

pub const DEFAULT_MAX_DUPLICATE_SHREDS: u64 = 512;

/// Every bound lets an owner hold at least one record.
pub open spec fn limits_wf(limits: TableLimits) -> bool {
    limits.max_votes >= 1 && limits.max_epoch_slots >= 1 && limits.max_duplicate_shreds >= 1
}

/// The per-owner bound of a kind, for the bounded kinds.
pub open spec fn kind_cap(limits: TableLimits, kind: RecordKind) -> Option<u64> {
    match kind {
        RecordKind::Vote => Some(limits.max_votes),
        RecordKind::EpochSlots => Some(limits.max_epoch_slots),
        RecordKind::DuplicateShred => Some(limits.max_duplicate_shreds),
        _ => None,
    }
}

/// Whether an entry is owned by `owner` and of `kind`.
pub open spec fn owner_kind_pred(owner: Seq<u8>, kind: RecordKind) -> spec_fn(TableEntry) -> bool {
    |e: TableEntry| e.value.data.owner() == owner && e.value.data.kind() == kind
}

/// Whether `owner` holds more records of `kind` than its bound allows.
pub open spec fn over_cap(entries: Seq<TableEntry>, limits: TableLimits, owner: Seq<u8>, kind: RecordKind) -> bool {
    match kind_cap(limits, kind) {
        Some(c) => entries.filter(owner_kind_pred(owner, kind)).len() > c,
        None => false,
    }
}

/// Position of the owner's oldest record of `kind`: the first one, since
/// ordinals increase along the table.
pub open spec fn oldest_of(entries: Seq<TableEntry>, owner: Seq<u8>, kind: RecordKind) -> int {
    choose|i: int|
        0 <= i < entries.len() && owner_kind_pred(owner, kind)(entries[i]) && forall|j: int|
            0 <= j < i ==> !owner_kind_pred(owner, kind)(#[trigger] entries[j])
}

/// The entries after enforcing the bound for `owner` and `kind`.
pub open spec fn evict_spec(entries: Seq<TableEntry>, limits: TableLimits, owner: Seq<u8>, kind: RecordKind) -> Seq<TableEntry> {
    if over_cap(entries, limits, owner, kind) {
        entries.remove(oldest_of(entries, owner, kind))
    } else {
        entries
    }
}

/// The insertion decision: entries, next ordinal and result after inserting
/// `value` at local time `now` under `limits`.
pub open spec fn insert_spec(
    entries: Seq<TableEntry>,
    next: u64,
    limits: TableLimits,
    value: GossipTableValue,
    now: u64,
) -> (Seq<TableEntry>, u64, Result<(), GossipTableError>) {
    match find_label(entries, value.label()) {
        None => if next == u64::MAX {
            (entries, next, Err(GossipTableError::InsertFailed))
        } else {
            (
                evict_spec(entries.push(fresh_entry(value, next, now)), limits, value.data.owner(), value.data.kind()),
                (next + 1) as u64,
                Ok(()),
            )
        },
        Some(i) => {
            let old = entries[i];
            if value.data.wallclock_spec() > old.value.data.wallclock_spec() {
                if next == u64::MAX {
                    (entries, next, Err(GossipTableError::InsertFailed))
                } else {
                    (entries.remove(i).push(fresh_entry(value, next, now)), (next + 1) as u64, Ok(()))
                }
            } else if value.data.wallclock_spec() == old.value.data.wallclock_spec()
                && value.content() == old.value.content() {
                let dups = if old.num_push_dups == u8::MAX { u8::MAX } else { (old.num_push_dups + 1) as u8 };
                (
                    entries.update(i, TableEntry { num_push_dups: dups, ..old }),
                    next,
                    Err(GossipTableError::DuplicatePush(dups)),
                )
            } else {
                (entries, next, Err(GossipTableError::InsertFailed))
            }
        },
    }
}

/// The purged list after inserting `value`: the content hash of a replaced
/// or evicted value is added with time `now`.
pub open spec fn purged_after_insert(
    purged: Seq<(Seq<u8>, u64)>,
    entries: Seq<TableEntry>,
    next: u64,
    limits: TableLimits,
    value: GossipTableValue,
    now: u64,
) -> Seq<(Seq<u8>, u64)> {
    match find_label(entries, value.label()) {
        Some(i) => if value.data.wallclock_spec() > entries[i].value.data.wallclock_spec() && next != u64::MAX {
            purged.push((sha256_of(entries[i].value.content()), now))
        } else {
            purged
        },
        None => {
            let pushed = entries.push(fresh_entry(value, next, now));
            if next != u64::MAX && over_cap(pushed, limits, value.data.owner(), value.data.kind()) {
                purged.push((sha256_of(pushed[oldest_of(pushed, value.data.owner(), value.data.kind())].value.content()), now))
            } else {
                purged
            }
        },
    }
}

pub open spec fn purged_view(p: Seq<(Vec<u8>, u64)>) -> Seq<(Seq<u8>, u64)> {
    p.map_values(|e: (Vec<u8>, u64)| (e.0@, e.1))
}

/// Whether an entry is of `kind` and at or past ordinal `since`.
pub open spec fn since_pred(kind: RecordKind, since: u64) -> spec_fn(TableEntry) -> bool {
    |e: TableEntry| e.value.data.kind() == kind && e.ordinal >= since
}

/// Whether an entry is owned by someone other than `id`.
pub open spec fn owned_by_other(id: Seq<u8>) -> spec_fn(TableEntry) -> bool {
    |e: TableEntry| e.value.data.owner() != id
}

/// Whether an entry is owned by `id`.
pub open spec fn owned_by(id: Seq<u8>) -> spec_fn(TableEntry) -> bool {
    |e: TableEntry| e.value.data.owner() == id
}

/// The purged-list records of evicted entries: content hash and time.
pub open spec fn purged_hashes(s: Seq<TableEntry>, now: u64) -> Seq<(Seq<u8>, u64)> {
    s.map_values(|e: TableEntry| (sha256_of(e.value.content()), now))
}

/// A filter keeps the relative order of what it keeps: two kept elements come
/// from two positions of the source in the same order.
proof fn lemma_filter_index_order(s: Seq<TableEntry>, pred: spec_fn(TableEntry) -> bool, a: int, b: int)
    requires
        entries_wf(s, u64::MAX),
        0 <= a < b < s.filter(pred).len(),
    ensures
        s.filter(pred)[a].value.label() != s.filter(pred)[b].value.label(),
        s.filter(pred)[a].ordinal < s.filter(pred)[b].ordinal,
    decreases s.len(),
{
    reveal(Seq::filter);
    let sub = s.drop_last();
    assert(entries_wf(sub, u64::MAX));
    if pred(s.last()) {
        if b < sub.filter(pred).len() {
            lemma_filter_index_order(sub, pred, a, b);
        } else {
            let x = s.filter(pred)[a];
            assert(s.filter(pred) == sub.filter(pred).push(s.last()));
            assert(x == sub.filter(pred)[a]);
            assert(sub.filter(pred).contains(x));
            sub.lemma_filter_contains_rev(pred, x);
            let j = choose|j: int| 0 <= j < sub.len() && sub[j] == x;
            assert(s[j] == sub[j]);
            assert(s.filter(pred)[b] == s.last());
            assert(s[j].value.label() != s[s.len() - 1].value.label());
        }
    } else {
        lemma_filter_index_order(sub, pred, a, b);
    }
}

/// Whether an entry's content hash falls in the shard and is absent from the
/// bloom filter.
pub open spec fn missing_pred(mask: u64, mask_bits: u32, bloom: HashBloom) -> spec_fn(TableEntry) -> bool {
    |e: TableEntry|
        in_shard(mask, mask_bits, sha256_of(e.value.content())) && !bloom_members(bloom).contains(
            sha256_of(e.value.content()),
        )
}


pub open spec fn values_of(s: Seq<TableEntry>) -> Seq<GossipTableValue> {
    s.map_values(|e: TableEntry| e.value)
}

pub open spec fn derefs<'a>(s: Seq<&'a GossipTableValue>) -> Seq<GossipTableValue> {
    s.map_values(|v: &'a GossipTableValue| *v)
}

/// Where entries are well formed, an entry that carries `label` is the one
/// `find_label` reports.
pub proof fn lemma_find_label_unique(entries: Seq<TableEntry>, next: u64, label: Label, k: int)
    requires
        entries_wf(entries, next),
        0 <= k < entries.len(),
        entries[k].value.label() == label,
    ensures
        find_label(entries, label) == Some(k),
{
    lemma_find_label(entries, label);
    let i = find_label(entries, label)->Some_0;
    if i != k {
        if i < k {
            assert(entries[i].value.label() != entries[k].value.label());
        } else {
            assert(entries[k].value.label() != entries[i].value.label());
        }
    }
}

proof fn lemma_remove_wf(entries: Seq<TableEntry>, next: u64, i: int)
    requires
        entries_wf(entries, next),
        0 <= i < entries.len(),
    ensures
        entries_wf(entries.remove(i), next),
{
    let rem = entries.remove(i);
    assert forall|a: int, b: int| 0 <= a < b < rem.len() implies
        (#[trigger] rem[a]).value.label() != (#[trigger] rem[b]).value.label() && rem[a].ordinal < rem[b].ordinal by {
        let a0 = if a < i { a } else { a + 1 };
        let b0 = if b < i { b } else { b + 1 };
        assert(rem[a] == entries[a0]);
        assert(rem[b] == entries[b0]);
    }
    assert forall|a: int| 0 <= a < rem.len() implies (#[trigger] rem[a]).ordinal < next by {
        let a0 = if a < i { a } else { a + 1 };
        assert(rem[a] == entries[a0]);
    }
}

proof fn lemma_push_fresh_wf(entries: Seq<TableEntry>, next: u64, value: GossipTableValue, now: u64)
    requires
        entries_wf(entries, next),
        next < u64::MAX,
        find_label(entries, value.label()) is None,
    ensures
        entries_wf(entries.push(fresh_entry(value, next, now)), (next + 1) as u64),
{
    lemma_find_label(entries, value.label());
    let e2 = entries.push(fresh_entry(value, next, now));
    assert forall|i: int, j: int| 0 <= i < j < e2.len() implies
        (#[trigger] e2[i]).value.label() != (#[trigger] e2[j]).value.label() by {
        if j == entries.len() {
            assert(e2[i] == entries[i]);
        }
    }
}

/// A prefix without a match filters to nothing.
proof fn lemma_filter_none(s: Seq<TableEntry>, pred: spec_fn(TableEntry) -> bool)
    requires
        forall|j: int| 0 <= j < s.len() ==> !pred(#[trigger] s[j]),
    ensures
        s.filter(pred).len() == 0,
    decreases s.len(),
{
    reveal(Seq::filter);
    if s.len() > 0 {
        lemma_filter_none(s.drop_last(), pred);
    }
}

/// Some position holds a match where the filter is not empty; the first such
/// position exists.
proof fn lemma_first_match(s: Seq<TableEntry>, pred: spec_fn(TableEntry) -> bool, k: int) -> (m: int)
    requires
        0 <= k < s.len(),
        pred(s[k]),
    ensures
        0 <= m <= k,
        pred(s[m]),
        forall|j: int| 0 <= j < m ==> !pred(#[trigger] s[j]),
    decreases k,
{
    if exists|j: int| 0 <= j < k && pred(#[trigger] s[j]) {
        let j = choose|j: int| 0 <= j < k && pred(#[trigger] s[j]);
        lemma_first_match(s, pred, j)
    } else {
        k
    }
}

proof fn lemma_oldest_of(entries: Seq<TableEntry>, owner: Seq<u8>, kind: RecordKind)
    requires
        entries.filter(owner_kind_pred(owner, kind)).len() > 0,
    ensures
        0 <= oldest_of(entries, owner, kind) < entries.len(),
        owner_kind_pred(owner, kind)(entries[oldest_of(entries, owner, kind)]),
        forall|j: int| 0 <= j < oldest_of(entries, owner, kind) ==> !owner_kind_pred(owner, kind)(#[trigger] entries[j]),
{
    let pred = owner_kind_pred(owner, kind);
    let f = entries.filter(pred);
    assert(pred(f[0]));
    assert(f.contains(f[0]));
    entries.lemma_filter_contains_rev(pred, f[0]);
    let k = choose|k: int| 0 <= k < entries.len() && entries[k] == f[0];
    let m = lemma_first_match(entries, pred, k);
    assert(0 <= m < entries.len() && pred(entries[m]) && forall|j: int| 0 <= j < m ==> !pred(#[trigger] entries[j]));
}

/// Enforcing the bound after a push keeps the table well formed and keeps the
/// pushed entry last: with every bound at least one, the evicted entry is an
/// older one.
proof fn lemma_evict(entries: Seq<TableEntry>, next: u64, limits: TableLimits, owner: Seq<u8>, kind: RecordKind)
    requires
        entries_wf(entries, next),
        limits_wf(limits),
        entries.len() > 0,
        owner_kind_pred(owner, kind)(entries.last()),
    ensures
        entries_wf(evict_spec(entries, limits, owner, kind), next),
        evict_spec(entries, limits, owner, kind).len() > 0,
        evict_spec(entries, limits, owner, kind).last() == entries.last(),
{
    if over_cap(entries, limits, owner, kind) {
        let pred = owner_kind_pred(owner, kind);
        lemma_oldest_of(entries, owner, kind);
        let i = oldest_of(entries, owner, kind);
        if i == entries.len() - 1 {
            let init = entries.drop_last();
            assert forall|j: int| 0 <= j < init.len() implies !pred(#[trigger] init[j]) by {
                assert(init[j] == entries[j]);
            }
            lemma_filter_none(init, pred);
            reveal(Seq::filter);
            assert(entries.filter(pred) == init.filter(pred).push(entries.last()));
        }
        lemma_remove_wf(entries, next, i);
        assert(entries.remove(i).last() == entries.last());
    }
}

/// A stored insertion leaves the new value last and takes one ordinal.
proof fn lemma_ok_insert_ends_with(entries: Seq<TableEntry>, next: u64, limits: TableLimits, value: GossipTableValue, now: u64)
    requires
        entries_wf(entries, next),
        limits_wf(limits),
        insert_spec(entries, next, limits, value, now).2 is Ok,
    ensures
        entries_wf(insert_spec(entries, next, limits, value, now).0, insert_spec(entries, next, limits, value, now).1),
        insert_spec(entries, next, limits, value, now).0.len() > 0,
        insert_spec(entries, next, limits, value, now).0.last() == fresh_entry(value, next, now),
        insert_spec(entries, next, limits, value, now).1 == next + 1,
{
    lemma_find_label(entries, value.label());
    match find_label(entries, value.label()) {
        None => {
            lemma_push_fresh_wf(entries, next, value, now);
            lemma_evict(entries.push(fresh_entry(value, next, now)), (next + 1) as u64, limits, value.data.owner(), value.data.kind());
        },
        Some(i) => {
            lemma_remove_wf(entries, next, i);
            let rem = entries.remove(i);
            let e2 = rem.push(fresh_entry(value, next, now));
            assert forall|a: int, b: int| 0 <= a < b < e2.len() implies
                (#[trigger] e2[a]).value.label() != (#[trigger] e2[b]).value.label() by {
                if b == rem.len() {
                    let a0 = if a < i { a } else { a + 1 };
                    assert(e2[a] == entries[a0]);
                    assert(entries[a0].value.label() != entries[i].value.label());
                }
            }
        },
    }
}

/// Every insertion keeps the table well formed: labels stay unique (at most
/// one record per label), ordinals stay strictly increasing and below the next
/// ordinal.
pub proof fn lemma_insert_preserves_wf(entries: Seq<TableEntry>, next: u64, limits: TableLimits, value: GossipTableValue, now: u64)
    requires
        entries_wf(entries, next),
        limits_wf(limits),
    ensures
        entries_wf(insert_spec(entries, next, limits, value, now).0, insert_spec(entries, next, limits, value, now).1),
{
    lemma_find_label(entries, value.label());
    let (e2, n2, r) = insert_spec(entries, next, limits, value, now);
    if r is Ok {
        lemma_ok_insert_ends_with(entries, next, limits, value, now);
    } else {
        match find_label(entries, value.label()) {
            None => {},
            Some(i) => {
                assert forall|a: int, b: int| 0 <= a < b < e2.len() implies
                    (#[trigger] e2[a]).value.label() != (#[trigger] e2[b]).value.label() by {
                    assert(entries[a].value.label() != entries[b].value.label());
                }
                assert forall|a: int, b: int| 0 <= a < b < e2.len() implies
                    (#[trigger] e2[a]).ordinal < (#[trigger] e2[b]).ordinal by {
                    assert(entries[a].ordinal < entries[b].ordinal);
                }
            },
        }
    }
}

/// The table after a sequence of insertions, each with its local time.
pub open spec fn insert_all(
    entries: Seq<TableEntry>,
    next: u64,
    limits: TableLimits,
    inserts: Seq<(GossipTableValue, u64)>,
) -> (Seq<TableEntry>, u64)
    decreases inserts.len(),
{
    if inserts.len() == 0 {
        (entries, next)
    } else {
        let (e1, n1) = insert_all(entries, next, limits, inserts.drop_last());
        let r = insert_spec(e1, n1, limits, inserts.last().0, inserts.last().1);
        (r.0, r.1)
    }
}

/// After any sequence of insertions into a well-formed table, no two entries
/// share a label.
pub proof fn lemma_at_most_one_per_label(
    entries: Seq<TableEntry>,
    next: u64,
    limits: TableLimits,
    inserts: Seq<(GossipTableValue, u64)>,
)
    requires
        entries_wf(entries, next),
        limits_wf(limits),
    ensures
        entries_wf(insert_all(entries, next, limits, inserts).0, insert_all(entries, next, limits, inserts).1),
        forall|i: int, j: int|
            0 <= i < j < insert_all(entries, next, limits, inserts).0.len() ==> (#[trigger] insert_all(
                entries,
                next,
                limits,
                inserts,
            ).0[i]).value.label() != (#[trigger] insert_all(entries, next, limits, inserts).0[j]).value.label(),
    decreases inserts.len(),
{
    if inserts.len() > 0 {
        lemma_at_most_one_per_label(entries, next, limits, inserts.drop_last());
        let (e1, n1) = insert_all(entries, next, limits, inserts.drop_last());
        lemma_insert_preserves_wf(e1, n1, limits, inserts.last().0, inserts.last().1);
    }
}

/// Entries agree on values and ordinals: only duplicate counts may differ.
pub open spec fn same_values_and_ordinals(a: Seq<TableEntry>, b: Seq<TableEntry>) -> bool {
    &&& a.len() == b.len()
    &&& forall|i: int| 0 <= i < a.len() ==> (#[trigger] a[i]).value == b[i].value && a[i].ordinal == b[i].ordinal
}

/// Once a value is stored, inserting it again changes no value, ordinal or
/// the next ordinal, and reports the first repeat as `DuplicatePush(1)` and
/// the second as `DuplicatePush(2)`.
pub proof fn lemma_repeat_insert_is_duplicate(
    entries: Seq<TableEntry>,
    next: u64,
    limits: TableLimits,
    value: GossipTableValue,
    t1: u64,
    t2: u64,
    t3: u64,
)
    requires
        entries_wf(entries, next),
        limits_wf(limits),
        insert_spec(entries, next, limits, value, t1).2 is Ok,
    ensures
        ({
            let (e1, n1, r1) = insert_spec(entries, next, limits, value, t1);
            let (e2, n2, r2) = insert_spec(e1, n1, limits, value, t2);
            let (e3, n3, r3) = insert_spec(e2, n2, limits, value, t3);
            &&& r2 == Err::<(), GossipTableError>(GossipTableError::DuplicatePush(1))
            &&& r3 == Err::<(), GossipTableError>(GossipTableError::DuplicatePush(2))
            &&& n2 == n1 && n3 == n1
            &&& same_values_and_ordinals(e1, e2)
            &&& same_values_and_ordinals(e1, e3)
        }),
{
    let (e1, n1, r1) = insert_spec(entries, next, limits, value, t1);
    lemma_ok_insert_ends_with(entries, next, limits, value, t1);
    let k = e1.len() - 1;
    assert(e1[k] == fresh_entry(value, next, t1));
    lemma_find_label_unique(e1, n1, value.label(), k);
    let (e2, n2, r2) = insert_spec(e1, n1, limits, value, t2);
    assert(e2 == e1.update(k, TableEntry { num_push_dups: 1, ..e1[k] }));
    lemma_insert_preserves_wf(e1, n1, limits, value, t2);
    assert(e2[k].value.label() == value.label());
    lemma_find_label_unique(e2, n2, value.label(), k);
    let (e3, n3, r3) = insert_spec(e2, n2, limits, value, t3);
    assert(e3 == e2.update(k, TableEntry { num_push_dups: 2, ..e2[k] }));
}

/// A record older than the stored record for its label is rejected with
/// `InsertFailed` and leaves the table as it was.
pub proof fn lemma_stale_insert_rejected(entries: Seq<TableEntry>, next: u64, limits: TableLimits, value: GossipTableValue, now: u64)
    requires
        entries_wf(entries, next),
        find_label(entries, value.label()) matches Some(i)
            && entries[i].value.data.wallclock_spec() > value.data.wallclock_spec(),
    ensures
        insert_spec(entries, next, limits, value, now) == (entries, next, Err::<(), GossipTableError>(GossipTableError::InsertFailed)),
{
}

/// Of two records for one label, the one with the later wallclock ends up
/// stored whichever is inserted first, provided the table held nothing newer
/// for the label and two ordinals are left.
pub proof fn lemma_newer_wins_either_order(
    entries: Seq<TableEntry>,
    next: u64,
    limits: TableLimits,
    older: GossipTableValue,
    newer: GossipTableValue,
    t1: u64,
    t2: u64,
)
    requires
        entries_wf(entries, next),
        limits_wf(limits),
        next < u64::MAX - 1,
        older.label() == newer.label(),
        older.data.wallclock_spec() < newer.data.wallclock_spec(),
        find_label(entries, newer.label()) matches Some(i) ==> entries[i].value.data.wallclock_spec() < newer.data.wallclock_spec(),
    ensures
        ({
            let (a1, an1, _) = insert_spec(entries, next, limits, older, t1);
            let (a2, an2, _) = insert_spec(a1, an1, limits, newer, t2);
            find_label(a2, newer.label()) matches Some(k) && a2[k].value == newer
        }),
        ({
            let (b1, bn1, _) = insert_spec(entries, next, limits, newer, t1);
            let (b2, bn2, _) = insert_spec(b1, bn1, limits, older, t2);
            find_label(b2, newer.label()) matches Some(k) && b2[k].value == newer
        }),
{
    let label = newer.label();
    lemma_find_label(entries, label);
    // older first, then newer
    let (a1, an1, ar1) = insert_spec(entries, next, limits, older, t1);
    lemma_insert_preserves_wf(entries, next, limits, older, t1);
    lemma_find_label(a1, label);
    assert(find_label(a1, label) matches Some(i) ==> a1[i].value.data.wallclock_spec() < newer.data.wallclock_spec()) by {
        if ar1 is Ok {
            lemma_ok_insert_ends_with(entries, next, limits, older, t1);
            lemma_find_label_unique(a1, an1, label, a1.len() - 1);
        } else {
            assert(a1.len() == entries.len());
            assert forall|j: int| 0 <= j < a1.len() implies (#[trigger] a1[j]).value == entries[j].value by {}
        }
    }
    let (a2, an2, ar2) = insert_spec(a1, an1, limits, newer, t2);
    assert(an1 < u64::MAX);
    lemma_ok_insert_ends_with(a1, an1, limits, newer, t2);
    lemma_find_label_unique(a2, an2, label, a2.len() - 1);
    // newer first, then older
    let (b1, bn1, _) = insert_spec(entries, next, limits, newer, t1);
    lemma_ok_insert_ends_with(entries, next, limits, newer, t1);
    lemma_find_label_unique(b1, bn1, label, b1.len() - 1);
    let (b2, bn2, _) = insert_spec(b1, bn1, limits, older, t2);
    lemma_find_label_unique(b2, bn2, label, b1.len() - 1);
}

impl GossipTable {
    pub closed spec fn entries_view(&self) -> Seq<TableEntry> {
        self.entries@
    }

    pub closed spec fn next_ordinal(&self) -> u64 {
        self.cursor.0
    }

    pub closed spec fn purged_spec(&self) -> Seq<(Seq<u8>, u64)> {
        purged_view(self.purged@)
    }

    pub closed spec fn limits_spec(&self) -> TableLimits {
        self.limits
    }

    /// Labels unique, ordinals increasing and below the next ordinal, every
    /// per-owner bound at least one.
    pub open spec fn wf(&self) -> bool {
        entries_wf(self.entries_view(), self.next_ordinal()) && limits_wf(self.limits_spec())
    }

    /// An empty table with the given per-owner bounds.
    pub fn with_limits(limits: TableLimits) -> (r: GossipTable)
        requires
            limits_wf(limits),
        ensures
            r.wf(),
            r.entries_view().len() == 0,
            r.next_ordinal() == 0,
            r.purged_spec().len() == 0,
            r.limits_spec() == limits,
    {
        let r = GossipTable { entries: Vec::new(), cursor: Cursor(0), purged: Vec::new(), limits };
        assert(r.purged_spec() =~= Seq::empty());
        r
    }

    /// An empty table with the default per-owner bounds.
    pub fn new() -> (r: GossipTable)
        ensures
            r.wf(),
            r.entries_view().len() == 0,
            r.next_ordinal() == 0,
            r.purged_spec().len() == 0,
            r.limits_spec() == (TableLimits {
                max_votes: DEFAULT_MAX_VOTES,
                max_epoch_slots: DEFAULT_MAX_EPOCH_SLOTS,
                max_duplicate_shreds: DEFAULT_MAX_DUPLICATE_SHREDS,
            }),
    {
        Self::with_limits(TableLimits {
            max_votes: DEFAULT_MAX_VOTES,
            max_epoch_slots: DEFAULT_MAX_EPOCH_SLOTS,
            max_duplicate_shreds: DEFAULT_MAX_DUPLICATE_SHREDS,
        })
    }

    /// Content hashes of evicted values, with the time of eviction.
    pub fn purged(&self) -> (r: &Vec<(Vec<u8>, u64)>)
        ensures
            purged_view(r@) == self.purged_spec(),
    {
        &self.purged
    }

    /// Forgets purged hashes recorded before `min_time`, keeping the purged
    /// list to a recent window.
    pub fn trim_purged(&mut self, min_time: u64)
        requires
            old(self).wf(),
        ensures
            final(self).wf(),
            final(self).entries_view() == old(self).entries_view(),
            final(self).next_ordinal() == old(self).next_ordinal(),
            final(self).limits_spec() == old(self).limits_spec(),
            final(self).purged_spec() == old(self).purged_spec().filter(|p: (Seq<u8>, u64)| p.1 >= min_time),
    {
        let ghost pred = |p: (Seq<u8>, u64)| p.1 >= min_time;
        let ghost all = purged_view(self.purged@);
        let mut kept: Vec<(Vec<u8>, u64)> = Vec::new();
        let mut i: usize = 0;
        while i < self.purged.len()
            invariant
                0 <= i <= self.purged@.len(),
                all == purged_view(self.purged@),
                pred == (|p: (Seq<u8>, u64)| p.1 >= min_time),
                purged_view(kept@) == all.subrange(0, i as int).filter(pred),
            decreases self.purged@.len() - i,
        {
            let ghost sub1 = all.subrange(0, i + 1);
            proof {
                assert(sub1.drop_last() =~= all.subrange(0, i as int));
                reveal(Seq::filter);
            }
            if self.purged[i].1 >= min_time {
                let h = vstd::slice::slice_to_vec(self.purged[i].0.as_slice());
                let ghost before = kept@;
                kept.push((h, self.purged[i].1));
                assert(purged_view(kept@) =~= purged_view(before).push(all[i as int]));
            }
            i = i + 1;
        }
        assert(all.subrange(0, all.len() as int) =~= all);
        self.purged = kept;
    }

    /// The shred version that `identity` advertises in its stored contact
    /// record, if the table holds one: the network version its gossip is
    /// judged by.
    pub fn shred_version(&self, identity: &[u8]) -> (r: Option<u16>)
        requires
            self.wf(),
        ensures
            match find_label(self.entries_view(), contact_label(identity@)) {
                Some(i) => r == contact_shred_version(self.entries_view()[i].value.data),
                None => r is None,
            },
    {
        let ghost label = contact_label(identity@);
        let mut i: usize = 0;
        while i < self.entries.len()
            invariant
                self.wf(),
                label == contact_label(identity@),
                0 <= i <= self.entries@.len(),
                forall|j: int| 0 <= j < i ==> (#[trigger] self.entries@[j]).value.label() != label,
            decreases self.entries@.len() - i,
        {
            let e = &self.entries[i];
            let is_contact = match &e.value.data {
                GossipTableData::ContactInfo(_) => true,
                _ => false,
            };
            if is_contact && bytes_eq(e.value.data.pubkey().as_slice(), identity) {
                assert(self.entries@[i as int].value.label() == label);
                proof {
                    lemma_find_label_unique(self.entries@, self.cursor.0, label, i as int);
                }
                return match &e.value.data {
                    GossipTableData::ContactInfo(ci) => Some(ci.shred_version),
                    _ => None,
                };
            }
            assert(self.entries@[i as int].value.label() != label);
            i = i + 1;
        }
        proof {
            lemma_find_label(self.entries@, label);
        }
        None
    }

    /// Number of stored values.
    pub fn len(&self) -> (r: usize)
        ensures
            r == self.entries_view().len(),
    {
        self.entries.len()
    }

    /// The stored value for the label of `value`, with its bookkeeping.
    pub fn get(&self, value: &GossipTableValue) -> (r: Option<&TableEntry>)
        requires
            self.wf(),
        ensures
            match find_label(self.entries_view(), value.label()) {
                Some(i) => r matches Some(e) && *e == self.entries_view()[i],
                None => r is None,
            },
    {
        match self.find(value) {
            Some(i) => Some(&self.entries[i]),
            None => None,
        }
    }

    fn find(&self, value: &GossipTableValue) -> (r: Option<usize>)
        requires
            self.wf(),
        ensures
            match r {
                Some(i) => find_label(self.entries@, value.label()) == Some(i as int),
                None => find_label(self.entries@, value.label()) is None,
            },
    {
        let mut i: usize = 0;
        while i < self.entries.len()
            invariant
                self.wf(),
                0 <= i <= self.entries@.len(),
                forall|j: int| 0 <= j < i ==> (#[trigger] self.entries@[j]).value.label() != value.label(),
            decreases self.entries@.len() - i,
        {
            if self.entries[i].value.same_label(value) {
                assert(self.entries@[i as int].value.label() == value.label());
                let ghost k = choose|k: int| 0 <= k < self.entries@.len() && (#[trigger] self.entries@[k]).value.label() == value.label();
                assert(entries_wf(self.entries@, self.cursor.0));
                assert(k == i) by {
                    if k != i as int {
                        if k < i {
                        } else {
                            assert(self.entries@[i as int].value.label() != self.entries@[k].value.label());
                        }
                    }
                }
                return Some(i);
            }
            i = i + 1;
        }
        None
    }

    /// The stored values of `kind` with ordinal at or past the cursor, in
    /// ordinal order; the cursor moves past the last one returned.
    pub fn get_since(&self, kind: RecordKind, cursor: &mut Cursor) -> (r: Vec<&GossipTableValue>)
        requires
            self.wf(),
        ensures
            derefs(r@) == values_of(self.entries_view().filter(since_pred(kind, old(cursor).0))),
            final(cursor).0 == (if self.entries_view().filter(since_pred(kind, old(cursor).0)).len() == 0 {
                old(cursor).0
            } else {
                (self.entries_view().filter(since_pred(kind, old(cursor).0)).last().ordinal + 1) as u64
            }),
    {
        let since = cursor.0;
        let ghost pred = since_pred(kind, since);
        let mut out: Vec<&GossipTableValue> = Vec::new();
        let mut i: usize = 0;
        while i < self.entries.len()
            invariant
                self.wf(),
                0 <= i <= self.entries@.len(),
                pred == since_pred(kind, since),
                since == old(cursor).0,
                derefs(out@) == values_of(self.entries@.subrange(0, i as int).filter(pred)),
                cursor.0 == (if self.entries@.subrange(0, i as int).filter(pred).len() == 0 {
                    since
                } else {
                    (self.entries@.subrange(0, i as int).filter(pred).last().ordinal + 1) as u64
                }),
            decreases self.entries@.len() - i,
        {
            let e = &self.entries[i];
            let ghost sub = self.entries@.subrange(0, i as int);
            let ghost sub1 = self.entries@.subrange(0, i + 1);
            proof {
                assert(sub1.drop_last() =~= sub);
                reveal(Seq::filter);
                assert(sub1.filter(pred) == if pred(*e) { sub.filter(pred).push(*e) } else { sub.filter(pred) });
            }
            if e.value.data.record_kind() == kind && e.ordinal >= since {
                assert(pred(*e));
                let ghost out_before = out@;
                out.push(&e.value);
                cursor.consume(e.ordinal);
                proof {
                    assert(derefs(out@) =~= derefs(out_before).push(e.value));
                    assert(sub1.filter(pred) == sub.filter(pred).push(*e));
                    assert(values_of(sub.filter(pred).push(*e)) =~= values_of(sub.filter(pred)).push(e.value));
                    assert(derefs(out@) =~= values_of(sub1.filter(pred)));
                    if sub.filter(pred).len() > 0 {
                        let last = sub.filter(pred).last();
                        assert(sub.filter(pred).contains(last)) by {
                            assert(sub.filter(pred)[sub.filter(pred).len() - 1] == last);
                        }
                        sub.lemma_filter_contains_rev(pred, last);
                        let j = choose|j: int| 0 <= j < sub.len() && sub[j] == last;
                        assert(self.entries@[j].ordinal < self.entries@[i as int].ordinal);
                    }
                }
            }
            else {
                assert(!pred(*e));
            }
            i = i + 1;
        }
        assert(self.entries@.subrange(0, self.entries@.len() as int) =~= self.entries@);
        out
    }

    /// Evicts every record owned by `identity`; the content hash of each
    /// evicted value joins the purged list with time `now`.
    pub fn purge_identity(&mut self, identity: &[u8], now: u64)
        requires
            old(self).wf(),
        ensures
            final(self).wf(),
            final(self).entries_view() == old(self).entries_view().filter(owned_by_other(identity@)),
            final(self).next_ordinal() == old(self).next_ordinal(),
            final(self).limits_spec() == old(self).limits_spec(),
            final(self).purged_spec() == old(self).purged_spec() + purged_hashes(
                old(self).entries_view().filter(owned_by(identity@)),
                now,
            ),
    {
        let ghost old_entries = self.entries@;
        let ghost keep = owned_by_other(identity@);
        let ghost drop = owned_by(identity@);
        let mut i: usize = 0;
        let ghost mut k: int = 0;
        while i < self.entries.len()
            invariant
                entries_wf(old_entries, self.cursor.0),
                self.cursor == old(self).cursor,
                self.limits == old(self).limits,
                limits_wf(self.limits),
                keep == owned_by_other(identity@),
                drop == owned_by(identity@),
                0 <= k <= old_entries.len(),
                0 <= i <= self.entries@.len(),
                self.entries@.len() - i == old_entries.len() - k,
                self.entries@.subrange(0, i as int) == old_entries.subrange(0, k).filter(keep),
                self.entries@.subrange(i as int, self.entries@.len() as int) == old_entries.subrange(k, old_entries.len() as int),
                purged_view(self.purged@) == purged_view(old(self).purged@) + purged_hashes(
                    old_entries.subrange(0, k).filter(drop),
                    now,
                ),
            decreases self.entries@.len() - i,
        {
            let ghost sub1 = old_entries.subrange(0, k + 1);
            proof {
                assert(self.entries@[i as int] == old_entries[k]) by {
                    assert(self.entries@.subrange(i as int, self.entries@.len() as int)[0] == old_entries.subrange(k, old_entries.len() as int)[0]);
                }
                assert(sub1.drop_last() =~= old_entries.subrange(0, k));
                reveal(Seq::filter);
            }
            if bytes_eq(self.entries[i].value.data.pubkey().as_slice(), identity) {
                assert(drop(old_entries[k]) && !keep(old_entries[k]));
                let h = self.entries[i].value.content_hash();
                let ghost before = self.entries@;
                let ghost purged_before = self.purged@;
                let _gone = self.entries.remove(i);
                self.purged.push((h, now));
                proof {
                    assert(self.entries@.subrange(0, i as int) =~= before.subrange(0, i as int));
                    assert(self.entries@.subrange(i as int, self.entries@.len() as int) =~= before.subrange(i + 1, before.len() as int));
                    assert(before.subrange(i + 1, before.len() as int) =~= before.subrange(i as int, before.len() as int).drop_first());
                    assert(old_entries.subrange(k + 1, old_entries.len() as int) =~= old_entries.subrange(k, old_entries.len() as int).drop_first());
                    assert(purged_hashes(sub1.filter(drop), now) =~= purged_hashes(old_entries.subrange(0, k).filter(drop), now).push(
                        (sha256_of(old_entries[k].value.content()), now),
                    ));
                    assert(purged_view(self.purged@) =~= purged_view(purged_before).push((sha256_of(old_entries[k].value.content()), now)));
                    assert(purged_view(self.purged@) =~= purged_view(old(self).purged@) + purged_hashes(sub1.filter(drop), now));
                }
            } else {
                assert(keep(old_entries[k]) && !drop(old_entries[k]));
                proof {
                    let next_entries = self.entries@;
                    assert(next_entries.subrange(0, i + 1) =~= next_entries.subrange(0, i as int).push(old_entries[k]));
                    assert(next_entries.subrange(i + 1, next_entries.len() as int) =~= next_entries.subrange(i as int, next_entries.len() as int).drop_first());
                    assert(old_entries.subrange(k + 1, old_entries.len() as int) =~= old_entries.subrange(k, old_entries.len() as int).drop_first());
                }
                i = i + 1;
            }
            proof {
                k = k + 1;
            }
        }
        proof {
            assert(old_entries.subrange(0, k) =~= old_entries);
            assert(self.entries@ =~= self.entries@.subrange(0, i as int));
            let kept = old_entries.filter(keep);
            assert forall|a: int, b: int| 0 <= a < b < kept.len() implies
                (#[trigger] kept[a]).value.label() != (#[trigger] kept[b]).value.label()
                && kept[a].ordinal < kept[b].ordinal by {
                lemma_filter_index_order(old_entries, keep, a, b);
            }
            assert forall|a: int| 0 <= a < kept.len() implies (#[trigger] kept[a]).ordinal < self.cursor.0 by {
                assert(kept.contains(kept[a]));
                old_entries.lemma_filter_contains_rev(keep, kept[a]);
            }
        }
    }

    /// The stored values that the requester of `filter` probably lacks: those
    /// whose content hash falls in the filter's shard and is not in its bloom
    /// filter, in ordinal order. A filter without bits asks for nothing.
    pub fn values_matching(&self, filter: &DataFilter) -> (r: Vec<&GossipTableValue>)
        requires
            self.wf(),
        ensures
            bloom_num_bits(filter.bloom()) == 0 ==> r@.len() == 0,
            bloom_num_bits(filter.bloom()) > 0 ==> derefs(r@) == values_of(
                self.entries_view().filter(missing_pred(filter.mask_spec(), filter.mask_bits_spec(), filter.bloom())),
            ),
    {
        let mut out: Vec<&GossipTableValue> = Vec::new();
        let ghost pred = missing_pred(filter.mask_spec(), filter.mask_bits_spec(), filter.bloom());
        let mut i: usize = 0;
        while i < self.entries.len()
            invariant
                0 <= i <= self.entries@.len(),
                pred == missing_pred(filter.mask_spec(), filter.mask_bits_spec(), filter.bloom()),
                bloom_num_bits(filter.bloom()) == 0 ==> out@.len() == 0,
                bloom_num_bits(filter.bloom()) > 0 ==> derefs(out@) == values_of(self.entries@.subrange(0, i as int).filter(pred)),
            decreases self.entries@.len() - i,
        {
            let e = &self.entries[i];
            let ghost sub = self.entries@.subrange(0, i as int);
            let ghost sub1 = self.entries@.subrange(0, i + 1);
            proof {
                assert(sub1.drop_last() =~= sub);
                reveal(Seq::filter);
            }
            let hash = e.value.content_hash();
            if filter.test_mask(hash.as_slice()) {
                match filter.contains(hash.as_slice()) {
                    None => {
                        return out;
                    },
                    Some(true) => {
                        assert(!pred(*e));
                    },
                    Some(false) => {
                        assert(pred(*e));
                        let ghost out_before = out@;
                        out.push(&e.value);
                        proof {
                            assert(derefs(out@) =~= derefs(out_before).push(e.value));
                            assert(sub1.filter(pred) == sub.filter(pred).push(*e));
                            assert(values_of(sub.filter(pred).push(*e)) =~= values_of(sub.filter(pred)).push(e.value));
                        }
                    },
                }
            } else {
                assert(!pred(*e));
            }
            i = i + 1;
        }
        assert(self.entries@.subrange(0, self.entries@.len() as int) =~= self.entries@);
        out
    }

    fn push_fresh(&mut self, value: GossipTableValue, now: u64)
        requires
            old(self).wf(),
            old(self).cursor.0 < u64::MAX,
            find_label(old(self).entries@, value.label()) is None,
        ensures
            final(self).wf(),
            final(self).entries@ == old(self).entries@.push(fresh_entry(value, old(self).cursor.0, now)),
            final(self).cursor.0 == old(self).cursor.0 + 1,
            final(self).purged@ == old(self).purged@,
            final(self).limits == old(self).limits,
    {
        let ghost old_entries = self.entries@;
        let next = self.cursor.0;
        self.entries.push(TableEntry { value, ordinal: next, local_timestamp: now, num_push_dups: 0 });
        self.cursor.consume(next);
        assert forall|i: int, j: int| 0 <= i < j < self.entries@.len() implies
            (#[trigger] self.entries@[i]).value.label() != (#[trigger] self.entries@[j]).value.label() by {
            if j == old_entries.len() {
                assert(self.entries@[i] == old_entries[i]);
            }
        }
    }

    fn cap_of(&self, kind: RecordKind) -> (r: Option<u64>)
        ensures
            r == kind_cap(self.limits, kind),
    {
        match kind {
            RecordKind::Vote => Some(self.limits.max_votes),
            RecordKind::EpochSlots => Some(self.limits.max_epoch_slots),
            RecordKind::DuplicateShred => Some(self.limits.max_duplicate_shreds),
            _ => None,
        }
    }

    /// Evicts the owner's oldest record of `kind` where the owner holds more
    /// than the bound allows.
    fn enforce_cap(&mut self, owner: &[u8], kind: RecordKind, now: u64)
        requires
            old(self).wf(),
            old(self).entries@.len() > 0,
            owner_kind_pred(owner@, kind)(old(self).entries@.last()),
        ensures
            final(self).wf(),
            final(self).entries@ == evict_spec(old(self).entries@, old(self).limits, owner@, kind),
            final(self).cursor == old(self).cursor,
            final(self).limits == old(self).limits,
            purged_view(final(self).purged@) == if over_cap(old(self).entries@, old(self).limits, owner@, kind) {
                purged_view(old(self).purged@).push(
                    (sha256_of(old(self).entries@[oldest_of(old(self).entries@, owner@, kind)].value.content()), now),
                )
            } else {
                purged_view(old(self).purged@)
            },
    {
        let ghost entries = self.entries@;
        let ghost pred = owner_kind_pred(owner@, kind);
        proof {
            lemma_evict(entries, self.cursor.0, self.limits, owner@, kind);
        }
        let cap = match self.cap_of(kind) {
            Some(c) => c,
            None => return,
        };
        let mut count: u64 = 0;
        let mut first: usize = 0;
        let mut i: usize = 0;
        while i < self.entries.len()
            invariant
                self.entries@ == entries,
                pred == owner_kind_pred(owner@, kind),
                0 <= i <= entries.len(),
                count == entries.subrange(0, i as int).filter(pred).len(),
                count <= i,
                count == 0 ==> forall|j: int| 0 <= j < i ==> !pred(#[trigger] entries[j]),
                count > 0 ==> first < i && pred(entries[first as int]) && forall|j: int| 0 <= j < first ==> !pred(#[trigger] entries[j]),
            decreases entries.len() - i,
        {
            let e = &self.entries[i];
            let is_match = e.value.data.record_kind() == kind && bytes_eq(e.value.data.pubkey().as_slice(), owner);
            proof {
                let sub1 = entries.subrange(0, i + 1);
                assert(sub1.drop_last() =~= entries.subrange(0, i as int));
                reveal(Seq::filter);
                assert(is_match == pred(entries[i as int]));
            }
            if is_match {
                if count == 0 {
                    first = i;
                }
                count = count + 1;
            }
            i = i + 1;
        }
        assert(entries.subrange(0, entries.len() as int) =~= entries);
        if count <= cap {
            return;
        }
        proof {
            lemma_oldest_of(entries, owner@, kind);
            let k = oldest_of(entries, owner@, kind);
            if k < first {
            } else if k > first {
                assert(pred(entries[first as int]));
            }
            assert(k == first);
        }
        let h = self.entries[first].value.content_hash();
        let _gone = self.entries.remove(first);
        let ghost purged_before = self.purged@;
        self.purged.push((h, now));
        assert(purged_view(self.purged@) =~= purged_view(purged_before).push((sha256_of(entries[first as int].value.content()), now)));
    }

    fn replace_at(&mut self, i: usize, value: GossipTableValue, now: u64)
        requires
            old(self).wf(),
            old(self).cursor.0 < u64::MAX,
            i < old(self).entries@.len(),
            old(self).entries@[i as int].value.label() == value.label(),
        ensures
            final(self).wf(),
            final(self).entries@ == old(self).entries@.remove(i as int).push(fresh_entry(value, old(self).cursor.0, now)),
            final(self).cursor.0 == old(self).cursor.0 + 1,
            final(self).limits == old(self).limits,
            purged_view(final(self).purged@) == purged_view(old(self).purged@).push(
                (sha256_of(old(self).entries@[i as int].value.content()), now),
            ),
    {
        let ghost old_entries = self.entries@;
        let next = self.cursor.0;
        let old_hash = self.entries[i].value.content_hash();
        let _removed = self.entries.remove(i);
        self.entries.push(TableEntry { value, ordinal: next, local_timestamp: now, num_push_dups: 0 });
        self.cursor.consume(next);
        self.purged.push((old_hash, now));
        let ghost rem = old_entries.remove(i as int);
        assert forall|a: int, b: int| 0 <= a < b < self.entries@.len() implies
            (#[trigger] self.entries@[a]).value.label() != (#[trigger] self.entries@[b]).value.label() by {
            let a0 = if a < i { a } else { a + 1 };
            assert(self.entries@[a] == old_entries[a0]);
            if b == rem.len() {
                assert(old_entries[a0].value.label() != old_entries[i as int].value.label());
            } else {
                let b0 = if b < i { b } else { b + 1 };
                assert(self.entries@[b] == old_entries[b0]);
            }
        }
        assert forall|a: int, b: int| 0 <= a < b < self.entries@.len() implies
            (#[trigger] self.entries@[a]).ordinal < (#[trigger] self.entries@[b]).ordinal by {
            let a0 = if a < i { a } else { a + 1 };
            assert(self.entries@[a] == old_entries[a0]);
            if b < rem.len() {
                let b0 = if b < i { b } else { b + 1 };
                assert(self.entries@[b] == old_entries[b0]);
            }
        }
        assert forall|a: int| 0 <= a < self.entries@.len() implies
            (#[trigger] self.entries@[a]).ordinal < self.cursor.0 by {
            if a < rem.len() {
                let a0 = if a < i { a } else { a + 1 };
                assert(self.entries@[a] == old_entries[a0]);
            }
        }
        assert(purged_view(self.purged@) =~= purged_view(old(self).purged@).push(
            (sha256_of(old_entries[i as int].value.content()), now),
        ));
    }

    fn count_duplicate(&mut self, i: usize) -> (dups: u8)
        requires
            old(self).wf(),
            i < old(self).entries@.len(),
        ensures
            final(self).wf(),
            dups == (if old(self).entries@[i as int].num_push_dups == u8::MAX {
                u8::MAX
            } else {
                (old(self).entries@[i as int].num_push_dups + 1) as u8
            }),
            final(self).entries@ == old(self).entries@.update(
                i as int,
                TableEntry { num_push_dups: dups, ..old(self).entries@[i as int] },
            ),
            final(self).cursor == old(self).cursor,
            final(self).purged@ == old(self).purged@,
            final(self).limits == old(self).limits,
    {
        let ghost old_entries = self.entries@;
        let d = self.entries[i].num_push_dups;
        let dups: u8 = if d == u8::MAX { u8::MAX } else { d + 1 };
        self.entries[i].num_push_dups = dups;
        assert forall|a: int, b: int| 0 <= a < b < self.entries@.len() implies
            (#[trigger] self.entries@[a]).value.label() != (#[trigger] self.entries@[b]).value.label() by {
            assert(old_entries[a].value.label() != old_entries[b].value.label());
        }
        assert forall|a: int, b: int| 0 <= a < b < self.entries@.len() implies
            (#[trigger] self.entries@[a]).ordinal < (#[trigger] self.entries@[b]).ordinal by {
            assert(old_entries[a].ordinal < old_entries[b].ordinal);
        }
        assert(self.entries@ =~= old_entries.update(
            i as int,
            TableEntry { num_push_dups: dups, ..old_entries[i as int] },
        ));
        dups
    }

    /// Stores `value` if its label is new or it is newer than the stored
    /// record for its label (by wallclock); counts an exact repeat; rejects a
    /// stale or conflicting record. Only stored values get a fresh ordinal; a
    /// replaced value's content hash joins the purged list.
    pub fn insert(&mut self, value: GossipTableValue, now: u64, route: &GossipRoute) -> (r: Result<(), GossipTableError>)
        requires
            old(self).wf(),
        ensures
            final(self).wf(),
            final(self).limits_spec() == old(self).limits_spec(),
            (final(self).entries_view(), final(self).next_ordinal(), r) == insert_spec(
                old(self).entries_view(),
                old(self).next_ordinal(),
                old(self).limits_spec(),
                value,
                now,
            ),
            final(self).purged_spec() == purged_after_insert(
                old(self).purged_spec(),
                old(self).entries_view(),
                old(self).next_ordinal(),
                old(self).limits_spec(),
                value,
                now,
            ),
    {
        let next = self.cursor.0;
        proof {
            lemma_find_label(self.entries@, value.label());
        }
        match self.find(&value) {
            None => {
                if next == u64::MAX {
                    return Err(GossipTableError::InsertFailed);
                }
                let owner = vstd::slice::slice_to_vec(value.data.pubkey().as_slice());
                let kind = value.data.record_kind();
                self.push_fresh(value, now);
                self.enforce_cap(owner.as_slice(), kind, now);
                Ok(())
            },
            Some(i) => {
                let new_clock = value.data.wallclock();
                let old_clock = self.entries[i].value.data.wallclock();
                if new_clock > old_clock {
                    if next == u64::MAX {
                        return Err(GossipTableError::InsertFailed);
                    }
                    self.replace_at(i, value, now);
                    Ok(())
                } else if new_clock == old_clock && value.same_content(&self.entries[i].value) {
                    let dups = self.count_duplicate(i);
                    Err(GossipTableError::DuplicatePush(dups))
                } else {
                    Err(GossipTableError::InsertFailed)
                }
            },
        }
    }
}

} // verus!
