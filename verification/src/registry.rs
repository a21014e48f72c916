//! The replay-protection registry: a verified model of the ledger's record
//! store, one slot per (identity, namespace, bucket) triple.
//!
//! The two operations mirror the on-chain protocol: `pre_create` brings a
//! record into existence permissionlessly, `consume` marks one sequence
//! number used and fails on replay. `pre_fund` models a third party
//! transferring balance to a record's address before it exists. Each
//! operation's effect is given exactly by a spec-level transition function,
//! and the independence and cost laws are proved over those transitions.
//!
//! The runtime executes each invocation atomically and discards every
//! effect of a failing one, so only completed invocations are visible
//! here: the model's record-creation primitives always succeed, and a
//! failing operation leaves the registry untouched. Slots are keyed by the
//! (identity, namespace, bucket) triple itself; the address derivation
//! that names a slot on the ledger lives in `pda` and is checked per
//! invocation by `processor`.

use vstd::prelude::*;
use vstd::array::array_as_slice;
use vstd::slice::slice_index_get;
use vstd::slice::slice_to_vec;

use crate::errors::OpError;
use crate::lifecycle::creation_call_count;
use crate::lifecycle::count_creation_calls;
use crate::lifecycle::funded_balance;
use crate::state::lemma_set_bit_effect;
use crate::state::lemma_set_bit_noop;
use crate::state::lemma_zero_bitmap_unused;
use crate::state::seq_is_used;
use crate::state::spec_set_bit;
use crate::state::zero_bitmap;
use crate::state::BitmapAccount;
use crate::Address;
use crate::BITMAP_BYTES;
use crate::BITS_PER_BUCKET;
use crate::MAX_NAMESPACE_LEN;

verus! {

/// Spec-level picture of one record slot.
pub ghost struct SlotView {
    /// The owning identity, 32 bytes.
    pub identity: Seq<u8>,
    /// The namespace the slot belongs to.
    pub namespace: Seq<u8>,
    /// The bucket index: `sequence / BITS_PER_BUCKET`.
    pub bucket: u64,
    /// The balance held at the record's address.
    pub lamports: u64,
    /// The record's bitmap, once the record exists.
    pub record: Option<Seq<u8>>,
}

/// Spec-level picture of the whole registry.
pub ghost struct RegistryView {
    /// The minimum balance a record must hold to persist.
    pub required_balance: u64,
    /// All slots that have been touched so far.
    pub slots: Seq<SlotView>,
}

/// Whether a slot belongs to the given (identity, namespace, bucket) key.
pub open spec fn slot_matches(s: SlotView, id: Seq<u8>, ns: Seq<u8>, bucket: u64) -> bool {
    s.identity == id && s.namespace == ns && s.bucket == bucket
}

/// The index of the first slot with the given key, or -1 when none has it.
pub open spec fn find_slot(slots: Seq<SlotView>, id: Seq<u8>, ns: Seq<u8>, bucket: u64) -> int
    decreases slots.len(),
{
    if slots.len() == 0 {
        -1
    } else if slot_matches(slots[0], id, ns, bucket) {
        0
    } else {
        let r = find_slot(slots.skip(1), id, ns, bucket);
        if r == -1 {
            -1
        } else {
            r + 1
        }
    }
}

/// Slot keys are unique and every existing record holds a full bitmap.
pub open spec fn view_wf(v: RegistryView) -> bool {
    &&& forall|i: int, j: int|
        0 <= i < j < v.slots.len() ==> !(v.slots[i].identity == v.slots[j].identity
            && v.slots[i].namespace == v.slots[j].namespace && v.slots[i].bucket
            == v.slots[j].bucket)
    &&& forall|i: int|
        0 <= i < v.slots.len() ==> match #[trigger] v.slots[i].record {
            Some(b) => b.len() == BITMAP_BYTES,
            None => true,
        }
}

/// Whether `sequence` has been consumed for (identity, namespace).
pub open spec fn spec_consumed(slots: Seq<SlotView>, id: Seq<u8>, ns: Seq<u8>, sequence: u64) -> bool {
    let i = find_slot(slots, id, ns, sequence / BITS_PER_BUCKET);
    &&& i >= 0
    &&& match slots[i].record {
        Some(b) => seq_is_used(b, sequence),
        None => false,
    }
}

/// A slot that has never been touched: no balance, no record.
pub open spec fn fresh_slot(id: Seq<u8>, ns: Seq<u8>, bucket: u64) -> SlotView {
    SlotView { identity: id, namespace: ns, bucket, lamports: 0, record: None }
}

/// The slot for a key, or a fresh one when the key is new.
pub open spec fn slot_or_fresh(slots: Seq<SlotView>, id: Seq<u8>, ns: Seq<u8>, bucket: u64) -> SlotView {
    let i = find_slot(slots, id, ns, bucket);
    if i >= 0 {
        slots[i]
    } else {
        fresh_slot(id, ns, bucket)
    }
}

/// Write a slot back under its key: in place when the key exists, appended
/// when it is new.
pub open spec fn store_slot(
    slots: Seq<SlotView>,
    id: Seq<u8>,
    ns: Seq<u8>,
    bucket: u64,
    s: SlotView,
) -> Seq<SlotView> {
    let i = find_slot(slots, id, ns, bucket);
    if i >= 0 {
        slots.update(i, s)
    } else {
        slots.push(s)
    }
}

/// A balance after receiving a transfer, capped at the largest
/// representable value.
pub open spec fn saturated_add(balance: u64, amount: u64) -> u64 {
    if balance + amount > u64::MAX {
        u64::MAX
    } else {
        (balance + amount) as u64
    }
}

/// The consume transition: what one Consume invocation does to the
/// registry, and what it returns.
///
/// Both the payer and the owning identity must have signed; the namespace
/// must fit; the sequence must not have been consumed before. On success
/// the result counts the external record-creation calls the invocation
/// issued: none when the record already existed, otherwise one, two or
/// three according to the record's funding state. On any failure the
/// registry is unchanged.
pub open spec fn spec_consume(
    reg: RegistryView,
    id: Seq<u8>,
    ns: Seq<u8>,
    sequence: u64,
    payer_signed: bool,
    identity_signed: bool,
) -> (RegistryView, Result<u64, OpError>) {
    if !payer_signed || !identity_signed {
        (reg, Err(OpError::MissingSigner))
    } else if ns.len() > MAX_NAMESPACE_LEN {
        (reg, Err(OpError::NamespaceTooLong))
    } else {
        let bucket = sequence / BITS_PER_BUCKET;
        let slot = slot_or_fresh(reg.slots, id, ns, bucket);
        let bitmap = match slot.record {
            Some(b) => b,
            None => zero_bitmap(),
        };
        if seq_is_used(bitmap, sequence) {
            (reg, Err(OpError::AlreadyUsed))
        } else {
            let calls: u64 = match slot.record {
                Some(_) => 0,
                None => creation_call_count(slot.lamports, reg.required_balance) as u64,
            };
            let lamports = match slot.record {
                Some(_) => slot.lamports,
                None => funded_balance(slot.lamports, reg.required_balance),
            };
            let slot2 = SlotView {
                identity: slot.identity,
                namespace: slot.namespace,
                bucket: slot.bucket,
                lamports,
                record: Some(spec_set_bit(bitmap, sequence)),
            };
            (
                RegistryView {
                    required_balance: reg.required_balance,
                    slots: store_slot(reg.slots, id, ns, bucket, slot2),
                },
                Ok(calls),
            )
        }
    }
}

/// The pre-create transition: what one PreCreate invocation does.
///
/// Only the payer must have signed: pre-creation is permissionless, so a
/// third party can pay for a record the owning identity will use later. It
/// never touches any bitmap; repeating it on an existing record is a no-op
/// that issues no calls.
pub open spec fn spec_pre_create(
    reg: RegistryView,
    id: Seq<u8>,
    ns: Seq<u8>,
    sequence: u64,
    payer_signed: bool,
) -> (RegistryView, Result<u64, OpError>) {
    if !payer_signed {
        (reg, Err(OpError::MissingSigner))
    } else if ns.len() > MAX_NAMESPACE_LEN {
        (reg, Err(OpError::NamespaceTooLong))
    } else {
        let bucket = sequence / BITS_PER_BUCKET;
        let slot = slot_or_fresh(reg.slots, id, ns, bucket);
        if slot.record is Some {
            (reg, Ok(0))
        } else {
            let slot2 = SlotView {
                identity: slot.identity,
                namespace: slot.namespace,
                bucket: slot.bucket,
                lamports: funded_balance(slot.lamports, reg.required_balance),
                record: Some(zero_bitmap()),
            };
            (
                RegistryView {
                    required_balance: reg.required_balance,
                    slots: store_slot(reg.slots, id, ns, bucket, slot2),
                },
                Ok(creation_call_count(slot.lamports, reg.required_balance) as u64),
            )
        }
    }
}

/// The pre-fund transition: a plain transfer of `amount` to the record's
/// address by anyone, before or after the record exists.
pub open spec fn spec_pre_fund(
    reg: RegistryView,
    id: Seq<u8>,
    ns: Seq<u8>,
    sequence: u64,
    amount: u64,
) -> RegistryView {
    let bucket = sequence / BITS_PER_BUCKET;
    let slot = slot_or_fresh(reg.slots, id, ns, bucket);
    let slot2 = SlotView {
        identity: slot.identity,
        namespace: slot.namespace,
        bucket: slot.bucket,
        lamports: saturated_add(slot.lamports, amount),
        record: slot.record,
    };
    RegistryView {
        required_balance: reg.required_balance,
        slots: store_slot(reg.slots, id, ns, bucket, slot2),
    }
}

/// `find_slot` returns an in-range index of a matching slot, with nothing
/// matching before it, or -1 when no slot matches.
proof fn lemma_find_slot_props(slots: Seq<SlotView>, id: Seq<u8>, ns: Seq<u8>, bucket: u64)
    ensures
        -1 <= find_slot(slots, id, ns, bucket) < slots.len(),
        find_slot(slots, id, ns, bucket) >= 0 ==> slot_matches(
            slots[find_slot(slots, id, ns, bucket)],
            id,
            ns,
            bucket,
        ),
        forall|j: int|
            0 <= j < find_slot(slots, id, ns, bucket) ==> !slot_matches(slots[j], id, ns, bucket),
        find_slot(slots, id, ns, bucket) == -1 ==> forall|j: int|
            0 <= j < slots.len() ==> !slot_matches(slots[j], id, ns, bucket),
    decreases slots.len(),
{
    if slots.len() == 0 {
    } else if slot_matches(slots[0], id, ns, bucket) {
    } else {
        lemma_find_slot_props(slots.skip(1), id, ns, bucket);
        assert forall|j: int| 1 <= j < slots.len() implies slots.skip(1)[j - 1] == slots[j] by {}
    }
}

/// Updating a slot that does not carry the key, with a slot that does not
/// carry it either, leaves the key's lookup unchanged.
proof fn lemma_find_slot_update_other(
    slots: Seq<SlotView>,
    i: int,
    s: SlotView,
    id: Seq<u8>,
    ns: Seq<u8>,
    bucket: u64,
)
    requires
        0 <= i < slots.len(),
        !slot_matches(slots[i], id, ns, bucket),
        !slot_matches(s, id, ns, bucket),
    ensures
        find_slot(slots.update(i, s), id, ns, bucket) == find_slot(slots, id, ns, bucket),
    decreases slots.len(),
{
    let u = slots.update(i, s);
    if i == 0 {
        assert(u.skip(1) =~= slots.skip(1));
    } else {
        assert(u[0] == slots[0]);
        if slot_matches(slots[0], id, ns, bucket) {
        } else {
            assert(u.skip(1) =~= slots.skip(1).update(i - 1, s));
            lemma_find_slot_update_other(slots.skip(1), i - 1, s, id, ns, bucket);
        }
    }
}

/// Updating the key's own slot with another slot carrying the same key
/// keeps the lookup index.
proof fn lemma_find_slot_update_same(
    slots: Seq<SlotView>,
    i: int,
    s: SlotView,
    id: Seq<u8>,
    ns: Seq<u8>,
    bucket: u64,
)
    requires
        find_slot(slots, id, ns, bucket) == i,
        0 <= i,
        slot_matches(s, id, ns, bucket),
    ensures
        find_slot(slots.update(i, s), id, ns, bucket) == i,
    decreases slots.len(),
{
    lemma_find_slot_props(slots, id, ns, bucket);
    let u = slots.update(i, s);
    if i == 0 {
    } else {
        assert(!slot_matches(slots[0], id, ns, bucket));
        assert(u[0] == slots[0]);
        assert(u.skip(1) =~= slots.skip(1).update(i - 1, s));
        lemma_find_slot_update_same(slots.skip(1), i - 1, s, id, ns, bucket);
    }
}

/// Appending a slot resolves a key to its old index if it had one, to the
/// new position if only the appended slot carries it, and to nothing
/// otherwise.
proof fn lemma_find_slot_push(
    slots: Seq<SlotView>,
    e: SlotView,
    id: Seq<u8>,
    ns: Seq<u8>,
    bucket: u64,
)
    ensures
        find_slot(slots.push(e), id, ns, bucket) == (if find_slot(slots, id, ns, bucket) >= 0 {
            find_slot(slots, id, ns, bucket)
        } else if slot_matches(e, id, ns, bucket) {
            slots.len() as int
        } else {
            -1
        }),
    decreases slots.len(),
{
    let p = slots.push(e);
    if slots.len() == 0 {
        assert(p[0] == e);
        assert(p.skip(1) =~= Seq::<SlotView>::empty());
        assert(find_slot(p.skip(1), id, ns, bucket) == -1);
    } else {
        assert(p[0] == slots[0]);
        if slot_matches(slots[0], id, ns, bucket) {
            assert(find_slot(p, id, ns, bucket) == 0);
        } else {
            assert(p.skip(1) =~= slots.skip(1).push(e));
            lemma_find_slot_push(slots.skip(1), e, id, ns, bucket);
            let rt = find_slot(slots.skip(1), id, ns, bucket);
            let rp = find_slot(p.skip(1), id, ns, bucket);
            assert(rp == (if rt >= 0 {
                rt
            } else if slot_matches(e, id, ns, bucket) {
                slots.skip(1).len() as int
            } else {
                -1
            }));
            assert(slots.skip(1).len() == slots.len() - 1);
            assert(find_slot(p, id, ns, bucket) == (if rp == -1 {
                -1
            } else {
                rp + 1
            }));
            assert(find_slot(slots, id, ns, bucket) == (if rt == -1 {
                -1
            } else {
                rt + 1
            }));
        }
    }
}

/// After storing a slot under its key, that key resolves to the stored
/// slot, and every other key resolves exactly as before.
proof fn lemma_store_slot_lookup(
    slots: Seq<SlotView>,
    id: Seq<u8>,
    ns: Seq<u8>,
    bucket: u64,
    s: SlotView,
)
    requires
        slot_matches(s, id, ns, bucket),
    ensures
        ({
            let st = store_slot(slots, id, ns, bucket, s);
            let j = find_slot(st, id, ns, bucket);
            &&& 0 <= j < st.len()
            &&& st[j] == s
            &&& forall|id2: Seq<u8>, ns2: Seq<u8>, b2: u64|
                !(id2 == id && ns2 == ns && b2 == bucket) ==> #[trigger] find_slot(
                    st,
                    id2,
                    ns2,
                    b2,
                ) == find_slot(slots, id2, ns2, b2)
            &&& forall|id2: Seq<u8>, ns2: Seq<u8>, b2: u64|
                !(id2 == id && ns2 == ns && b2 == bucket) && #[trigger] find_slot(
                    slots,
                    id2,
                    ns2,
                    b2,
                ) >= 0 ==> st[find_slot(slots, id2, ns2, b2)] == slots[find_slot(
                    slots,
                    id2,
                    ns2,
                    b2,
                )]
        }),
{
    let st = store_slot(slots, id, ns, bucket, s);
    let i = find_slot(slots, id, ns, bucket);
    lemma_find_slot_props(slots, id, ns, bucket);
    if i >= 0 {
        lemma_find_slot_update_same(slots, i, s, id, ns, bucket);
        assert forall|id2: Seq<u8>, ns2: Seq<u8>, b2: u64|
            !(id2 == id && ns2 == ns && b2 == bucket) implies #[trigger] find_slot(
            st,
            id2,
            ns2,
            b2,
        ) == find_slot(slots, id2, ns2, b2) by {
            lemma_find_slot_update_other(slots, i, s, id2, ns2, b2);
        }
        assert forall|id2: Seq<u8>, ns2: Seq<u8>, b2: u64|
            !(id2 == id && ns2 == ns && b2 == bucket) && #[trigger] find_slot(slots, id2, ns2, b2)
                >= 0 implies st[find_slot(slots, id2, ns2, b2)] == slots[find_slot(
            slots,
            id2,
            ns2,
            b2,
        )] by {
            lemma_find_slot_props(slots, id2, ns2, b2);
            let j2 = find_slot(slots, id2, ns2, b2);
            assert(j2 != i);
        }
    } else {
        lemma_find_slot_push(slots, s, id, ns, bucket);
        assert forall|id2: Seq<u8>, ns2: Seq<u8>, b2: u64|
            !(id2 == id && ns2 == ns && b2 == bucket) implies #[trigger] find_slot(
            st,
            id2,
            ns2,
            b2,
        ) == find_slot(slots, id2, ns2, b2) by {
            lemma_find_slot_push(slots, s, id2, ns2, b2);
            lemma_find_slot_props(slots, id2, ns2, b2);
        }
        assert forall|id2: Seq<u8>, ns2: Seq<u8>, b2: u64|
            !(id2 == id && ns2 == ns && b2 == bucket) && #[trigger] find_slot(slots, id2, ns2, b2)
                >= 0 implies st[find_slot(slots, id2, ns2, b2)] == slots[find_slot(
            slots,
            id2,
            ns2,
            b2,
        )] by {
            lemma_find_slot_props(slots, id2, ns2, b2);
        }
    }
}

/// Storing a well-sized slot under its key preserves well-formedness.
proof fn lemma_store_slot_wf(
    v: RegistryView,
    id: Seq<u8>,
    ns: Seq<u8>,
    bucket: u64,
    s: SlotView,
)
    requires
        view_wf(v),
        slot_matches(s, id, ns, bucket),
        match s.record {
            Some(b) => b.len() == BITMAP_BYTES,
            None => true,
        },
    ensures
        view_wf(
            RegistryView {
                required_balance: v.required_balance,
                slots: store_slot(v.slots, id, ns, bucket, s),
            },
        ),
{
    let st = store_slot(v.slots, id, ns, bucket, s);
    let i = find_slot(v.slots, id, ns, bucket);
    lemma_find_slot_props(v.slots, id, ns, bucket);
    if i >= 0 {
        assert forall|a: int, b: int| 0 <= a < b < st.len() implies !(st[a].identity
            == st[b].identity && st[a].namespace == st[b].namespace && st[a].bucket
            == st[b].bucket) by {
            assert(st[a].identity == v.slots[a].identity && st[a].namespace == v.slots[a].namespace
                && st[a].bucket == v.slots[a].bucket);
            assert(st[b].identity == v.slots[b].identity && st[b].namespace == v.slots[b].namespace
                && st[b].bucket == v.slots[b].bucket);
        }
    } else {
        assert forall|a: int, b: int| 0 <= a < b < st.len() implies !(st[a].identity
            == st[b].identity && st[a].namespace == st[b].namespace && st[a].bucket
            == st[b].bucket) by {
            if b < v.slots.len() {
            } else {
                assert(st[b] == s);
                assert(!slot_matches(v.slots[a], id, ns, bucket));
            }
        }
    }
}

/// One stored slot: its key (identity, namespace, bucket), the balance at
/// its address, and the record once it exists.
pub struct RegistryEntry {
    /// The owning identity.
    pub identity: Address,
    /// The namespace, at most `MAX_NAMESPACE_LEN` bytes.
    pub namespace: Vec<u8>,
    /// The bucket index.
    pub bucket: u64,
    /// The balance held at the record's address.
    pub lamports: u64,
    /// The record, once claimed.
    pub account: Option<BitmapAccount>,
}

impl View for RegistryEntry {
    type V = SlotView;

    open spec fn view(&self) -> SlotView {
        SlotView {
            identity: self.identity@,
            namespace: self.namespace@,
            bucket: self.bucket,
            lamports: self.lamports,
            record: match self.account {
                Some(a) => Some(a.bitmap@),
                None => None,
            },
        }
    }
}

/// The registry: every record slot touched so far, and the minimum balance
/// a record must hold.
pub struct Registry {
    /// The minimum balance a record must hold to persist.
    pub required_balance: u64,
    /// The slots, with pairwise distinct keys.
    pub entries: Vec<RegistryEntry>,
}

impl View for Registry {
    type V = RegistryView;

    open spec fn view(&self) -> RegistryView {
        RegistryView {
            required_balance: self.required_balance,
            slots: self.entries@.map_values(|e: RegistryEntry| e@),
        }
    }
}

impl Registry {
    /// Slot keys are unique and every record holds a full bitmap.
    pub open spec fn wf(self) -> bool {
        view_wf(self@)
    }

    /// An empty registry with the given required minimum balance.
    pub fn new(required_balance: u64) -> (r: Registry)
        ensures
            r.wf(),
            r@.required_balance == required_balance,
            r@.slots == Seq::<SlotView>::empty(),
    {
        let r = Registry { required_balance, entries: Vec::new() };
        proof {
            assert(r@.slots =~= Seq::<SlotView>::empty());
        }
        r
    }

    /// The index of the slot with the given key, if any.
    fn find_entry(&self, identity: &Address, namespace: &[u8], bucket: u64) -> (r: Option<usize>)
        ensures
            match r {
                Some(i) => 0 <= i < self@.slots.len() && find_slot(
                    self@.slots,
                    identity@,
                    namespace@,
                    bucket,
                ) == i,
                None => find_slot(self@.slots, identity@, namespace@, bucket) == -1,
            },
    {
        let n = self.entries.len();
        let mut i: usize = 0;
        while i < n
            invariant
                i <= n,
                n == self@.slots.len(),
                forall|j: int|
                    0 <= j < i ==> !slot_matches(self@.slots[j], identity@, namespace@, bucket),
            decreases n - i,
        {
            let e = &self.entries[i];
            if e.bucket == bucket && crate::address_equal(&e.identity, identity)
                && crate::bytes_equal(e.namespace.as_slice(), namespace) {
                proof {
                    lemma_find_slot_props(self@.slots, identity@, namespace@, bucket);
                    assert(slot_matches(self@.slots[i as int], identity@, namespace@, bucket));
                }
                return Some(i);
            }
            proof {
                assert(self@.slots[i as int] == self.entries@[i as int]@);
            }
            i += 1;
        }
        proof {
            lemma_find_slot_props(self@.slots, identity@, namespace@, bucket);
        }
        None
    }

    /// Whether `sequence` has been consumed under (identity, namespace).
    pub fn check_consumed(&self, identity: &Address, namespace: &[u8], sequence: u64) -> (r: bool)
        requires
            self.wf(),
        ensures
            r == spec_consumed(self@.slots, identity@, namespace@, sequence),
    {
        let bucket = sequence / BITS_PER_BUCKET;
        match self.find_entry(identity, namespace, bucket) {
            Some(i) => match &self.entries[i].account {
                Some(a) => {
                    proof {
                        assert(self@.slots[i as int] == self.entries@[i as int]@);
                        assert(self@.slots[i as int].record == Some(a.bitmap@));
                        assert(a.wf());
                    }
                    a.is_used(sequence)
                },
                None => false,
            },
            None => false,
        }
    }

    /// The balance currently held at a slot's address, if the slot exists.
    pub fn record_balance(&self, identity: &Address, namespace: &[u8], sequence: u64) -> (r: Option<
        u64,
    >)
        ensures
            match r {
                Some(l) => find_slot(self@.slots, identity@, namespace@, sequence / BITS_PER_BUCKET)
                    >= 0 && l == slot_or_fresh(
                    self@.slots,
                    identity@,
                    namespace@,
                    sequence / BITS_PER_BUCKET,
                ).lamports,
                None => find_slot(self@.slots, identity@, namespace@, sequence / BITS_PER_BUCKET)
                    == -1,
            },
    {
        let bucket = sequence / BITS_PER_BUCKET;
        match self.find_entry(identity, namespace, bucket) {
            Some(i) => Some(self.entries[i].lamports),
            None => None,
        }
    }

    /// Consume one sequence number: the Consume operation.
    ///
    /// Requires both the payer's and the owning identity's signature.
    /// Creates the bucket record if needed, reporting how many external
    /// creation calls that took, and fails with `AlreadyUsed` when the
    /// sequence was consumed before. The effect is exactly `spec_consume`.
    pub fn consume(
        &mut self,
        identity: &Address,
        namespace: &[u8],
        sequence: u64,
        payer_signed: bool,
        identity_signed: bool,
    ) -> (r: Result<u64, OpError>)
        requires
            old(self).wf(),
        ensures
            final(self).wf(),
            final(self)@ == spec_consume(
                old(self)@,
                identity@,
                namespace@,
                sequence,
                payer_signed,
                identity_signed,
            ).0,
            r == spec_consume(
                old(self)@,
                identity@,
                namespace@,
                sequence,
                payer_signed,
                identity_signed,
            ).1,
    {
        let ghost pre = self@;
        if !payer_signed || !identity_signed {
            return Err(OpError::MissingSigner);
        }
        if namespace.len() > MAX_NAMESPACE_LEN {
            return Err(OpError::NamespaceTooLong);
        }
        let bucket = sequence / BITS_PER_BUCKET;
        let required = self.required_balance;
        match self.find_entry(identity, namespace, bucket) {
            Some(i) => {
                proof {
                    lemma_find_slot_props(pre.slots, identity@, namespace@, bucket);
                    assert(pre.slots[i as int] == self.entries@[i as int]@);
                }
                let old_lamports = self.entries[i].lamports;
                let had_record = self.entries[i].account.is_some();
                let mut acct = match self.entries[i].account.take() {
                    Some(a) => a,
                    None => BitmapAccount::new(0),
                };
                proof {
                    if had_record {
                        assert(pre.slots[i as int].record == Some(acct.bitmap@));
                        assert(acct.wf());
                    }
                }
                let ghost bitmap0 = acct.bitmap@;
                let was_used = acct.mark_used(sequence);
                if was_used {
                    proof {
                        if !had_record {
                            lemma_zero_bitmap_unused(sequence);
                        }
                        lemma_set_bit_noop(bitmap0, sequence);
                    }
                    self.entries[i].account = Some(acct);
                    proof {
                        assert(self@.slots =~= pre.slots);
                    }
                    return Err(OpError::AlreadyUsed);
                }
                let new_lamports = if had_record {
                    old_lamports
                } else if old_lamports >= required {
                    old_lamports
                } else {
                    required
                };
                let calls: u64 = if had_record {
                    0
                } else {
                    count_creation_calls(old_lamports, required)
                };
                self.entries[i].lamports = new_lamports;
                self.entries[i].account = Some(acct);
                proof {
                    let slot2 = SlotView {
                        identity: pre.slots[i as int].identity,
                        namespace: pre.slots[i as int].namespace,
                        bucket,
                        lamports: new_lamports,
                        record: Some(spec_set_bit(bitmap0, sequence)),
                    };
                    assert(self@.slots =~= store_slot(
                        pre.slots,
                        identity@,
                        namespace@,
                        bucket,
                        slot2,
                    ));
                    lemma_set_bit_effect(bitmap0, sequence);
                    lemma_store_slot_wf(pre, identity@, namespace@, bucket, slot2);
                }
                Ok(calls)
            },
            None => {
                let mut acct = BitmapAccount::new(0);
                let was_used = acct.mark_used(sequence);
                proof {
                    lemma_zero_bitmap_unused(sequence);
                    assert(!was_used);
                }
                let calls: u64 = count_creation_calls(0, required);
                self.entries.push(
                    RegistryEntry {
                        identity: *identity,
                        namespace: slice_to_vec(namespace),
                        bucket,
                        lamports: required,
                        account: Some(acct),
                    },
                );
                proof {
                    let slot2 = SlotView {
                        identity: identity@,
                        namespace: namespace@,
                        bucket,
                        lamports: funded_balance(0, required),
                        record: Some(spec_set_bit(zero_bitmap(), sequence)),
                    };
                    assert(funded_balance(0, required) == required);
                    assert(self@.slots =~= store_slot(
                        pre.slots,
                        identity@,
                        namespace@,
                        bucket,
                        slot2,
                    ));
                    lemma_set_bit_effect(zero_bitmap(), sequence);
                    lemma_store_slot_wf(pre, identity@, namespace@, bucket, slot2);
                }
                Ok(calls)
            },
        }
    }

    /// Bring the record for a sequence's bucket into existence: the
    /// PreCreate operation.
    ///
    /// Permissionless: only the payer signs; the owning identity's
    /// signature is never consulted. Touches no bitmap; repeated calls on
    /// an existing record are no-ops that issue no external calls. The
    /// effect is exactly `spec_pre_create`.
    pub fn pre_create(
        &mut self,
        identity: &Address,
        namespace: &[u8],
        sequence: u64,
        payer_signed: bool,
    ) -> (r: Result<u64, OpError>)
        requires
            old(self).wf(),
        ensures
            final(self).wf(),
            final(self)@ == spec_pre_create(
                old(self)@,
                identity@,
                namespace@,
                sequence,
                payer_signed,
            ).0,
            r == spec_pre_create(old(self)@, identity@, namespace@, sequence, payer_signed).1,
    {
        let ghost pre = self@;
        if !payer_signed {
            return Err(OpError::MissingSigner);
        }
        if namespace.len() > MAX_NAMESPACE_LEN {
            return Err(OpError::NamespaceTooLong);
        }
        let bucket = sequence / BITS_PER_BUCKET;
        let required = self.required_balance;
        match self.find_entry(identity, namespace, bucket) {
            Some(i) => {
                proof {
                    lemma_find_slot_props(pre.slots, identity@, namespace@, bucket);
                    assert(pre.slots[i as int] == self.entries@[i as int]@);
                }
                if self.entries[i].account.is_some() {
                    return Ok(0);
                }
                let old_lamports = self.entries[i].lamports;
                let calls: u64 = count_creation_calls(old_lamports, required);
                let new_lamports = if old_lamports >= required {
                    old_lamports
                } else {
                    required
                };
                self.entries[i].lamports = new_lamports;
                self.entries[i].account = Some(BitmapAccount::new(0));
                proof {
                    let slot2 = SlotView {
                        identity: pre.slots[i as int].identity,
                        namespace: pre.slots[i as int].namespace,
                        bucket,
                        lamports: new_lamports,
                        record: Some(zero_bitmap()),
                    };
                    assert(self@.slots =~= store_slot(
                        pre.slots,
                        identity@,
                        namespace@,
                        bucket,
                        slot2,
                    ));
                    lemma_store_slot_wf(pre, identity@, namespace@, bucket, slot2);
                }
                Ok(calls)
            },
            None => {
                let calls: u64 = count_creation_calls(0, required);
                self.entries.push(
                    RegistryEntry {
                        identity: *identity,
                        namespace: slice_to_vec(namespace),
                        bucket,
                        lamports: required,
                        account: Some(BitmapAccount::new(0)),
                    },
                );
                proof {
                    let slot2 = SlotView {
                        identity: identity@,
                        namespace: namespace@,
                        bucket,
                        lamports: funded_balance(0, required),
                        record: Some(zero_bitmap()),
                    };
                    assert(funded_balance(0, required) == required);
                    assert(self@.slots =~= store_slot(
                        pre.slots,
                        identity@,
                        namespace@,
                        bucket,
                        slot2,
                    ));
                    lemma_store_slot_wf(pre, identity@, namespace@, bucket, slot2);
                }
                Ok(calls)
            },
        }
    }

    /// Transfer `amount` to the address of a sequence's bucket record: any
    /// party may do this, before or after the record exists. The effect is
    /// exactly `spec_pre_fund`.
    pub fn pre_fund(&mut self, identity: &Address, namespace: &[u8], sequence: u64, amount: u64)
        requires
            old(self).wf(),
        ensures
            final(self).wf(),
            final(self)@ == spec_pre_fund(old(self)@, identity@, namespace@, sequence, amount),
    {
        let ghost pre = self@;
        let bucket = sequence / BITS_PER_BUCKET;
        match self.find_entry(identity, namespace, bucket) {
            Some(i) => {
                proof {
                    lemma_find_slot_props(pre.slots, identity@, namespace@, bucket);
                    assert(pre.slots[i as int] == self.entries@[i as int]@);
                }
                let old_lamports = self.entries[i].lamports;
                let new_lamports = if amount > u64::MAX - old_lamports {
                    u64::MAX
                } else {
                    old_lamports + amount
                };
                self.entries[i].lamports = new_lamports;
                proof {
                    let slot2 = SlotView {
                        identity: pre.slots[i as int].identity,
                        namespace: pre.slots[i as int].namespace,
                        bucket,
                        lamports: saturated_add(pre.slots[i as int].lamports, amount),
                        record: pre.slots[i as int].record,
                    };
                    assert(self@.slots =~= store_slot(
                        pre.slots,
                        identity@,
                        namespace@,
                        bucket,
                        slot2,
                    ));
                    lemma_store_slot_wf(pre, identity@, namespace@, bucket, slot2);
                }
            },
            None => {
                self.entries.push(
                    RegistryEntry {
                        identity: *identity,
                        namespace: slice_to_vec(namespace),
                        bucket,
                        lamports: amount,
                        account: None,
                    },
                );
                proof {
                    let slot2 = SlotView {
                        identity: identity@,
                        namespace: namespace@,
                        bucket,
                        lamports: saturated_add(0, amount),
                        record: None,
                    };
                    assert(saturated_add(0, amount) == amount);
                    assert(self@.slots =~= store_slot(
                        pre.slots,
                        identity@,
                        namespace@,
                        bucket,
                        slot2,
                    ));
                    lemma_store_slot_wf(pre, identity@, namespace@, bucket, slot2);
                }
            },
        }
    }

    /// Whether the record for a sequence's bucket already exists.
    pub fn has_record(&self, identity: &Address, namespace: &[u8], sequence: u64) -> (r: bool)
        ensures
            r == (slot_or_fresh(
                self@.slots,
                identity@,
                namespace@,
                sequence / BITS_PER_BUCKET,
            ).record is Some),
    {
        let bucket = sequence / BITS_PER_BUCKET;
        match self.find_entry(identity, namespace, bucket) {
            Some(i) => self.entries[i].account.is_some(),
            None => false,
        }
    }
}

/// Two distinct sequence numbers in the same bucket sit at distinct
/// in-bucket positions.
proof fn lemma_same_bucket_distinct_remainder(s1: u64, s2: u64)
    requires
        s1 != s2,
        s1 / BITS_PER_BUCKET == s2 / BITS_PER_BUCKET,
    ensures
        s1 % BITS_PER_BUCKET != s2 % BITS_PER_BUCKET,
{
    assert(s1 != s2 && s1 / 1024 == s2 / 1024 ==> s1 % 1024 != s2 % 1024) by (bit_vector);
}

/// Law: a sequence is consumable exactly once. With both signatures
/// present and a namespace within bounds, the first Consume of a
/// not-yet-consumed triple succeeds, marks it consumed, and an identical
/// Consume afterwards fails with `AlreadyUsed`.
pub proof fn lemma_consume_exactly_once(
    reg: RegistryView,
    id: Seq<u8>,
    ns: Seq<u8>,
    sequence: u64,
)
    requires
        view_wf(reg),
        ns.len() <= MAX_NAMESPACE_LEN,
        !spec_consumed(reg.slots, id, ns, sequence),
    ensures
        ({
            let (reg1, r1) = spec_consume(reg, id, ns, sequence, true, true);
            &&& r1 is Ok
            &&& spec_consumed(reg1.slots, id, ns, sequence)
            &&& spec_consume(reg1, id, ns, sequence, true, true).1 == Err::<u64, OpError>(
                OpError::AlreadyUsed,
            )
        }),
{
    let bucket = sequence / BITS_PER_BUCKET;
    let slot = slot_or_fresh(reg.slots, id, ns, bucket);
    let bitmap0 = match slot.record {
        Some(b) => b,
        None => zero_bitmap(),
    };
    lemma_find_slot_props(reg.slots, id, ns, bucket);
    if slot.record is None {
        lemma_zero_bitmap_unused(sequence);
    }
    assert(!seq_is_used(bitmap0, sequence));
    assert(bitmap0.len() == BITMAP_BYTES);
    let lamports = match slot.record {
        Some(_) => slot.lamports,
        None => funded_balance(slot.lamports, reg.required_balance),
    };
    let slot2 = SlotView {
        identity: slot.identity,
        namespace: slot.namespace,
        bucket: slot.bucket,
        lamports,
        record: Some(spec_set_bit(bitmap0, sequence)),
    };
    assert(slot_matches(slot2, id, ns, bucket));
    lemma_store_slot_lookup(reg.slots, id, ns, bucket, slot2);
    lemma_set_bit_effect(bitmap0, sequence);
    let reg1 = spec_consume(reg, id, ns, sequence, true, true).0;
    assert(spec_consumed(reg1.slots, id, ns, sequence));
}

/// Law: consuming one triple never affects the consumed-state of any other
/// triple, whatever the outcome.
pub proof fn lemma_consume_independent(
    reg: RegistryView,
    id: Seq<u8>,
    ns: Seq<u8>,
    sequence: u64,
    payer_signed: bool,
    identity_signed: bool,
    id2: Seq<u8>,
    ns2: Seq<u8>,
    s2: u64,
)
    requires
        view_wf(reg),
        !(id2 == id && ns2 == ns && s2 == sequence),
    ensures
        spec_consumed(
            spec_consume(reg, id, ns, sequence, payer_signed, identity_signed).0.slots,
            id2,
            ns2,
            s2,
        ) == spec_consumed(reg.slots, id2, ns2, s2),
{
    let (reg1, r1) = spec_consume(reg, id, ns, sequence, payer_signed, identity_signed);
    if !payer_signed || !identity_signed || ns.len() > MAX_NAMESPACE_LEN {
    } else {
        let bucket = sequence / BITS_PER_BUCKET;
        let bucket2 = s2 / BITS_PER_BUCKET;
        let slot = slot_or_fresh(reg.slots, id, ns, bucket);
        let bitmap0 = match slot.record {
            Some(b) => b,
            None => zero_bitmap(),
        };
        lemma_find_slot_props(reg.slots, id, ns, bucket);
        if seq_is_used(bitmap0, sequence) {
        } else {
            let lamports = match slot.record {
                Some(_) => slot.lamports,
                None => funded_balance(slot.lamports, reg.required_balance),
            };
            let slot2 = SlotView {
                identity: slot.identity,
                namespace: slot.namespace,
                bucket: slot.bucket,
                lamports,
                record: Some(spec_set_bit(bitmap0, sequence)),
            };
            assert(slot_matches(slot2, id, ns, bucket));
            lemma_store_slot_lookup(reg.slots, id, ns, bucket, slot2);
            assert(bitmap0.len() == BITMAP_BYTES);
            lemma_set_bit_effect(bitmap0, sequence);
            if id2 == id && ns2 == ns && bucket2 == bucket {
                assert(s2 != sequence);
                lemma_same_bucket_distinct_remainder(sequence, s2);
                if slot.record is None {
                    lemma_zero_bitmap_unused(s2);
                    lemma_find_slot_props(reg.slots, id2, ns2, bucket2);
                }
            } else {
                lemma_find_slot_props(reg.slots, id2, ns2, bucket2);
            }
        }
    }
}

/// Law: distinct sequence numbers are independent, even within one bucket:
/// consuming one never affects the consumability of the other. (Under one
/// identity and namespace.)
pub proof fn lemma_sequences_independent(
    reg: RegistryView,
    id: Seq<u8>,
    ns: Seq<u8>,
    s1: u64,
    s2: u64,
    payer_signed: bool,
    identity_signed: bool,
)
    requires
        view_wf(reg),
        s1 != s2,
    ensures
        spec_consumed(
            spec_consume(reg, id, ns, s1, payer_signed, identity_signed).0.slots,
            id,
            ns,
            s2,
        ) == spec_consumed(reg.slots, id, ns, s2),
{
    lemma_consume_independent(reg, id, ns, s1, payer_signed, identity_signed, id, ns, s2);
}

/// Law: distinct identities are independent: consuming a sequence under
/// one identity never affects the same sequence under another.
pub proof fn lemma_identities_independent(
    reg: RegistryView,
    id1: Seq<u8>,
    id2: Seq<u8>,
    ns: Seq<u8>,
    sequence: u64,
    payer_signed: bool,
    identity_signed: bool,
)
    requires
        view_wf(reg),
        id1 != id2,
    ensures
        spec_consumed(
            spec_consume(reg, id1, ns, sequence, payer_signed, identity_signed).0.slots,
            id2,
            ns,
            sequence,
        ) == spec_consumed(reg.slots, id2, ns, sequence),
{
    lemma_consume_independent(
        reg,
        id1,
        ns,
        sequence,
        payer_signed,
        identity_signed,
        id2,
        ns,
        sequence,
    );
}

/// Law: distinct namespaces under one identity are independent: the same
/// sequence is separately consumable in each.
pub proof fn lemma_namespaces_independent(
    reg: RegistryView,
    id: Seq<u8>,
    ns1: Seq<u8>,
    ns2: Seq<u8>,
    sequence: u64,
    payer_signed: bool,
    identity_signed: bool,
)
    requires
        view_wf(reg),
        ns1 != ns2,
    ensures
        spec_consumed(
            spec_consume(reg, id, ns1, sequence, payer_signed, identity_signed).0.slots,
            id,
            ns2,
            sequence,
        ) == spec_consumed(reg.slots, id, ns2, sequence),
{
    lemma_consume_independent(
        reg,
        id,
        ns1,
        sequence,
        payer_signed,
        identity_signed,
        id,
        ns2,
        sequence,
    );
}

/// Law: pre-creating a record makes the later Consume free of external
/// calls, while a Consume on a cold triple issues at least one.
pub proof fn lemma_pre_create_lowers_consume_cost(
    reg: RegistryView,
    id: Seq<u8>,
    ns: Seq<u8>,
    sequence: u64,
)
    requires
        view_wf(reg),
        ns.len() <= MAX_NAMESPACE_LEN,
        slot_or_fresh(reg.slots, id, ns, sequence / BITS_PER_BUCKET).record is None,
    ensures
        ({
            let (reg1, r1) = spec_pre_create(reg, id, ns, sequence, true);
            &&& r1 is Ok
            &&& spec_consume(reg1, id, ns, sequence, true, true).1 == Ok::<u64, OpError>(0)
            &&& (spec_consume(reg, id, ns, sequence, true, true).1 matches Ok(c) && c >= 1)
        }),
{
    let bucket = sequence / BITS_PER_BUCKET;
    let slot = slot_or_fresh(reg.slots, id, ns, bucket);
    lemma_find_slot_props(reg.slots, id, ns, bucket);
    lemma_zero_bitmap_unused(sequence);
    let slot2 = SlotView {
        identity: slot.identity,
        namespace: slot.namespace,
        bucket: slot.bucket,
        lamports: funded_balance(slot.lamports, reg.required_balance),
        record: Some(zero_bitmap()),
    };
    assert(slot_matches(slot2, id, ns, bucket));
    lemma_store_slot_lookup(reg.slots, id, ns, bucket, slot2);
}

/// Law: adversarial or benign pre-funding never blocks the rightful
/// Consume, and the number of external calls it then issues follows the
/// funding table: one call for a zero balance, three below the required
/// minimum, two at or above it.
pub proof fn lemma_prefund_never_blocks(
    reg: RegistryView,
    id: Seq<u8>,
    ns: Seq<u8>,
    sequence: u64,
    amount: u64,
)
    requires
        view_wf(reg),
        ns.len() <= MAX_NAMESPACE_LEN,
        slot_or_fresh(reg.slots, id, ns, sequence / BITS_PER_BUCKET).record is None,
    ensures
        ({
            let reg1 = spec_pre_fund(reg, id, ns, sequence, amount);
            let bal = saturated_add(
                slot_or_fresh(reg.slots, id, ns, sequence / BITS_PER_BUCKET).lamports,
                amount,
            );
            let (reg2, r2) = spec_consume(reg1, id, ns, sequence, true, true);
            &&& r2 == Ok::<u64, OpError>(creation_call_count(bal, reg.required_balance) as u64)
            &&& spec_consumed(reg2.slots, id, ns, sequence)
        }),
{
    let bucket = sequence / BITS_PER_BUCKET;
    let slot = slot_or_fresh(reg.slots, id, ns, bucket);
    lemma_find_slot_props(reg.slots, id, ns, bucket);
    lemma_zero_bitmap_unused(sequence);
    let slot2 = SlotView {
        identity: slot.identity,
        namespace: slot.namespace,
        bucket: slot.bucket,
        lamports: saturated_add(slot.lamports, amount),
        record: slot.record,
    };
    assert(slot_matches(slot2, id, ns, bucket));
    lemma_store_slot_lookup(reg.slots, id, ns, bucket, slot2);
    let reg1 = spec_pre_fund(reg, id, ns, sequence, amount);
    let slot3 = SlotView {
        identity: slot2.identity,
        namespace: slot2.namespace,
        bucket: slot2.bucket,
        lamports: funded_balance(slot2.lamports, reg.required_balance),
        record: Some(spec_set_bit(zero_bitmap(), sequence)),
    };
    assert(slot_matches(slot3, id, ns, bucket));
    lemma_store_slot_lookup(reg1.slots, id, ns, bucket, slot3);
    lemma_set_bit_effect(zero_bitmap(), sequence);
}

/// Law: consumption is irreversible under Consume: whatever triple a
/// Consume targets and however it ends, an already-consumed triple stays
/// consumed.
pub proof fn lemma_consume_keeps_consumed(
    reg: RegistryView,
    id: Seq<u8>,
    ns: Seq<u8>,
    sequence: u64,
    payer_signed: bool,
    identity_signed: bool,
    idt: Seq<u8>,
    nst: Seq<u8>,
    st: u64,
)
    requires
        view_wf(reg),
        spec_consumed(reg.slots, idt, nst, st),
    ensures
        spec_consumed(
            spec_consume(reg, id, ns, sequence, payer_signed, identity_signed).0.slots,
            idt,
            nst,
            st,
        ),
{
    if idt == id && nst == ns && st == sequence {
    } else {
        lemma_consume_independent(
            reg,
            id,
            ns,
            sequence,
            payer_signed,
            identity_signed,
            idt,
            nst,
            st,
        );
    }
}

/// Law: consumption is irreversible under PreCreate: it touches no bitmap,
/// so an already-consumed triple stays consumed.
pub proof fn lemma_pre_create_keeps_consumed(
    reg: RegistryView,
    id: Seq<u8>,
    ns: Seq<u8>,
    sequence: u64,
    payer_signed: bool,
    idt: Seq<u8>,
    nst: Seq<u8>,
    st: u64,
)
    requires
        view_wf(reg),
        spec_consumed(reg.slots, idt, nst, st),
    ensures
        spec_consumed(
            spec_pre_create(reg, id, ns, sequence, payer_signed).0.slots,
            idt,
            nst,
            st,
        ),
{
    if !payer_signed || ns.len() > MAX_NAMESPACE_LEN {
    } else {
        let bucket = sequence / BITS_PER_BUCKET;
        let slot = slot_or_fresh(reg.slots, id, ns, bucket);
        lemma_find_slot_props(reg.slots, id, ns, bucket);
        if slot.record is Some {
        } else {
            let slot2 = SlotView {
                identity: slot.identity,
                namespace: slot.namespace,
                bucket: slot.bucket,
                lamports: funded_balance(slot.lamports, reg.required_balance),
                record: Some(zero_bitmap()),
            };
            assert(slot_matches(slot2, id, ns, bucket));
            lemma_store_slot_lookup(reg.slots, id, ns, bucket, slot2);
            lemma_find_slot_props(reg.slots, idt, nst, st / BITS_PER_BUCKET);
            if idt == id && nst == ns && st / BITS_PER_BUCKET == bucket {
                assert(!spec_consumed(reg.slots, idt, nst, st));
            }
        }
    }
}

/// Law: consumption is irreversible under pre-funding: a transfer changes
/// only a balance, never a bitmap.
pub proof fn lemma_pre_fund_keeps_consumed(
    reg: RegistryView,
    id: Seq<u8>,
    ns: Seq<u8>,
    sequence: u64,
    amount: u64,
    idt: Seq<u8>,
    nst: Seq<u8>,
    st: u64,
)
    requires
        view_wf(reg),
    ensures
        spec_consumed(spec_pre_fund(reg, id, ns, sequence, amount).slots, idt, nst, st)
            == spec_consumed(reg.slots, idt, nst, st),
{
    let bucket = sequence / BITS_PER_BUCKET;
    let slot = slot_or_fresh(reg.slots, id, ns, bucket);
    lemma_find_slot_props(reg.slots, id, ns, bucket);
    let slot2 = SlotView {
        identity: slot.identity,
        namespace: slot.namespace,
        bucket: slot.bucket,
        lamports: saturated_add(slot.lamports, amount),
        record: slot.record,
    };
    assert(slot_matches(slot2, id, ns, bucket));
    lemma_store_slot_lookup(reg.slots, id, ns, bucket, slot2);
    lemma_find_slot_props(reg.slots, idt, nst, st / BITS_PER_BUCKET);
    if idt == id && nst == ns && st / BITS_PER_BUCKET == bucket {
        if find_slot(reg.slots, id, ns, bucket) == -1 {
            assert(!spec_consumed(reg.slots, idt, nst, st));
        }
    }
}

} // verus!
