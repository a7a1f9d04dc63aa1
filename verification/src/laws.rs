//! The library's general laws, each proved from the models and
//! contracts of the operations it speaks of.

use vstd::prelude::*;
use crate::model::{
    AccountModel, StateModel, ValueModel, merge_ok, next_slot_value, or_fresh,
    slot_write_changed, storage_status_of,
};
use crate::message::StorageStatus;
use crate::registry::{HostContextRegistry, OpaqueHandle};
use crate::types::zero_word;

verus! {

/// Before any write, every storage read yields the zero word: in a
/// state holding no accounts, `storage_word` is the zero word for every
/// address and key.
pub proof fn lemma_get_storage_zero_before_writes(m: StateModel, a: Seq<u8>, k: Seq<u8>)
    requires
        m.accounts.len() == 0,
    ensures
        m.storage_word(a, k) == zero_word(),
{
    assert(!m.has_acct(a));
}

/// The storage-status transition table: a write that finds no entry
/// reports `Added` and creates the entry with modify count 0; the first
/// change of an entry reports `Modified` (its modify count becomes 1);
/// a later change reports `ModifiedAgain`; a write that leaves the data
/// as it was reports `Unchanged` and leaves the entry untouched; and
/// the fatal combination — a write that changed the data while the
/// modify count stayed 0 — cannot arise.
pub proof fn lemma_storage_status_table(prev: Option<ValueModel>, value: Seq<u8>)
    ensures
        prev is None ==> storage_status_of(prev, value) == StorageStatus::Added
            && next_slot_value(prev, value) == (ValueModel { data: value, modify_time: 0 as nat }),
        (prev matches Some(p) && p.data != value && p.modify_time + 1 == 1) ==> storage_status_of(
            prev,
            value,
        ) == StorageStatus::Modified,
        (prev matches Some(p) && p.data != value && p.modify_time + 1 > 1) ==> storage_status_of(
            prev,
            value,
        ) == StorageStatus::ModifiedAgain,
        (prev matches Some(p) && p.data == value) ==> storage_status_of(prev, value)
            == StorageStatus::Unchanged && next_slot_value(prev, value) == prev->0,
        slot_write_changed(prev, value) ==> next_slot_value(prev, value).modify_time >= 1,
{
}

/// Repeated identical writes: the first write of a word into an absent
/// entry reports `Added`, and every later write of the same word
/// reports `Unchanged` and leaves the entry exactly as it was.
pub proof fn lemma_repeated_write_unchanged(value: Seq<u8>)
    ensures
        storage_status_of(None, value) == StorageStatus::Added,
        forall|v: ValueModel|
            v.data == value ==> #[trigger] storage_status_of(Some(v), value)
                == StorageStatus::Unchanged && next_slot_value(Some(v), value) == v,
{
}

/// After a nested call is merged back, the parent's account set
/// contains both its pre-call accounts and the child's: the merged
/// state is the child's account set, possibly extended by the committed
/// callee account, and the child still holds every account the parent
/// had (the child starts as a clone and no host operation removes an
/// account). The other half of the nested-call law — the child runs at
/// `depth + 1` — is an `ensures` of `prepare_call`.
pub proof fn lemma_call_merge_superset(
    pre: StateModel,
    child: StateModel,
    merged: StateModel,
    dest: Seq<u8>,
    committed: bool,
    output: Seq<u8>,
)
    requires
        forall|b: Seq<u8>| pre.has_acct(b) ==> #[trigger] child.has_acct(b),
        committed ==> merged.account_state(dest) == Some(
            AccountModel { code: Some(output), ..or_fresh(child.account_state(dest), dest) },
        ),
        committed ==> forall|b: Seq<u8>|
            b != dest ==> #[trigger] merged.account_state(b) == child.account_state(b),
        !committed ==> merged.accounts == child.accounts,
    ensures
        forall|b: Seq<u8>| pre.has_acct(b) ==> #[trigger] merged.has_acct(b),
        forall|b: Seq<u8>| child.has_acct(b) ==> #[trigger] merged.has_acct(b),
{
    assert forall|b: Seq<u8>| child.has_acct(b) implies #[trigger] merged.has_acct(b) by {
        if committed {
            if b == dest {
                assert(merged.account_state(b) is Some);
            } else {
                assert(merged.account_state(b) == child.account_state(b));
                assert(child.account_state(b) is Some);
            }
        }
    }
}

/// Merging is sound for the destructed-address list: the merged list is
/// never shorter than the target's, and no merged address is both
/// destructed and still present in the account set.
pub proof fn lemma_merge_destructed(target: StateModel, source: StateModel, merged: StateModel)
    requires
        merge_ok(target, source),
        merged.accounts == source.accounts,
        merged.destructed_accounts == source.destructed_accounts,
    ensures
        merged.destructed_accounts.len() >= target.destructed_accounts.len(),
        forall|i: int|
            0 <= i < merged.destructed_accounts.len() ==> !merged.has_acct(
                #[trigger] merged.destructed_accounts[i],
            ),
{
}

/// Merging twice never decreases the length of the destructed-address
/// list: across two successive sound merges it is monotone.
pub proof fn lemma_merge_twice_monotone(
    s0: StateModel,
    c1: StateModel,
    s1: StateModel,
    c2: StateModel,
    s2: StateModel,
)
    requires
        merge_ok(s0, c1),
        s1.destructed_accounts == c1.destructed_accounts,
        merge_ok(s1, c2),
        s2.destructed_accounts == c2.destructed_accounts,
    ensures
        s2.destructed_accounts.len() >= s0.destructed_accounts.len(),
{
}

/// Ownership safety of the bridge: an object handed over once is
/// reclaimed exactly once. From the registry's contracts — `r1` is `r0`
/// after `into_opaque` returned the handle, `r2` is `r1` after one
/// `reclaim` of it, `r3` is `r2` after a second — the first reclaim
/// returns the object, the second returns nothing, and the live count
/// returns to where it started: nothing leaks and nothing is freed
/// twice. Borrows between these steps preserve every hypothesis, by the
/// contract of `borrow`.
pub proof fn lemma_reclaim_exactly_once<T>(
    r0: HostContextRegistry<T>,
    obj: T,
    h: OpaqueHandle,
    r1: HostContextRegistry<T>,
    r2: HostContextRegistry<T>,
    out1: Option<T>,
    r3: HostContextRegistry<T>,
    out2: Option<T>,
)
    requires
        r1.is_live(h),
        r1.value_at(h) == obj,
        !r0.is_live(h),
        r1.live_count() == r0.live_count() + 1,
        out1 is Some <==> r1.is_live(h),
        r1.is_live(h) ==> out1 == Some(r1.value_at(h)),
        !r2.is_live(h),
        r1.is_live(h) ==> r2.live_count() + 1 == r1.live_count(),
        out2 is Some <==> r2.is_live(h),
        !r2.is_live(h) ==> r3.slots@ == r2.slots@,
    ensures
        out1 == Some(obj),
        out2 is None,
        r3.live_count() == r0.live_count(),
{
}

} // verus!
