//! The ownership bridge: a typed, generation-checked registry that
//! stands in for raw opaque pointers at the interpreter boundary.
//!
//! A host context is inserted once (`into_opaque`), after which only an
//! address-only handle crosses the boundary; every callback looks the
//! typed object up again (`borrow`), and exactly one `reclaim` returns
//! ownership to the typed side. At every instant each object is owned
//! either by the registry or, after `reclaim`, by the caller — never
//! both, never neither.

use vstd::prelude::*;
use vstd::pervasive::unreached;

verus! {

/// One registry slot: a generation stamp, and the typed object while
/// the boundary still holds its handle.
pub struct HostContextWrapper<T> {
    pub generation: u64,
    pub inner: Option<T>,
}

/// An address-only handle handed across the boundary in place of the
/// typed object. The generation stamp keeps a stale handle from ever
/// reaching an object inserted later into the same slot.
#[derive(Clone, Copy, PartialEq, Eq, Structural, Debug)]
pub struct OpaqueHandle {
    pub index: usize,
    pub generation: u64,
}

/// The registry that owns every host context currently on loan to the
/// interpreter side of the boundary.
pub struct HostContextRegistry<T> {
    pub slots: Vec<HostContextWrapper<T>>,
}

/// How many slots of `s` currently hold an object.
pub open spec fn count_live<T>(s: Seq<HostContextWrapper<T>>) -> nat
    decreases s.len(),
{
    if s.len() == 0 {
        0
    } else {
        count_live(s.drop_last()) + (if s.last().inner is Some {
            1nat
        } else {
            0nat
        })
    }
}

/// Appending a slot adds its occupancy to the live count.
proof fn lemma_count_live_push<T>(s: Seq<HostContextWrapper<T>>, x: HostContextWrapper<T>)
    ensures
        count_live(s.push(x)) == count_live(s) + (if x.inner is Some {
            1nat
        } else {
            0nat
        }),
{
    assert(s.push(x).drop_last() =~= s);
    assert(s.push(x).last() == x);
}

/// Replacing one slot changes the live count by the difference of the
/// two occupancies.
proof fn lemma_count_live_update<T>(
    s: Seq<HostContextWrapper<T>>,
    i: int,
    x: HostContextWrapper<T>,
)
    requires
        0 <= i < s.len(),
    ensures
        count_live(s.update(i, x)) + (if s[i].inner is Some {
            1nat
        } else {
            0nat
        }) == count_live(s) + (if x.inner is Some {
            1nat
        } else {
            0nat
        }),
    decreases s.len(),
{
    let s2 = s.update(i, x);
    if i == s.len() - 1 {
        assert(s2.drop_last() =~= s.drop_last());
        assert(s2.last() == x);
    } else {
        assert(s2.drop_last() =~= s.drop_last().update(i, x));
        assert(s2.last() == s.last());
        lemma_count_live_update(s.drop_last(), i, x);
    }
}

impl<T> HostContextRegistry<T> {
    /// Whether `h` currently reaches a live object: its slot exists,
    /// the generation stamps match, and the slot is occupied.
    pub open spec fn is_live(self, h: OpaqueHandle) -> bool {
        &&& h.index < self.slots@.len()
        &&& self.slots@[h.index as int].generation == h.generation
        &&& self.slots@[h.index as int].inner is Some
    }

    /// The object `h` reaches (meaningful when `is_live`).
    pub open spec fn value_at(self, h: OpaqueHandle) -> T
        recommends
            self.is_live(h),
    {
        self.slots@[h.index as int].inner->0
    }

    /// How many objects the registry currently owns.
    pub open spec fn live_count(self) -> nat {
        count_live(self.slots@)
    }

    /// An empty registry owning nothing.
    pub fn new() -> (r: HostContextRegistry<T>)
        ensures
            r.slots@.len() == 0,
            r.live_count() == 0,
            forall|h: OpaqueHandle| !(#[trigger] r.is_live(h)),
    {
        let r = HostContextRegistry { slots: Vec::new() };
        proof {
            assert(r.slots@ =~= Seq::<HostContextWrapper<T>>::empty());
        }
        r
    }

    /// Consumes ownership of `obj` and returns a fresh handle for it:
    /// the handle is live, reaches `obj`, every other handle is exactly
    /// as live as before, and the registry owns one object more.
    pub fn into_opaque(&mut self, obj: T) -> (h: OpaqueHandle)
        ensures
            final(self).is_live(h),
            final(self).value_at(h) == obj,
            !old(self).is_live(h),
            forall|h2: OpaqueHandle|
                h2 != h ==> (#[trigger] final(self).is_live(h2) == old(self).is_live(h2) && (old(
                    self,
                ).is_live(h2) ==> final(self).value_at(h2) == old(self).value_at(h2))),
            final(self).live_count() == old(self).live_count() + 1,
    {
        let n = self.slots.len();
        let mut i: usize = 0;
        while i < n
            invariant
                i <= n,
                n == self.slots@.len(),
                *self == *old(self),
                forall|j: int|
                    0 <= j < i ==> !((#[trigger] self.slots@[j].inner) is None
                        && self.slots@[j].generation < u64::MAX),
            decreases n - i,
        {
            if self.slots[i].inner.is_none() && self.slots[i].generation < u64::MAX {
                let g = self.slots[i].generation + 1;
                let h = OpaqueHandle { index: i, generation: g };
                self.slots[i] = HostContextWrapper { generation: g, inner: Some(obj) };
                proof {
                    lemma_count_live_update(
                        old(self).slots@,
                        i as int,
                        self.slots@[i as int],
                    );
                }
                return h;
            }
            i += 1;
        }
        let h = OpaqueHandle { index: n, generation: 0 };
        self.slots.push(HostContextWrapper { generation: 0, inner: Some(obj) });
        proof {
            lemma_count_live_push(
                old(self).slots@,
                HostContextWrapper { generation: 0, inner: Some(obj) },
            );
        }
        h
    }

    /// Whether `h` currently reaches a live object; the boundary layer
    /// checks this before borrowing.
    pub fn is_live_handle(&self, h: OpaqueHandle) -> (r: bool)
        ensures
            r == self.is_live(h),
    {
        h.index < self.slots.len() && self.slots[h.index].generation == h.generation
            && self.slots[h.index].inner.is_some()
    }

    /// Reconstructs mutable access to the object behind `h` without
    /// taking ownership: the registry still owns the object afterwards,
    /// holding whatever the borrow left behind, and every other handle
    /// is untouched.
    pub fn borrow(&mut self, h: OpaqueHandle) -> (r: &mut T)
        requires
            old(self).is_live(h),
        ensures
            *r == old(self).value_at(h),
            final(self).slots@ == old(self).slots@.update(
                h.index as int,
                HostContextWrapper { generation: h.generation, inner: Some(*final(r)) },
            ),
            final(self).is_live(h),
            final(self).value_at(h) == *final(r),
            final(self).live_count() == old(self).live_count(),
            forall|h2: OpaqueHandle|
                h2 != h ==> (#[trigger] final(self).is_live(h2) == old(self).is_live(h2) && (old(
                    self,
                ).is_live(h2) ==> final(self).value_at(h2) == old(self).value_at(h2))),
    {
        proof {
            assert forall|x: HostContextWrapper<T>| x.inner is Some implies count_live(
                old(self).slots@.update(h.index as int, x),
            ) == count_live(old(self).slots@) by {
                lemma_count_live_update(old(self).slots@, h.index as int, x);
            }
        }
        let slot = &mut self.slots[h.index];
        match &mut slot.inner {
            Some(v) => v,
            None => unreached(),
        }
    }

    /// The single point where ownership returns to the typed side:
    /// reclaims the object behind `h` exactly when `h` is live, leaving
    /// the handle dead so that a second reclaim returns nothing and no
    /// object is ever handed out twice.
    pub fn reclaim(&mut self, h: OpaqueHandle) -> (r: Option<T>)
        ensures
            r is Some <==> old(self).is_live(h),
            old(self).is_live(h) ==> r == Some(old(self).value_at(h)),
            !final(self).is_live(h),
            forall|h2: OpaqueHandle|
                h2 != h ==> (#[trigger] final(self).is_live(h2) == old(self).is_live(h2) && (old(
                    self,
                ).is_live(h2) ==> final(self).value_at(h2) == old(self).value_at(h2))),
            old(self).is_live(h) ==> final(self).live_count() + 1 == old(self).live_count(),
            !old(self).is_live(h) ==> final(self).slots@ == old(self).slots@,
    {
        if h.index < self.slots.len() && self.slots[h.index].generation == h.generation {
            let slot = &mut self.slots[h.index];
            let taken = slot.inner.take();
            proof {
                lemma_count_live_update(
                    old(self).slots@,
                    h.index as int,
                    self.slots@[h.index as int],
                );
                if !old(self).is_live(h) {
                    assert(self.slots@ =~= old(self).slots@);
                }
            }
            taken
        } else {
            None
        }
    }
}

} // verus!
