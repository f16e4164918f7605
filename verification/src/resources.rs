//! Slotted storage for opaque native resources.
//!
//! The machine never looks inside a resource; it only tracks which
//! slots are occupied.  Handles are plain slot indices — not
//! generational — and an emptied slot is the invalidation signal:
//! moving a resource to another machine takes it out of its slot, and
//! the old handle reads as absent from then on.  Freed slots are
//! recycled last-in first-out.

use vstd::prelude::*;

verus! {

/// A table of owned resource payloads behind per-slot options.
pub struct ResourceTable<T> {
    slots: Vec<Option<T>>,
    free: Vec<u32>,
}

impl<T> ResourceTable<T> {
    /// Free-list entries are distinct indices of empty slots, and the
    /// table never outgrows the 16-bit handles values carry.
    pub closed spec fn wf(self) -> bool {
        &&& self.slots@.len() <= 0x10000
        &&& forall|i: int|
            0 <= i < self.free@.len() ==> (self.free@[i] as int) < self.slots@.len()
                && self.slots@[self.free@[i] as int] is None
        &&& forall|i: int, j: int| 0 <= i < j < self.free@.len() ==> self.free@[i] != self.free@[j]
    }

    /// The slot holds a resource.
    pub closed spec fn vivo(self, handle: u32) -> bool {
        (handle as int) < self.slots@.len() && self.slots@[handle as int] is Some
    }

    /// The resource a live handle refers to.
    pub closed spec fn recurso_en(self, handle: u32) -> T
        recommends
            self.vivo(handle),
    {
        self.slots@[handle as int]->Some_0
    }

    pub closed spec fn espacio_s(self) -> bool {
        self.free@.len() > 0 || self.slots@.len() < 0x10000
    }

    pub fn new() -> (r: ResourceTable<T>)
        ensures
            r.wf(),
            r.espacio_s(),
            forall|h: u32| !r.vivo(h),
    {
        ResourceTable { slots: Vec::new(), free: Vec::new() }
    }

    pub fn espacio(&self) -> (r: bool)
        ensures
            r == self.espacio_s(),
    {
        self.free.len() > 0 || self.slots.len() < 0x10000
    }

    /// Store a resource; the returned handle is fresh and every other
    /// slot keeps its occupant.
    pub fn alloc_resource(&mut self, res: T) -> (h: u32)
        requires
            old(self).wf(),
            old(self).espacio_s(),
        ensures
            final(self).wf(),
            final(self).vivo(h),
            final(self).recurso_en(h) == res,
            !old(self).vivo(h),
            h < 0x10000,
            forall|h2: u32|
                old(self).vivo(h2) ==> #[trigger] final(self).vivo(h2) && final(self).recurso_en(
                    h2,
                ) == old(self).recurso_en(h2),
    {
        if self.free.len() > 0 {
            let idx = self.free[self.free.len() - 1];
            self.free.pop();
            self.slots[idx as usize] = Some(res);
            idx
        } else {
            let idx = self.slots.len() as u32;
            self.slots.push(Some(res));
            idx
        }
    }

    /// Read a resource; an emptied or foreign slot reads as absent.
    pub fn get_resource(&self, handle: u32) -> (r: Option<&T>)
        requires
            self.wf(),
        ensures
            match r {
                Some(t) => self.vivo(handle) && *t == self.recurso_en(handle),
                None => !self.vivo(handle),
            },
    {
        if (handle as usize) < self.slots.len() {
            match &self.slots[handle as usize] {
                Some(t) => Some(t),
                None => None,
            }
        } else {
            None
        }
    }

    /// Take a resource out, emptying its slot: this is the move that
    /// lets a resource migrate to another machine, and it permanently
    /// invalidates the handle here.
    pub fn take_resource(&mut self, handle: u32) -> (r: Option<T>)
        requires
            old(self).wf(),
        ensures
            final(self).wf(),
            r is Some ==> final(self).espacio_s(),
            r is None ==> final(self).espacio_s() == old(self).espacio_s(),
            match r {
                Some(t) => old(self).vivo(handle) && t == old(self).recurso_en(handle),
                None => !old(self).vivo(handle),
            },
            !final(self).vivo(handle),
            forall|h2: u32|
                h2 != handle ==> #[trigger] final(self).vivo(h2) == old(self).vivo(h2),
            forall|h2: u32|
                h2 != handle && old(self).vivo(h2) ==> #[trigger] final(self).recurso_en(h2)
                    == old(self).recurso_en(h2),
    {
        if (handle as usize) >= self.slots.len() {
            return None;
        }
        if self.slots[handle as usize].is_none() {
            return None;
        }
        let mut sacado: Option<T> = None;
        core::mem::swap(&mut self.slots[handle as usize], &mut sacado);
        proof {
            assert forall|i: int, j: int|
                0 <= i < j < self.free@.push(handle).len() implies self.free@.push(handle)[i]
                != self.free@.push(handle)[j] by {
                if j == self.free@.len() {
                    assert(old(self).slots@[self.free@[i] as int] is None);
                }
            }
        }
        self.free.push(handle);
        sacado
    }
}

} // verus!
