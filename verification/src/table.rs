//! Generational-index arena for heap objects.
//!
//! A handle packs a 16-bit generation over a 16-bit slot.  Freeing a
//! slot bumps its generation, so every handle taken out earlier reads
//! as absent from then on: a stale handle is detected, never silently
//! resolved to a new object.  Freed slots are recycled in FIFO order,
//! which delays reuse.  Texts under 64 characters go to a fixed side
//! pool of 256 slots whose handles set the top bit; pooled texts are
//! immutable.

use vstd::prelude::*;
use vstd::string::StrSliceExecFns;

use crate::object::Obj;

verus! {

/// Marks a pooled-string handle.
pub const MARCA_POOL: u32 = 0x80000000;

/// Number of slots of the small-string pool.
pub const TAM_POOL: usize = 256;

/// The handle addresses the small-string pool.
pub open spec fn es_pool(h: u32) -> bool {
    h & MARCA_POOL == MARCA_POOL
}

/// A text short enough for the pool: under 64 characters.
pub open spec fn texto_corto(o: Obj) -> bool {
    match o {
        Obj::Texto(s) => s@.len() < 64,
        _ => false,
    }
}

/// A generational arena: the sole owner of every heap object.
#[derive(Clone)]
pub struct ObjectTable {
    objects: Vec<Option<Obj>>,
    free_list: Vec<u32>,
    generations: Vec<u32>,
    string_pool: Vec<Option<Obj>>,
    string_pool_free: Vec<u32>,
}

impl ObjectTable {
    /// Structural soundness: generations mirror slots, generations fit
    /// in 15 bits so handles never collide with the pool mark, and the
    /// free lists hold distinct indices of empty slots.
    pub closed spec fn wf(self) -> bool {
        &&& self.generations@.len() == self.objects@.len()
        &&& self.objects@.len() <= 0x10000
        &&& self.string_pool@.len() == TAM_POOL
        &&& forall|i: int|
            0 <= i < self.generations@.len() ==> (self.generations@[i] as int) < 0x8000
        &&& forall|i: int|
            0 <= i < self.free_list@.len() ==> (self.free_list@[i] as int)
                < self.objects@.len() && self.objects@[self.free_list@[i] as int] is None
        &&& forall|i: int, j: int|
            0 <= i < j < self.free_list@.len() ==> self.free_list@[i] != self.free_list@[j]
        &&& forall|i: int|
            0 <= i < self.string_pool_free@.len() ==> (self.string_pool_free@[i] as int)
                < TAM_POOL && self.string_pool@[self.string_pool_free@[i] as int] is None
        &&& forall|i: int, j: int|
            0 <= i < j < self.string_pool_free@.len() ==> self.string_pool_free@[i]
                != self.string_pool_free@[j]
    }

    /// The handle is live: its slot holds an object and the stored
    /// generation matches the handle's.
    pub closed spec fn vivo(self, h: u32) -> bool {
        if es_pool(h) {
            let idx = (h & 0x7FFFFFFF) as int;
            0 <= idx < self.string_pool@.len() && self.string_pool@[idx] is Some
        } else {
            let slot = (h & 0xFFFF) as int;
            let gen = (h >> 16) as int;
            slot < self.objects@.len() && (self.generations@[slot] as int) == gen
                && self.objects@[slot] is Some
        }
    }

    /// The object a live handle refers to.
    pub closed spec fn objeto_en(self, h: u32) -> Obj
        recommends
            self.vivo(h),
    {
        if es_pool(h) {
            self.string_pool@[(h & 0x7FFFFFFF) as int]->Some_0
        } else {
            self.objects@[(h & 0xFFFF) as int]->Some_0
        }
    }

    /// The main arena can take one more object.
    pub closed spec fn espacio_s(self) -> bool {
        self.free_list@.len() > 0 || self.objects@.len() < 0x10000
    }

    /// How many more objects the main arena can take: recyclable slots
    /// plus never-used ones.
    pub closed spec fn capacidad_s(self) -> int {
        self.free_list@.len() + (0x10000 - self.objects@.len())
    }

    /// The small-string pool has a free slot.
    pub closed spec fn pool_espacio_s(self) -> bool {
        self.string_pool_free@.len() > 0
    }

    /// The arena has room exactly while its capacity is positive.
    pub proof fn lema_espacio_capacidad(&self)
        requires
            self.wf(),
        ensures
            self.espacio_s() == (self.capacidad_s() > 0),
    {
    }

    pub fn new() -> (r: ObjectTable)
        ensures
            r.wf(),
            r.espacio_s(),
            r.capacidad_s() == 0x10000,
            r.pool_espacio_s(),
            forall|h: u32| !r.vivo(h),
    {
        let mut string_pool: Vec<Option<Obj>> = Vec::new();
        let mut string_pool_free: Vec<u32> = Vec::new();
        let mut i: usize = 0;
        while i < TAM_POOL
            invariant
                string_pool@.len() == i,
                string_pool_free@.len() == i,
                i <= TAM_POOL,
                forall|j: int| 0 <= j < i ==> string_pool@[j] is None,
                forall|j: int| 0 <= j < i ==> string_pool_free@[j] == j,
            decreases TAM_POOL - i,
        {
            string_pool.push(None);
            string_pool_free.push(i as u32);
            i = i + 1;
        }
        ObjectTable {
            objects: Vec::new(),
            free_list: Vec::new(),
            generations: Vec::new(),
            string_pool,
            string_pool_free,
        }
    }

    /// Whether `alloc` may be called.
    pub fn espacio(&self) -> (r: bool)
        ensures
            r == self.espacio_s(),
    {
        self.free_list.len() > 0 || self.objects.len() < 0x10000
    }

    /// Place an object and return a fresh live handle to it.  Handles
    /// that were live before stay live and keep their objects; dead
    /// handles other than the returned one stay dead; the returned
    /// handle was not live before, so it aliases nothing.  A short
    /// text goes to the pool (top bit set) exactly while the pool has
    /// room; anything else takes one unit of arena capacity.
    pub fn alojar(&mut self, obj: Obj) -> (h: u32)
        requires
            old(self).wf(),
            old(self).espacio_s(),
        ensures
            final(self).wf(),
            final(self).vivo(h),
            final(self).objeto_en(h) == obj,
            !old(self).vivo(h),
            forall|h2: u32|
                old(self).vivo(h2) ==> #[trigger] final(self).vivo(h2) && final(self).objeto_en(
                    h2,
                ) == old(self).objeto_en(h2),
            forall|h2: u32|
                h2 != h && !old(self).vivo(h2) ==> !(#[trigger] final(self).vivo(h2)),
            es_pool(h) == (texto_corto(obj) && old(self).pool_espacio_s()),
            es_pool(h) ==> final(self).capacidad_s() == old(self).capacidad_s(),
            !es_pool(h) ==> final(self).capacidad_s() == old(self).capacidad_s() - 1,
    {
        let corto = match &obj {
            Obj::Texto(s) => s.as_str().unicode_len() < 64,
            _ => false,
        };
        if corto && self.string_pool_free.len() > 0 {
            let idx = self.string_pool_free.remove(0);
            self.string_pool[idx as usize] = Some(obj);
            proof {
                lema_handle_pool(idx);
                assert forall|h2: u32| old(self).vivo(h2) implies #[trigger] self.vivo(h2)
                    && self.objeto_en(h2) == old(self).objeto_en(h2) by {
                    if es_pool(h2) {
                        assert((h2 & 0x7FFFFFFF) as int != idx as int);
                    }
                }
                assert forall|h2: u32|
                    h2 != (MARCA_POOL | idx) && !old(self).vivo(h2) implies !(
                #[trigger] self.vivo(h2)) by {
                    if es_pool(h2) && (h2 & 0x7FFFFFFF) as int == idx as int {
                        lema_pool_igual(MARCA_POOL | idx, h2);
                    }
                }
            }
            return MARCA_POOL | idx;
        }
        let indice: u32;
        if self.free_list.len() > 0 {
            indice = self.free_list.remove(0);
        } else {
            indice = self.objects.len() as u32;
            self.objects.push(None);
            self.generations.push(0);
        }
        let g: u32 = self.generations[indice as usize];
        self.objects[indice as usize] = Some(obj);
        proof {
            lema_handle_arena(g, indice);
            assert forall|h2: u32| old(self).vivo(h2) implies #[trigger] self.vivo(h2)
                && self.objeto_en(h2) == old(self).objeto_en(h2) by {
                if !es_pool(h2) {
                    assert((h2 & 0xFFFF) as int != indice as int);
                }
            }
            assert forall|h2: u32|
                h2 != ((g << 16) | indice) && !old(self).vivo(h2) implies !(
            #[trigger] self.vivo(h2)) by {
                if !es_pool(h2) && (h2 & 0xFFFF) as int == indice as int && self.vivo(h2) {
                    lema_handle_igual((g << 16) | indice, h2);
                }
            }
        }
        (g << 16) | indice
    }

    /// Read through a handle; a stale or foreign handle reads as
    /// absent, never as some other object.
    pub fn get(&self, h: u32) -> (r: Option<&Obj>)
        requires
            self.wf(),
        ensures
            match r {
                Some(o) => self.vivo(h) && *o == self.objeto_en(h),
                None => !self.vivo(h),
            },
    {
        if h & MARCA_POOL == MARCA_POOL {
            let idx = (h & 0x7FFFFFFF) as usize;
            if idx >= TAM_POOL {
                return None;
            }
            match &self.string_pool[idx] {
                Some(o) => Some(o),
                None => None,
            }
        } else {
            let slot = (h & 0xFFFF) as usize;
            let gen = h >> 16;
            if slot >= self.objects.len() {
                return None;
            }
            if self.generations[slot] != gen {
                return None;
            }
            match &self.objects[slot] {
                Some(o) => Some(o),
                None => None,
            }
        }
    }

    /// Replace the object a live handle refers to.  Pooled strings are
    /// immutable and refuse, as does any dead handle; nothing else in
    /// the table moves.
    pub fn reemplaza(&mut self, h: u32, obj: Obj) -> (r: bool)
        requires
            old(self).wf(),
        ensures
            final(self).wf(),
            r == (old(self).vivo(h) && !es_pool(h)),
            forall|h2: u32|
                #[trigger] final(self).vivo(h2) == old(self).vivo(h2),
            forall|h2: u32|
                old(self).vivo(h2) && h2 != h ==> #[trigger] final(self).objeto_en(h2) == old(self).objeto_en(h2),
            r ==> final(self).objeto_en(h) == obj,
            final(self).espacio_s() == old(self).espacio_s(),
            final(self).capacidad_s() == old(self).capacidad_s(),
    {
        if h & MARCA_POOL == MARCA_POOL {
            return false;
        }
        let slot = (h & 0xFFFF) as usize;
        let gen = h >> 16;
        if slot >= self.objects.len() {
            return false;
        }
        if self.generations[slot] != gen {
            return false;
        }
        if self.objects[slot].is_none() {
            return false;
        }
        self.objects[slot] = Some(obj);
        proof {
            assert forall|h2: u32|
                old(self).vivo(h2) && h2 != h implies #[trigger] self.objeto_en(h2) == old(self).objeto_en(h2) by {
                if !es_pool(h2) && (h2 & 0xFFFF) as int == slot as int {
                    lema_handle_igual(h, h2);
                }
            }
            assert forall|h2: u32| #[trigger] self.vivo(h2) == old(self).vivo(h2) by {}
        }
        true
    }

    /// Take the object out of a live handle, leaving `obj` in its
    /// place; the handle stays live.  Pooled strings are immutable and
    /// refuse, as does any dead handle.
    pub fn toma_reemplaza(&mut self, h: u32, obj: Obj) -> (r: Option<Obj>)
        requires
            old(self).wf(),
        ensures
            final(self).wf(),
            forall|h2: u32| #[trigger] final(self).vivo(h2) == old(self).vivo(h2),
            forall|h2: u32|
                old(self).vivo(h2) && h2 != h ==> #[trigger] final(self).objeto_en(h2) == old(self).objeto_en(h2),
            final(self).espacio_s() == old(self).espacio_s(),
            final(self).capacidad_s() == old(self).capacidad_s(),
            match r {
                Some(viejo) => old(self).vivo(h) && !es_pool(h) && viejo == old(self).objeto_en(h)
                    && final(self).objeto_en(h) == obj,
                None => !old(self).vivo(h) || es_pool(h),
            },
    {
        if h & MARCA_POOL == MARCA_POOL {
            return None;
        }
        let slot = (h & 0xFFFF) as usize;
        let gen = h >> 16;
        if slot >= self.objects.len() {
            return None;
        }
        if self.generations[slot] != gen {
            return None;
        }
        if self.objects[slot].is_none() {
            return None;
        }
        let mut nuevo = Some(obj);
        core::mem::swap(&mut self.objects[slot], &mut nuevo);
        proof {
            assert forall|h2: u32|
                old(self).vivo(h2) && h2 != h implies #[trigger] self.objeto_en(h2) == old(self).objeto_en(h2) by {
                if !es_pool(h2) && (h2 & 0xFFFF) as int == slot as int {
                    lema_handle_igual(h, h2);
                }
            }
        }
        match nuevo {
            Some(viejo) => Some(viejo),
            None => None,
        }
    }

    /// Release a handle.  Afterwards exactly the other handles are
    /// live, with their objects untouched: the freed slot's generation
    /// is bumped, so the handle (and any older one for the slot) stays
    /// dead even after the slot is reused.
    pub fn free(&mut self, h: u32)
        requires
            old(self).wf(),
        ensures
            final(self).wf(),
            forall|h2: u32| #[trigger] final(self).vivo(h2) == (old(self).vivo(h2) && h2 != h),
            forall|h2: u32|
                final(self).vivo(h2) ==> #[trigger] final(self).objeto_en(h2) == old(self).objeto_en(h2),
            old(self).espacio_s() ==> final(self).espacio_s(),
            final(self).capacidad_s() >= old(self).capacidad_s(),
    {
        if h & MARCA_POOL == MARCA_POOL {
            let idx = (h & 0x7FFFFFFF) as usize;
            if idx >= TAM_POOL {
                return ;
            }
            if self.string_pool[idx].is_none() {
                return ;
            }
            self.string_pool[idx] = None;
            self.string_pool_free.push(idx as u32);
            proof {
                assert forall|h2: u32|
                    #[trigger] self.vivo(h2) == (old(self).vivo(h2) && h2 != h) by {
                    if es_pool(h2) && (h2 & 0x7FFFFFFF) as int == idx as int {
                        lema_pool_igual(h, h2);
                    }
                }
            }
            return ;
        }
        let slot = (h & 0xFFFF) as usize;
        let gen = h >> 16;
        if slot >= self.objects.len() {
            return ;
        }
        if self.generations[slot] != gen {
            return ;
        }
        if self.objects[slot].is_none() {
            return ;
        }
        self.objects[slot] = None;
        self.generations[slot] = (self.generations[slot] + 1) % 0x8000;
        self.free_list.push(slot as u32);
        proof {
            assert forall|h2: u32|
                #[trigger] self.vivo(h2) == (old(self).vivo(h2) && h2 != h) by {
                if !es_pool(h2) && (h2 & 0xFFFF) as int == slot as int {
                    if old(self).vivo(h2) {
                        lema_handle_igual(h, h2);
                    }
                }
            }
            assert forall|i: int, j: int|
                0 <= i < j < self.free_list@.len() implies self.free_list@[i]
                != self.free_list@[j] by {
                if j == self.free_list@.len() - 1 {
                    assert(old(self).objects@[self.free_list@[i] as int] is None);
                }
            }
        }
    }

    /// How many objects the main arena currently holds.
    pub closed spec fn cuenta_s(self) -> nat {
        cuenta_vivos(self.objects@)
    }

    pub fn count(&self) -> (r: usize)
        requires
            self.wf(),
        ensures
            r as nat == self.cuenta_s(),
    {
        let mut n: usize = 0;
        let mut i: usize = 0;
        proof {
            lema_cuenta_prefijo(self.objects@, 0);
        }
        while i < self.objects.len()
            invariant
                i <= self.objects@.len(),
                n as nat == cuenta_vivos(self.objects@.take(i as int)),
                n <= i,
            decreases self.objects@.len() - i,
        {
            proof {
                assert(self.objects@.take(i + 1).drop_last() =~= self.objects@.take(i as int));
                assert(self.objects@.take(i + 1).last() == self.objects@[i as int]);
            }
            if self.objects[i].is_some() {
                n = n + 1;
            }
            i = i + 1;
        }
        proof {
            assert(self.objects@.take(i as int) =~= self.objects@);
        }
        n
    }
}

/// Number of occupied slots.
pub open spec fn cuenta_vivos(s: Seq<Option<Obj>>) -> nat
    decreases s.len(),
{
    if s.len() == 0 {
        0
    } else {
        cuenta_vivos(s.drop_last()) + if s.last() is Some {
            1nat
        } else {
            0nat
        }
    }
}

proof fn lema_cuenta_prefijo(s: Seq<Option<Obj>>, i: int)
    requires
        0 <= i <= s.len(),
    ensures
        cuenta_vivos(s.take(0)) == 0,
{
    assert(s.take(0) =~= Seq::<Option<Obj>>::empty());
}

proof fn lema_handle_pool(idx: u32)
    by (bit_vector)
    requires
        idx < 0x100,
    ensures
        es_pool(MARCA_POOL | idx),
        ((MARCA_POOL | idx) & 0x7FFFFFFF) == idx,
{
}

proof fn lema_handle_arena(g: u32, indice: u32)
    by (bit_vector)
    requires
        g < 0x8000,
        indice < 0x10000,
    ensures
        !es_pool((g << 16) | indice),
        (((g << 16) | indice) & 0xFFFF) == indice,
        (((g << 16) | indice) >> 16) == g,
{
}

/// Two non-pool handles with the same slot and generation are the same
/// handle.
proof fn lema_handle_igual(h: u32, h2: u32)
    by (bit_vector)
    requires
        !es_pool(h),
        !es_pool(h2),
        h & 0xFFFF == h2 & 0xFFFF,
        h >> 16 == h2 >> 16,
    ensures
        h == h2,
{
}

/// Two pool handles with the same pool index are the same handle.
proof fn lema_pool_igual(h: u32, h2: u32)
    by (bit_vector)
    requires
        es_pool(h),
        es_pool(h2),
        h & 0x7FFFFFFF == h2 & 0x7FFFFFFF,
    ensures
        h == h2,
{
}

} // verus!
