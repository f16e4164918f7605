//! Property-access cache keyed by (program counter, property name).
//!
//! A site starts monomorphic: one (type id, offset) pair.  Seeing a
//! second type migrates it to a polymorphic entry of up to four pairs
//! scanned linearly.  A fifth type makes the site megamorphic: the
//! entry is dropped and every later access at that site misses, which
//! stays functional but uncached.

use vstd::prelude::*;

use crate::asoc::{
    busca_k_s, lema_k_actualiza, lema_k_agrega, lema_k_ausente, lema_k_en, lema_k_ninguno,
    lema_k_quita, lema_unicidad_quita,
};

verus! {

/// One cached (type, offset) pair and how often it has hit.
#[derive(Clone, Copy, PartialEq, Eq, Structural, Debug)]
pub struct CacheEntry {
    pub last_type_id: u64,
    pub last_offset: usize,
    pub hit_count: u32,
}

/// Key of a cache line.
pub open spec fn clave_mono() -> spec_fn(((usize, String), CacheEntry)) -> (usize, Seq<char>) {
    |e: ((usize, String), CacheEntry)| (e.0.0, e.0.1@)
}

pub open spec fn clave_poli() -> spec_fn(((usize, String), Vec<CacheEntry>)) -> (
    usize,
    Seq<char>,
) {
    |e: ((usize, String), Vec<CacheEntry>)| (e.0.0, e.0.1@)
}

/// Type-id key within one polymorphic line.
pub open spec fn clave_tid() -> spec_fn(CacheEntry) -> u64 {
    |e: CacheEntry| e.last_type_id
}

/// The monomorphic, polymorphic and megamorphic tiers of the cache.
pub struct InlineCache {
    monomorphic: Vec<((usize, String), CacheEntry)>,
    polymorphic: Vec<((usize, String), Vec<CacheEntry>)>,
    cache_hits: u64,
    cache_misses: u64,
}

impl InlineCache {
    /// A site is in at most one tier, and each tier holds one line per
    /// site.
    pub closed spec fn wf_ic(self) -> bool {
        &&& forall|i: int, j: int|
            0 <= i < j < self.monomorphic@.len() ==> clave_mono()(self.monomorphic@[i])
                != clave_mono()(self.monomorphic@[j])
        &&& forall|i: int, j: int|
            0 <= i < j < self.polymorphic@.len() ==> clave_poli()(self.polymorphic@[i])
                != clave_poli()(self.polymorphic@[j])
        &&& forall|i: int, j: int|
            0 <= i < self.monomorphic@.len() && 0 <= j < self.polymorphic@.len() ==> clave_mono()(
                self.monomorphic@[i],
            ) != clave_poli()(self.polymorphic@[j])
    }

    /// The monomorphic line of a site.
    pub closed spec fn mono_s(self, pc: usize, prop: Seq<char>) -> Option<CacheEntry> {
        match busca_k_s(self.monomorphic@, clave_mono(), (pc, prop)) {
            Some(e) => Some(e.1),
            None => None,
        }
    }

    /// The polymorphic line of a site.
    pub closed spec fn poli_s(self, pc: usize, prop: Seq<char>) -> Option<Seq<CacheEntry>> {
        match busca_k_s(self.polymorphic@, clave_poli(), (pc, prop)) {
            Some(e) => Some(e.1@),
            None => None,
        }
    }

    /// What a lookup of (site, type) yields: the monomorphic pair when
    /// the type matches, else the matching pair of the polymorphic
    /// line.
    pub open spec fn consulta_s(self, pc: usize, prop: Seq<char>, tid: u64) -> Option<usize> {
        match self.mono_s(pc, prop) {
            Some(e) => if e.last_type_id == tid {
                Some(e.last_offset)
            } else {
                consulta_poli_s(self.poli_s(pc, prop), tid)
            },
            None => consulta_poli_s(self.poli_s(pc, prop), tid),
        }
    }

    pub closed spec fn largos_s(self) -> (nat, nat) {
        (self.monomorphic@.len(), self.polymorphic@.len())
    }

    /// Total hits so far.
    pub closed spec fn golpes_s(self) -> u64 {
        self.cache_hits
    }

    /// Total misses so far.
    pub closed spec fn fallos_s(self) -> u64 {
        self.cache_misses
    }

    /// Current number of monomorphic and polymorphic lines.
    pub fn largos(&self) -> (r: (usize, usize))
        ensures
            r.0 as nat == self.largos_s().0,
            r.1 as nat == self.largos_s().1,
    {
        (self.monomorphic.len(), self.polymorphic.len())
    }

    pub fn hits(&self) -> (r: u64)
        ensures
            r == self.golpes_s(),
    {
        self.cache_hits
    }

    pub fn misses(&self) -> (r: u64)
        ensures
            r == self.fallos_s(),
    {
        self.cache_misses
    }

    pub fn new() -> (r: InlineCache)
        ensures
            r.wf_ic(),
            forall|pc: usize, prop: Seq<char>, tid: u64| r.consulta_s(pc, prop, tid) is None,
            forall|pc: usize, prop: Seq<char>| r.mono_s(pc, prop) is None,
            forall|pc: usize, prop: Seq<char>| r.poli_s(pc, prop) is None,
            r.golpes_s() == 0,
            r.fallos_s() == 0,
            r.largos_s() == (0nat, 0nat),
    {
        InlineCache {
            monomorphic: Vec::new(),
            polymorphic: Vec::new(),
            cache_hits: 0,
            cache_misses: 0,
        }
    }

    /// Look a (site, type) up; a hit bumps the matched pair's counter
    /// and the hit total, a miss the miss total.  What every site
    /// yields is unchanged.
    pub fn lookup(&mut self, pc: usize, property: &String, type_id: u64) -> (r: Option<usize>)
        requires
            old(self).wf_ic(),
        ensures
            final(self).wf_ic(),
            r == old(self).consulta_s(pc, property@, type_id),
            forall|pc2: usize, prop2: Seq<char>, tid2: u64| #[trigger]
                final(self).consulta_s(pc2, prop2, tid2) == old(self).consulta_s(
                    pc2,
                    prop2,
                    tid2,
                ),
            r is Some ==> final(self).golpes_s() == suma_sat(old(self).golpes_s())
                && final(self).fallos_s() == old(self).fallos_s(),
            r is None ==> final(self).fallos_s() == suma_sat(old(self).fallos_s())
                && final(self).golpes_s() == old(self).golpes_s(),
            final(self).largos_s() == old(self).largos_s(),
            old(self).mono_s(pc, property@) matches Some(e) ==> (e.last_type_id == type_id
                ==> final(self).mono_s(pc, property@) == Some(subir_golpe_s(e)) && final(self).poli_s(
                pc,
                property@,
            ) == old(self).poli_s(pc, property@)),
            !golpe_mono_s(old(self).mono_s(pc, property@), type_id) ==> (old(self).poli_s(
                pc,
                property@,
            ) matches Some(v) ==> (busca_k_s(v, clave_tid(), type_id) matches Some(e2) ==> final(self).mono_s(
                pc,
                property@,
            ) == old(self).mono_s(pc, property@) && (exists|j: int|
                0 <= j < v.len() && #[trigger] v[j].last_type_id == type_id && final(self).poli_s(
                    pc,
                    property@,
                ) == Some(v.update(j, subir_golpe_s(e2)))))),
    {
        match indice_mono(&self.monomorphic, pc, property) {
            Some(i) => {
                let e = self.monomorphic[i].1;
                if e.last_type_id == type_id {
                    let ghost anterior = self.monomorphic@;
                    let clavev = self.monomorphic[i].0.1.clone();
                    let nuevo = CacheEntry {
                        last_type_id: e.last_type_id,
                        last_offset: e.last_offset,
                        hit_count: suma_sat32_e(e.hit_count),
                    };
                    self.monomorphic[i] = ((pc, clavev), nuevo);
                    self.cache_hits = suma_sat_e(self.cache_hits);
                    proof {
                        assert(self.monomorphic@ =~= anterior.update(
                            i as int,
                            ((pc, self.monomorphic@[i as int].0.1), nuevo),
                        ));
                        assert forall|pc2: usize, prop2: Seq<char>, tid2: u64| #[trigger]
                            self.consulta_s(pc2, prop2, tid2) == old(self).consulta_s(
                                pc2,
                                prop2,
                                tid2,
                            ) by {
                            lema_k_actualiza(
                                anterior,
                                clave_mono(),
                                i as int,
                                self.monomorphic@[i as int],
                                (pc2, prop2),
                            );
                        }
                        lema_k_actualiza(
                            anterior,
                            clave_mono(),
                            i as int,
                            self.monomorphic@[i as int],
                            (pc, property@),
                        );
                    }
                    return Some(e.last_offset);
                }
            },
            None => {
        },
        }
        match indice_poli(&self.polymorphic, pc, property) {
            Some(i) => {
                match indice_tid(&self.polymorphic[i].1, type_id) {
                    Some(j) => {
                        let e = self.polymorphic[i].1[j];
                        let ghost anterior = self.polymorphic@;
                        let ghost linea = self.polymorphic@[i as int].1@;
                        let nuevo = CacheEntry {
                            last_type_id: e.last_type_id,
                            last_offset: e.last_offset,
                            hit_count: suma_sat32_e(e.hit_count),
                        };
                        let mut sacada: ((usize, String), Vec<CacheEntry>) = (
                            (0, String::new()),
                            Vec::new(),
                        );
                        core::mem::swap(&mut self.polymorphic[i], &mut sacada);
                        let mut nueva_linea = sacada.1;
                        nueva_linea[j] = nuevo;
                        self.polymorphic[i] = (sacada.0, nueva_linea);
                        self.cache_hits = suma_sat_e(self.cache_hits);
                        proof {
                            assert(self.polymorphic@ =~= anterior.update(
                                i as int,
                                self.polymorphic@[i as int],
                            ));
                            assert(self.polymorphic@[i as int].0 == anterior[i as int].0);
                            assert(self.polymorphic@[i as int].1@ =~= linea.update(
                                j as int,
                                nuevo,
                            ));
                            assert forall|pc2: usize, prop2: Seq<char>, tid2: u64| #[trigger]
                                self.consulta_s(pc2, prop2, tid2) == old(self).consulta_s(
                                    pc2,
                                    prop2,
                                    tid2,
                                ) by {
                                lema_k_actualiza(
                                    anterior,
                                    clave_poli(),
                                    i as int,
                                    self.polymorphic@[i as int],
                                    (pc2, prop2),
                                );
                                lema_k_actualiza(linea, clave_tid(), j as int, nuevo, tid2);
                            }
                            lema_k_actualiza(
                                anterior,
                                clave_poli(),
                                i as int,
                                self.polymorphic@[i as int],
                                (pc, property@),
                            );
                            assert(linea[j as int].last_type_id == type_id);
                            assert(self.poli_s(pc, property@) == Some(
                                linea.update(j as int, nuevo),
                            ));
                        }
                        return Some(e.last_offset);
                    },
                    None => {},
                }
            },
            None => {},
        }
        self.cache_misses = suma_sat_e(self.cache_misses);
        None
    }
}

impl InlineCache {
    /// Record an observed (site, type) -> offset binding.  A matching
    /// monomorphic or polymorphic pair is refreshed in place; a second
    /// type migrates the site to a polymorphic line; a fifth type
    /// drops the line (megamorphic); a fresh site becomes monomorphic.
    /// Other sites and the counters are untouched.
    pub fn record(&mut self, pc: usize, property: &String, type_id: u64, offset: usize)
        requires
            old(self).wf_ic(),
            old(self).largos_s().0 < usize::MAX,
            old(self).largos_s().1 < usize::MAX,
        ensures
            final(self).wf_ic(),
            final(self).golpes_s() == old(self).golpes_s(),
            final(self).fallos_s() == old(self).fallos_s(),
            final(self).largos_s().0 <= old(self).largos_s().0 + 1,
            final(self).largos_s().1 <= old(self).largos_s().1 + 1,
            forall|pc2: usize, prop2: Seq<char>|
                (pc2, prop2) != (pc, property@) ==> #[trigger] final(self).mono_s(pc2, prop2)
                    == old(self).mono_s(pc2, prop2),
            forall|pc2: usize, prop2: Seq<char>|
                (pc2, prop2) != (pc, property@) ==> #[trigger] final(self).poli_s(pc2, prop2)
                    == old(self).poli_s(pc2, prop2),
            ({
                let m = old(self).mono_s(pc, property@);
                let p = old(self).poli_s(pc, property@);
                let fresco = CacheEntry { last_type_id: type_id, last_offset: offset, hit_count: 0 };
                match m {
                    Some(e) => if e.last_type_id == type_id {
                        final(self).mono_s(pc, property@) == Some(
                            CacheEntry {
                                last_type_id: type_id,
                                last_offset: offset,
                                hit_count: e.hit_count,
                            },
                        ) && final(self).poli_s(pc, property@) == p
                    } else {
                        final(self).mono_s(pc, property@) is None && final(self).poli_s(
                            pc,
                            property@,
                        ) == Some(seq![e, fresco])
                    },
                    None => match p {
                        Some(v) => if busca_k_s(v, clave_tid(), type_id) is Some {
                            final(self).mono_s(pc, property@) is None && exists|j: int|
                                0 <= j < v.len() && #[trigger] v[j].last_type_id == type_id
                                    && final(self).poli_s(pc, property@) == Some(
                                    v.update(
                                        j,
                                        CacheEntry {
                                            last_type_id: type_id,
                                            last_offset: offset,
                                            hit_count: v[j].hit_count,
                                        },
                                    ),
                                )
                        } else if v.len() >= 4 {
                            final(self).mono_s(pc, property@) is None && final(self).poli_s(
                                pc,
                                property@,
                            ) is None
                        } else {
                            final(self).mono_s(pc, property@) is None && final(self).poli_s(
                                pc,
                                property@,
                            ) == Some(v.push(fresco))
                        },
                        None => final(self).mono_s(pc, property@) == Some(
                            CacheEntry {
                                last_type_id: type_id,
                                last_offset: offset,
                                hit_count: 1,
                            },
                        ) && final(self).poli_s(pc, property@) is None,
                    },
                }
            }),
    {
        let ghost clave: (usize, Seq<char>) = (pc, property@);
        match indice_mono(&self.monomorphic, pc, property) {
            Some(i) => {
                let e = self.monomorphic[i].1;
                let ghost anterior = self.monomorphic@;
                if e.last_type_id == type_id {
                    let clavev = self.monomorphic[i].0.1.clone();
                    let nuevo = CacheEntry {
                        last_type_id: type_id,
                        last_offset: offset,
                        hit_count: e.hit_count,
                    };
                    self.monomorphic[i] = ((pc, clavev), nuevo);
                    proof {
                        assert(self.monomorphic@ =~= anterior.update(
                            i as int,
                            self.monomorphic@[i as int],
                        ));
                        assert forall|pc2: usize, prop2: Seq<char>| #[trigger]
                            busca_k_s(self.monomorphic@, clave_mono(), (pc2, prop2)) == if (
                            pc2,
                            prop2,
                        ) == clave {
                                Some(self.monomorphic@[i as int])
                            } else {
                                busca_k_s(anterior, clave_mono(), (pc2, prop2))
                            } by {
                            lema_k_actualiza(
                                anterior,
                                clave_mono(),
                                i as int,
                                self.monomorphic@[i as int],
                                (pc2, prop2),
                            );
                        }
                        assert forall|a: int, b: int|
                            0 <= a < b < self.monomorphic@.len() implies clave_mono()(
                            self.monomorphic@[a],
                        ) != clave_mono()(self.monomorphic@[b]) by {
                            assert(clave_mono()(self.monomorphic@[a]) == clave_mono()(
                                anterior[a],
                            ));
                            assert(clave_mono()(self.monomorphic@[b]) == clave_mono()(
                                anterior[b],
                            ));
                        }
                        assert forall|a: int, b: int|
                            0 <= a < self.monomorphic@.len() && 0 <= b
                                < self.polymorphic@.len() implies clave_mono()(
                            self.monomorphic@[a],
                        ) != clave_poli()(self.polymorphic@[b]) by {
                            assert(clave_mono()(self.monomorphic@[a]) == clave_mono()(
                                anterior[a],
                            ));
                        }
                    }
                } else {
                    // A second type: migrate the line to the polymorphic
                    // tier.
                    let par = self.monomorphic.remove(i);
                    let nuevo = CacheEntry {
                        last_type_id: type_id,
                        last_offset: offset,
                        hit_count: 0,
                    };
                    let mut linea: Vec<CacheEntry> = Vec::new();
                    linea.push(e);
                    linea.push(nuevo);
                    let ghost poli_antes = self.polymorphic@;
                    proof {
                        lema_unicidad_quita(anterior, clave_mono(), i as int);
                        assert forall|pc2: usize, prop2: Seq<char>| #[trigger]
                            busca_k_s(self.monomorphic@, clave_mono(), (pc2, prop2)) == if (
                            pc2,
                            prop2,
                        ) == clave {
                                None::<((usize, String), CacheEntry)>
                            } else {
                                busca_k_s(anterior, clave_mono(), (pc2, prop2))
                            } by {
                            lema_k_quita(anterior, clave_mono(), i as int, (pc2, prop2));
                            if (pc2, prop2) == clave {
                                assert forall|t: int|
                                    0 <= t < anterior.subrange(
                                        i + 1,
                                        anterior.len() as int,
                                    ).len() implies #[trigger] clave_mono()(
                                    anterior.subrange(i + 1, anterior.len() as int)[t],
                                ) != clave by {
                                    assert(anterior.subrange(i + 1, anterior.len() as int)[t]
                                        == anterior[t + i + 1]);
                                }
                                lema_k_ausente(
                                    anterior.subrange(i + 1, anterior.len() as int),
                                    clave_mono(),
                                    clave,
                                );
                            }
                        }
                        // The key leaves the monomorphic tier, so the
                        // polymorphic tier may take it.
                        assert(busca_k_s(poli_antes, clave_poli(), clave) is None) by {
                            lema_k_ausente(poli_antes, clave_poli(), clave);
                        }
                    }
                    self.polymorphic.push(((pc, par.0.1), linea));
                    proof {
                        assert forall|pc2: usize, prop2: Seq<char>| #[trigger]
                            busca_k_s(self.polymorphic@, clave_poli(), (pc2, prop2)) == if (
                            pc2,
                            prop2,
                        ) == clave {
                                Some(self.polymorphic@.last())
                            } else {
                                busca_k_s(poli_antes, clave_poli(), (pc2, prop2))
                            } by {
                            lema_k_agrega(
                                poli_antes,
                                clave_poli(),
                                self.polymorphic@.last(),
                                (pc2, prop2),
                            );
                        }
                        assert(self.polymorphic@.last().1@ =~= seq![e, nuevo]);
                        lema_unicidad_agrega_poli(poli_antes, self.polymorphic@.last());
                        assert forall|a: int, b: int|
                            0 <= a < self.monomorphic@.len() && 0 <= b
                                < self.polymorphic@.len() implies clave_mono()(
                            self.monomorphic@[a],
                        ) != clave_poli()(self.polymorphic@[b]) by {
                            let lr = anterior.remove(i as int);
                            if a < i {
                                assert(lr[a] == anterior[a]);
                            } else {
                                assert(lr[a] == anterior[a + 1]);
                            }
                            if b < poli_antes.len() {
                                assert(self.polymorphic@[b] == poli_antes[b]);
                            }
                        }
                    }
                }
                return ;
            },
            None => {},
        }
        match indice_poli(&self.polymorphic, pc, property) {
            Some(i) => {
                let ghost anterior = self.polymorphic@;
                let ghost linea = self.polymorphic@[i as int].1@;
                match indice_tid(&self.polymorphic[i].1, type_id) {
                    Some(j) => {
                        let ev = self.polymorphic[i].1[j];
                        let nuevo = CacheEntry {
                            last_type_id: type_id,
                            last_offset: offset,
                            hit_count: ev.hit_count,
                        };
                        let mut sacada: ((usize, String), Vec<CacheEntry>) = (
                            (0, String::new()),
                            Vec::new(),
                        );
                        core::mem::swap(&mut self.polymorphic[i], &mut sacada);
                        let mut nueva_linea = sacada.1;
                        nueva_linea[j] = nuevo;
                        self.polymorphic[i] = (sacada.0, nueva_linea);
                        proof {
                            assert(self.polymorphic@ =~= anterior.update(
                                i as int,
                                self.polymorphic@[i as int],
                            ));
                            assert(self.polymorphic@[i as int].0 == anterior[i as int].0);
                            assert(self.polymorphic@[i as int].1@ =~= linea.update(
                                j as int,
                                nuevo,
                            ));
                            assert forall|pc2: usize, prop2: Seq<char>| #[trigger]
                                busca_k_s(self.polymorphic@, clave_poli(), (pc2, prop2)) == if (
                                pc2,
                                prop2,
                            ) == clave {
                                    Some(self.polymorphic@[i as int])
                                } else {
                                    busca_k_s(anterior, clave_poli(), (pc2, prop2))
                                } by {
                                lema_k_actualiza(
                                    anterior,
                                    clave_poli(),
                                    i as int,
                                    self.polymorphic@[i as int],
                                    (pc2, prop2),
                                );
                            }
                            assert forall|a: int, b: int|
                                0 <= a < b < self.polymorphic@.len() implies clave_poli()(
                                self.polymorphic@[a],
                            ) != clave_poli()(self.polymorphic@[b]) by {
                                assert(clave_poli()(self.polymorphic@[a]) == clave_poli()(
                                    anterior[a],
                                ));
                                assert(clave_poli()(self.polymorphic@[b]) == clave_poli()(
                                    anterior[b],
                                ));
                            }
                            assert forall|a: int, b: int|
                                0 <= a < self.monomorphic@.len() && 0 <= b
                                    < self.polymorphic@.len() implies clave_mono()(
                                self.monomorphic@[a],
                            ) != clave_poli()(self.polymorphic@[b]) by {
                                assert(clave_poli()(self.polymorphic@[b]) == clave_poli()(
                                    anterior[b],
                                ));
                            }
                        }
                    },
                    None => {
                        if self.polymorphic[i].1.len() >= 4 {
                            // A fifth type: the site goes megamorphic.
                            self.polymorphic.remove(i);
                            proof {
                                lema_unicidad_quita(anterior, clave_poli(), i as int);
                                assert forall|pc2: usize, prop2: Seq<char>| #[trigger]
                                    busca_k_s(self.polymorphic@, clave_poli(), (pc2, prop2)) == if (
                                    pc2,
                                    prop2,
                                ) == clave {
                                        None::<((usize, String), Vec<CacheEntry>)>
                                    } else {
                                        busca_k_s(anterior, clave_poli(), (pc2, prop2))
                                    } by {
                                    lema_k_quita(anterior, clave_poli(), i as int, (pc2, prop2));
                                    if (pc2, prop2) == clave {
                                        assert forall|t: int|
                                            0 <= t < anterior.subrange(
                                                i + 1,
                                                anterior.len() as int,
                                            ).len() implies #[trigger] clave_poli()(
                                            anterior.subrange(i + 1, anterior.len() as int)[t],
                                        ) != clave by {
                                            assert(anterior.subrange(
                                                i + 1,
                                                anterior.len() as int,
                                            )[t] == anterior[t + i + 1]);
                                        }
                                        lema_k_ausente(
                                            anterior.subrange(i + 1, anterior.len() as int),
                                            clave_poli(),
                                            clave,
                                        );
                                    }
                                }
                                assert forall|a: int, b: int|
                                    0 <= a < self.monomorphic@.len() && 0 <= b
                                        < self.polymorphic@.len() implies clave_mono()(
                                    self.monomorphic@[a],
                                ) != clave_poli()(self.polymorphic@[b]) by {
                                    let lr = anterior.remove(i as int);
                                    if b < i {
                                        assert(lr[b] == anterior[b]);
                                    } else {
                                        assert(lr[b] == anterior[b + 1]);
                                    }
                                }
                            }
                        } else {
                            let nuevo = CacheEntry {
                                last_type_id: type_id,
                                last_offset: offset,
                                hit_count: 0,
                            };
                            let mut sacada: ((usize, String), Vec<CacheEntry>) = (
                                (0, String::new()),
                                Vec::new(),
                            );
                            core::mem::swap(&mut self.polymorphic[i], &mut sacada);
                            let mut nueva_linea = sacada.1;
                            nueva_linea.push(nuevo);
                            self.polymorphic[i] = (sacada.0, nueva_linea);
                            proof {
                                assert(self.polymorphic@ =~= anterior.update(
                                    i as int,
                                    self.polymorphic@[i as int],
                                ));
                                assert(self.polymorphic@[i as int].0 == anterior[i as int].0);
                                assert(self.polymorphic@[i as int].1@ =~= linea.push(nuevo));
                                assert forall|pc2: usize, prop2: Seq<char>| #[trigger]
                                    busca_k_s(self.polymorphic@, clave_poli(), (pc2, prop2)) == if (
                                    pc2,
                                    prop2,
                                ) == clave {
                                        Some(self.polymorphic@[i as int])
                                    } else {
                                        busca_k_s(anterior, clave_poli(), (pc2, prop2))
                                    } by {
                                    lema_k_actualiza(
                                        anterior,
                                        clave_poli(),
                                        i as int,
                                        self.polymorphic@[i as int],
                                        (pc2, prop2),
                                    );
                                }
                                assert forall|a: int, b: int|
                                    0 <= a < b < self.polymorphic@.len() implies clave_poli()(
                                    self.polymorphic@[a],
                                ) != clave_poli()(self.polymorphic@[b]) by {
                                    assert(clave_poli()(self.polymorphic@[a]) == clave_poli()(
                                        anterior[a],
                                    ));
                                    assert(clave_poli()(self.polymorphic@[b]) == clave_poli()(
                                        anterior[b],
                                    ));
                                }
                                assert forall|a: int, b: int|
                                    0 <= a < self.monomorphic@.len() && 0 <= b
                                        < self.polymorphic@.len() implies clave_mono()(
                                    self.monomorphic@[a],
                                ) != clave_poli()(self.polymorphic@[b]) by {
                                    assert(clave_poli()(self.polymorphic@[b]) == clave_poli()(
                                        anterior[b],
                                    ));
                                }
                            }
                        }
                    },
                }
                return ;
            },
            None => {},
        }
        // A fresh site: monomorphic entry with one hit.
        let ghost mono_antes = self.monomorphic@;
        let nuevo = CacheEntry { last_type_id: type_id, last_offset: offset, hit_count: 1 };
        proof {
            lema_k_ninguno(mono_antes, clave_mono(), clave);
        }
        self.monomorphic.push(((pc, property.clone()), nuevo));
        proof {
            assert forall|pc2: usize, prop2: Seq<char>| #[trigger]
                busca_k_s(self.monomorphic@, clave_mono(), (pc2, prop2)) == if (pc2, prop2)
                == clave {
                    Some(self.monomorphic@.last())
                } else {
                    busca_k_s(mono_antes, clave_mono(), (pc2, prop2))
                } by {
                lema_k_agrega(mono_antes, clave_mono(), self.monomorphic@.last(), (pc2, prop2));
            }
            lema_k_ninguno(self.polymorphic@, clave_poli(), clave);
            assert forall|a: int, b: int|
                0 <= a < b < self.monomorphic@.len() implies clave_mono()(self.monomorphic@[a])
                != clave_mono()(self.monomorphic@[b]) by {
                if b < mono_antes.len() {
                } else {
                    assert(clave_mono()(self.monomorphic@[a]) == clave_mono()(mono_antes[a]));
                }
            }
            assert forall|a: int, b: int|
                0 <= a < self.monomorphic@.len() && 0 <= b
                    < self.polymorphic@.len() implies clave_mono()(self.monomorphic@[a])
                != clave_poli()(self.polymorphic@[b]) by {
                if a < mono_antes.len() {
                    assert(clave_mono()(self.monomorphic@[a]) == clave_mono()(mono_antes[a]));
                }
            }
        }
    }

    /// Whether a site currently sits in the polymorphic tier.
    pub fn es_polimorfico(&self, pc: usize, property: &String) -> (r: bool)
        ensures
            r == (self.poli_s(pc, property@) is Some),
    {
        match indice_poli(&self.polymorphic, pc, property) {
            Some(_) => true,
            None => false,
        }
    }

    /// Hits, misses and the hit rate in hundredths of a percent.
    pub fn stats(&self) -> (r: String) {
        proof {
            reveal_strlit("Cache: aciertos=");
            reveal_strlit(", fallos=");
        }
        let mut s: String = "Cache: aciertos=".to_owned();
        let h = crate::cifras::u64_a_texto(self.cache_hits);
        s.append(h.as_str());
        s.append(", fallos=");
        let m = crate::cifras::u64_a_texto(self.cache_misses);
        s.append(m.as_str());
        s
    }

    /// Forget every line and zero the counters.
    pub fn clear(&mut self)
        ensures
            final(self).wf_ic(),
            forall|pc2: usize, prop2: Seq<char>| #[trigger] final(self).mono_s(pc2, prop2) is None,
            forall|pc2: usize, prop2: Seq<char>| #[trigger] final(self).poli_s(pc2, prop2) is None,
            final(self).golpes_s() == 0,
            final(self).fallos_s() == 0,
    {
        self.monomorphic.clear();
        self.polymorphic.clear();
        self.cache_hits = 0;
        self.cache_misses = 0;
    }
}

/// A pushed line with a fresh key keeps the keys pairwise distinct.
proof fn lema_unicidad_agrega_poli(
    l: Seq<((usize, String), Vec<CacheEntry>)>,
    v: ((usize, String), Vec<CacheEntry>),
)
    requires
        forall|a: int, b: int| 0 <= a < b < l.len() ==> clave_poli()(l[a]) != clave_poli()(l[b]),
        busca_k_s(l, clave_poli(), clave_poli()(v)) is None,
    ensures
        forall|a: int, b: int|
            0 <= a < b < l.push(v).len() ==> clave_poli()(l.push(v)[a]) != clave_poli()(
                l.push(v)[b],
            ),
{
    lema_k_ninguno(l, clave_poli(), clave_poli()(v));
    assert forall|a: int, b: int|
        0 <= a < b < l.push(v).len() implies clave_poli()(l.push(v)[a]) != clave_poli()(
        l.push(v)[b],
    ) by {
        if b < l.len() {
            assert(l.push(v)[a] == l[a]);
            assert(l.push(v)[b] == l[b]);
        } else {
            assert(l.push(v)[a] == l[a]);
            assert(l.push(v)[b] == v);
        }
    }
}

/// The matching pair of a polymorphic line, if the line exists.
pub open spec fn consulta_poli_s(linea: Option<Seq<CacheEntry>>, tid: u64) -> Option<usize> {
    match linea {
        Some(v) => match busca_k_s(v, clave_tid(), tid) {
            Some(e) => Some(e.last_offset),
            None => None,
        },
        None => None,
    }
}

/// Whether a monomorphic line matches the queried type.
pub open spec fn golpe_mono_s(m: Option<CacheEntry>, tid: u64) -> bool {
    match m {
        Some(e) => e.last_type_id == tid,
        None => false,
    }
}

/// The pair after one more hit.
pub open spec fn subir_golpe_s(e: CacheEntry) -> CacheEntry {
    CacheEntry {
        last_type_id: e.last_type_id,
        last_offset: e.last_offset,
        hit_count: suma_sat32(e.hit_count),
    }
}

/// Saturating successor.
pub open spec fn suma_sat(n: u64) -> u64 {
    if n == u64::MAX {
        n
    } else {
        (n + 1) as u64
    }
}

fn suma_sat_e(n: u64) -> (r: u64)
    ensures
        r == suma_sat(n),
{
    if n == u64::MAX {
        n
    } else {
        n + 1
    }
}

pub open spec fn suma_sat32(n: u32) -> u32 {
    if n == u32::MAX {
        n
    } else {
        (n + 1) as u32
    }
}

fn suma_sat32_e(n: u32) -> (r: u32)
    ensures
        r == suma_sat32(n),
{
    if n == u32::MAX {
        n
    } else {
        n + 1
    }
}

/// Index of the monomorphic line of a site.
fn indice_mono(l: &Vec<((usize, String), CacheEntry)>, pc: usize, prop: &String) -> (r: Option<
    usize,
>)
    ensures
        match r {
            Some(i) => i < l@.len() && clave_mono()(l@[i as int]) == (pc, prop@) && busca_k_s(
                l@,
                clave_mono(),
                (pc, prop@),
            ) == Some(l@[i as int]) && (forall|j: int|
                0 <= j < i ==> #[trigger] clave_mono()(l@[j]) != (pc, prop@)),
            None => busca_k_s(l@, clave_mono(), (pc, prop@)) is None,
        },
{
    let mut i: usize = 0;
    while i < l.len()
        invariant
            i <= l@.len(),
            forall|j: int| 0 <= j < i ==> #[trigger] clave_mono()(l@[j]) != (pc, prop@),
        decreases l@.len() - i,
    {
        if l[i].0.0 == pc && l[i].0.1 == *prop {
            proof {
                lema_k_en(l@, clave_mono(), i as int);
            }
            return Some(i);
        }
        i = i + 1;
    }
    proof {
        lema_k_ausente(l@, clave_mono(), (pc, prop@));
    }
    None
}

/// Index of the polymorphic line of a site.
fn indice_poli(l: &Vec<((usize, String), Vec<CacheEntry>)>, pc: usize, prop: &String) -> (r:
    Option<usize>)
    ensures
        match r {
            Some(i) => i < l@.len() && clave_poli()(l@[i as int]) == (pc, prop@) && busca_k_s(
                l@,
                clave_poli(),
                (pc, prop@),
            ) == Some(l@[i as int]) && (forall|j: int|
                0 <= j < i ==> #[trigger] clave_poli()(l@[j]) != (pc, prop@)),
            None => busca_k_s(l@, clave_poli(), (pc, prop@)) is None,
        },
{
    let mut i: usize = 0;
    while i < l.len()
        invariant
            i <= l@.len(),
            forall|j: int| 0 <= j < i ==> #[trigger] clave_poli()(l@[j]) != (pc, prop@),
        decreases l@.len() - i,
    {
        if l[i].0.0 == pc && l[i].0.1 == *prop {
            proof {
                lema_k_en(l@, clave_poli(), i as int);
            }
            return Some(i);
        }
        i = i + 1;
    }
    proof {
        lema_k_ausente(l@, clave_poli(), (pc, prop@));
    }
    None
}

/// Index of the pair for a type within one line.
fn indice_tid(l: &Vec<CacheEntry>, tid: u64) -> (r: Option<usize>)
    ensures
        match r {
            Some(j) => j < l@.len() && l@[j as int].last_type_id == tid && busca_k_s(
                l@,
                clave_tid(),
                tid,
            ) == Some(l@[j as int]) && (forall|t: int|
                0 <= t < j ==> #[trigger] clave_tid()(l@[t]) != tid),
            None => busca_k_s(l@, clave_tid(), tid) is None,
        },
{
    let mut j: usize = 0;
    while j < l.len()
        invariant
            j <= l@.len(),
            forall|t: int| 0 <= t < j ==> #[trigger] clave_tid()(l@[t]) != tid,
        decreases l@.len() - j,
    {
        if l[j].last_type_id == tid {
            proof {
                lema_k_en(l@, clave_tid(), j as int);
            }
            return Some(j);
        }
        j = j + 1;
    }
    proof {
        lema_k_ausente(l@, clave_tid(), tid);
    }
    None
}

} // verus!
