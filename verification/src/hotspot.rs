//! Per-function call counters and the compilation-request queue.
//!
//! Every call of a bytecode function at some entry program counter
//! bumps that counter.  The call that reaches the threshold marks the
//! function for compilation and enqueues it once; a background drain
//! takes requests from the queue, and finished compilations install
//! their native address into the entry.

use vstd::prelude::*;

use crate::asoc::{busca_k_s, lema_k_actualiza, lema_k_agrega, lema_k_ausente, lema_k_en};

verus! {

/// Calls after which a function is queued for compilation.
pub const HOTSPOT_THRESHOLD: u32 = 1000;

/// Calls after which a function counts as warm.
pub const TIER1_THRESHOLD: u32 = 100;

/// Calls after which a higher optimization tier may be requested.
pub const TIER2_THRESHOLD: u32 = 5000;

/// What the detector knows about one entry program counter.
#[derive(Clone, Copy, PartialEq, Eq, Structural, Debug)]
pub struct HotspotInfo {
    pub pc: usize,
    pub call_count: u32,
    pub compilation_tier: u8,
    pub is_compiling: bool,
    pub jit_address: Option<usize>,
}

/// Call counters keyed by entry program counter, plus the queue of
/// compilation requests.
pub struct HotspotDetector {
    hotspots: Vec<HotspotInfo>,
    compilation_queue: Vec<usize>,
}

/// Key of a detector entry.
pub open spec fn clave_hs() -> spec_fn(HotspotInfo) -> usize {
    |e: HotspotInfo| e.pc
}

/// A fresh entry for a program counter seen for the first time.
pub open spec fn info_fresca_s(pc: usize) -> HotspotInfo {
    HotspotInfo { pc, call_count: 0, compilation_tier: 0, is_compiling: false, jit_address: None }
}

/// How one call advances an entry: the counter saturates upward, and
/// the call that lands exactly on the threshold of a tier-0 entry
/// marks it tier 1 and compiling.
pub open spec fn paso_llamada_s(viejo: Option<HotspotInfo>, pc: usize) -> HotspotInfo {
    let e = match viejo {
        Some(e) => e,
        None => info_fresca_s(pc),
    };
    let c: u32 = if e.call_count == u32::MAX {
        u32::MAX
    } else {
        (e.call_count + 1) as u32
    };
    if c == HOTSPOT_THRESHOLD && e.compilation_tier == 0 {
        HotspotInfo {
            pc: e.pc,
            call_count: c,
            compilation_tier: 1,
            is_compiling: true,
            jit_address: e.jit_address,
        }
    } else {
        HotspotInfo {
            pc: e.pc,
            call_count: c,
            compilation_tier: e.compilation_tier,
            is_compiling: e.is_compiling,
            jit_address: e.jit_address,
        }
    }
}

/// Whether this call is the one that crosses the threshold.
pub open spec fn cruza_umbral_s(viejo: Option<HotspotInfo>, pc: usize) -> bool {
    paso_llamada_s(viejo, pc).call_count == HOTSPOT_THRESHOLD && (match viejo {
        Some(e) => e.compilation_tier == 0,
        None => true,
    })
}

/// Index of the entry for a program counter.
fn indice_hs(l: &Vec<HotspotInfo>, pc: usize) -> (r: Option<usize>)
    ensures
        match r {
            Some(i) => i < l@.len() && l@[i as int].pc == pc && busca_k_s(l@, clave_hs(), pc)
                == Some(l@[i as int]) && (forall|j: int|
                0 <= j < i ==> #[trigger] clave_hs()(l@[j]) != pc),
            None => busca_k_s(l@, clave_hs(), pc) is None,
        },
{
    let mut i: usize = 0;
    while i < l.len()
        invariant
            i <= l@.len(),
            forall|j: int| 0 <= j < i ==> #[trigger] clave_hs()(l@[j]) != pc,
        decreases l@.len() - i,
    {
        if l[i].pc == pc {
            proof {
                lema_k_en(l@, clave_hs(), i as int);
            }
            return Some(i);
        }
        i = i + 1;
    }
    proof {
        lema_k_ausente(l@, clave_hs(), pc);
    }
    None
}

/// Whether the queue already holds a program counter.
fn contiene_pc(l: &Vec<usize>, pc: usize) -> (r: bool)
    ensures
        r == l@.contains(pc),
{
    let mut i: usize = 0;
    while i < l.len()
        invariant
            i <= l@.len(),
            forall|j: int| 0 <= j < i ==> l@[j] != pc,
        decreases l@.len() - i,
    {
        if l[i] == pc {
            proof {
                assert(l@[i as int] == pc);
            }
            return true;
        }
        i = i + 1;
    }
    proof {
        assert(!l@.contains(pc)) by {
            if l@.contains(pc) {
                let j = choose|j: int| 0 <= j < l@.len() && l@[j] == pc;
            }
        }
    }
    false
}

/// The sum of the counters is bounded by one 32-bit range per entry.
proof fn lema_suma_cota(s: Seq<HotspotInfo>)
    ensures
        0 <= suma_llamadas_s(s) <= s.len() * 0x100000000,
    decreases s.len(),
{
    if s.len() > 0 {
        lema_suma_cota(s.drop_last());
        assert((s.len() - 1) * 0x100000000 + 0x100000000 == s.len()
            * 0x100000000) by (nonlinear_arith);
    }
}

impl HotspotDetector {
    /// The entry for a program counter, if any.
    pub closed spec fn info_s(self, pc: usize) -> Option<HotspotInfo> {
        busca_k_s(self.hotspots@, clave_hs(), pc)
    }

    /// The pending compilation requests, oldest first.
    pub closed spec fn cola_s(self) -> Seq<usize> {
        self.compilation_queue@
    }

    pub closed spec fn largo_s(self) -> nat {
        self.hotspots@.len()
    }

    pub fn new() -> (r: HotspotDetector)
        ensures
            forall|pc: usize| r.info_s(pc) is None,
            r.cola_s() == Seq::<usize>::empty(),
            r.largo_s() == 0,
            r.vista_s() == Seq::<HotspotInfo>::empty(),
    {
        let r = HotspotDetector { hotspots: Vec::new(), compilation_queue: Vec::new() };
        proof {
            assert(r.compilation_queue@ =~= Seq::<usize>::empty());
        }
        r
    }

    /// Record one call of the function entered at `pc`: its entry
    /// advances by `paso_llamada_s`, the crossing call enqueues `pc`
    /// unless it is already queued, and the entry's native address (if
    /// any) is returned so the caller can dispatch to it.
    pub fn record_call(&mut self, pc: usize) -> (r: Option<usize>)
        requires
            old(self).largo_s() < usize::MAX,
            old(self).cola_s().len() < usize::MAX,
        ensures
            final(self).info_s(pc) == Some(paso_llamada_s(old(self).info_s(pc), pc)),
            forall|pc2: usize|
                pc2 != pc ==> #[trigger] final(self).info_s(pc2) == old(self).info_s(pc2),
            r == paso_llamada_s(old(self).info_s(pc), pc).jit_address,
            final(self).cola_s() == if cruza_umbral_s(old(self).info_s(pc), pc) && !old(self).cola_s().contains(pc) {
                old(self).cola_s().push(pc)
            } else {
                old(self).cola_s()
            },
            final(self).largo_s() <= old(self).largo_s() + 1,
    {
        let encontrado = indice_hs(&self.hotspots, pc);
        let viejo_e: Option<HotspotInfo> = match encontrado {
            Some(idx) => Some(self.hotspots[idx]),
            None => None,
        };
        let e = match viejo_e {
            Some(e) => e,
            None => HotspotInfo {
                pc,
                call_count: 0,
                compilation_tier: 0,
                is_compiling: false,
                jit_address: None,
            },
        };
        let c: u32 = if e.call_count == u32::MAX {
            u32::MAX
        } else {
            e.call_count + 1
        };
        let cruza = c == HOTSPOT_THRESHOLD && e.compilation_tier == 0;
        let nuevo = if cruza {
            HotspotInfo {
                pc: e.pc,
                call_count: c,
                compilation_tier: 1,
                is_compiling: true,
                jit_address: e.jit_address,
            }
        } else {
            HotspotInfo {
                pc: e.pc,
                call_count: c,
                compilation_tier: e.compilation_tier,
                is_compiling: e.is_compiling,
                jit_address: e.jit_address,
            }
        };
        let ghost anterior = self.hotspots@;
        match encontrado {
            Some(idx) => {
                self.hotspots[idx] = nuevo;
                proof {
                    assert(self.hotspots@ =~= anterior.update(idx as int, nuevo));
                    assert forall|pc2: usize| #[trigger]
                        busca_k_s(self.hotspots@, clave_hs(), pc2) == if pc2 == pc {
                            Some(nuevo)
                        } else {
                            busca_k_s(anterior, clave_hs(), pc2)
                        } by {
                        lema_k_actualiza(anterior, clave_hs(), idx as int, nuevo, pc2);
                    }
                }
            },
            None => {
                self.hotspots.push(nuevo);
                proof {
                    assert forall|pc2: usize| #[trigger]
                        busca_k_s(self.hotspots@, clave_hs(), pc2) == if pc2 == pc {
                            Some(nuevo)
                        } else {
                            busca_k_s(anterior, clave_hs(), pc2)
                        } by {
                        lema_k_agrega(anterior, clave_hs(), nuevo, pc2);
                    }
                }
            },
        }
        if cruza {
            if !contiene_pc(&self.compilation_queue, pc) {
                self.compilation_queue.push(pc);
            }
        }
        nuevo.jit_address
    }

    /// Take the most recent compilation request, if any.
    pub fn next_compilation(&mut self) -> (r: Option<usize>)
        ensures
            forall|pc2: usize| #[trigger] final(self).info_s(pc2) == old(self).info_s(pc2),
            old(self).cola_s().len() == 0 ==> r is None && final(self).cola_s() == old(self).cola_s(),
            old(self).cola_s().len() > 0 ==> r == Some(old(self).cola_s().last()) && final(self).cola_s() == old(self).cola_s().drop_last(),
            final(self).largo_s() == old(self).largo_s(),
    {
        self.compilation_queue.pop()
    }

    /// Install the native address of a finished compilation into the
    /// entry, which stops counting as compiling.
    pub fn jit_compiled(&mut self, pc: usize, jit_address: usize)
        ensures
            match old(self).info_s(pc) {
                Some(e) => final(self).info_s(pc) == Some(
                    HotspotInfo {
                        pc: e.pc,
                        call_count: e.call_count,
                        compilation_tier: e.compilation_tier,
                        is_compiling: false,
                        jit_address: Some(jit_address),
                    },
                ),
                None => final(self).info_s(pc) is None,
            },
            forall|pc2: usize|
                pc2 != pc ==> #[trigger] final(self).info_s(pc2) == old(self).info_s(pc2),
            final(self).cola_s() == old(self).cola_s(),
            final(self).largo_s() == old(self).largo_s(),
    {
        let encontrado = indice_hs(&self.hotspots, pc);
        match encontrado {
            Some(i) => {
                let e = self.hotspots[i];
                let nuevo = HotspotInfo {
                    pc: e.pc,
                    call_count: e.call_count,
                    compilation_tier: e.compilation_tier,
                    is_compiling: false,
                    jit_address: Some(jit_address),
                };
                let ghost anterior = self.hotspots@;
                self.hotspots[i] = nuevo;
                proof {
                    assert(self.hotspots@ =~= anterior.update(i as int, nuevo));
                    assert forall|pc2: usize| #[trigger]
                        busca_k_s(self.hotspots@, clave_hs(), pc2) == if pc2 == pc {
                            Some(nuevo)
                        } else {
                            busca_k_s(anterior, clave_hs(), pc2)
                        } by {
                        lema_k_actualiza(anterior, clave_hs(), i as int, nuevo, pc2);
                    }
                }
            },
            None => {},
        }
    }

    /// What the detector knows about a program counter.
    pub fn info(&self, pc: usize) -> (r: Option<HotspotInfo>)
        ensures
            r == self.info_s(pc),
    {
        match indice_hs(&self.hotspots, pc) {
            Some(i) => Some(self.hotspots[i]),
            None => None,
        }
    }

    /// How many requests wait in the queue.
    pub fn pending_compilations(&self) -> (r: usize)
        ensures
            r == self.cola_s().len(),
    {
        self.compilation_queue.len()
    }

    /// Totals over all entries.
    pub fn stats(&self) -> (r: HotspotStats)
        requires
            self.largo_s() < 0x100000000,
        ensures
            r.total_hotspots == self.largo_s(),
            r.jitted_count as nat == cuenta_jit_s(self.vista_s()),
            r.total_calls as int == suma_llamadas_s(self.vista_s()),
    {
        let mut jitted: usize = 0;
        let mut llamadas: u64 = 0;
        let mut i: usize = 0;
        proof {
            assert(self.hotspots@.take(0) =~= Seq::<HotspotInfo>::empty());
        }
        while i < self.hotspots.len()
            invariant
                i <= self.hotspots@.len(),
                self.hotspots@.len() < 0x100000000,
                jitted <= i,
                jitted as nat == cuenta_jit_s(self.hotspots@.take(i as int)),
                llamadas as int == suma_llamadas_s(self.hotspots@.take(i as int)),
            decreases self.hotspots@.len() - i,
        {
            proof {
                assert(self.hotspots@.take(i + 1).drop_last() =~= self.hotspots@.take(i as int));
                assert(self.hotspots@.take(i + 1).last() == self.hotspots@[i as int]);
                lema_suma_cota(self.hotspots@.take(i as int));
                assert(suma_llamadas_s(self.hotspots@.take(i as int)) + 0x100000000
                    < 0x10000000000000000) by (nonlinear_arith)
                    requires
                        suma_llamadas_s(self.hotspots@.take(i as int)) <= i * 0x100000000,
                        0 <= i,
                        i + 1 < 0x100000000,
                ;
            }
            if self.hotspots[i].jit_address.is_some() {
                jitted = jitted + 1;
            }
            llamadas = llamadas + (self.hotspots[i].call_count as u64);
            i = i + 1;
        }
        proof {
            assert(self.hotspots@.take(i as int) =~= self.hotspots@);
        }
        HotspotStats { total_hotspots: self.hotspots.len(), jitted_count: jitted, total_calls: llamadas }
    }

    /// The entries as the statistics see them.
    pub closed spec fn vista_s(self) -> Seq<HotspotInfo> {
        self.hotspots@
    }

    /// Forget all entries and requests; the statistics of the cleared
    /// detector read zero.
    pub fn clear(&mut self)
        ensures
            forall|pc: usize| final(self).info_s(pc) is None,
            final(self).cola_s() == Seq::<usize>::empty(),
            final(self).largo_s() == 0,
            final(self).vista_s() == Seq::<HotspotInfo>::empty(),
    {
        self.hotspots.clear();
        self.compilation_queue.clear();
        proof {
            assert(self.compilation_queue@ =~= Seq::<usize>::empty());
            assert(self.hotspots@ =~= Seq::<HotspotInfo>::empty());
        }
    }
}

/// How many entries have a native address installed.
pub open spec fn cuenta_jit_s(s: Seq<HotspotInfo>) -> nat
    decreases s.len(),
{
    if s.len() == 0 {
        0
    } else {
        cuenta_jit_s(s.drop_last()) + if s.last().jit_address is Some {
            1nat
        } else {
            0nat
        }
    }
}

/// The sum of all call counters.
pub open spec fn suma_llamadas_s(s: Seq<HotspotInfo>) -> int
    decreases s.len(),
{
    if s.len() == 0 {
        0
    } else {
        suma_llamadas_s(s.drop_last()) + s.last().call_count
    }
}

/// Totals reported by the detector.
#[derive(Clone, Copy, PartialEq, Eq, Structural, Debug)]
pub struct HotspotStats {
    pub total_hotspots: usize,
    pub jitted_count: usize,
    pub total_calls: u64,
}

} // verus!
