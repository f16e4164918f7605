//! Per-site type-pattern learning for arithmetic operations.
//!
//! Each (program counter, operation) site records the operand-type
//! pattern it observes.  A site whose confidence — matches over all
//! observations — exceeds 95% and whose pattern is known counts as
//! specialized; the native-code backend uses this to decide whether to
//! emit the integer fast path for a function.

use vstd::prelude::*;

use crate::asoc::{busca_k_s, lema_k_actualiza, lema_k_agrega, lema_k_ausente};
use crate::value::Value;

verus! {

/// Operations whose operand types are worth learning.
#[derive(Clone, Copy, PartialEq, Eq, Structural, Debug)]
pub enum OperationType {
    Add,
    Sub,
    Mul,
    Div,
    Less,
    LessEq,
}

/// An observed operand-type pattern.
#[derive(Clone, Copy, PartialEq, Eq, Structural, Debug)]
pub enum TypePattern {
    IntInt,
    FloatFloat,
    IntFloat,
    Unknown,
}

/// What one site has learned so far.
#[derive(Clone, Copy, PartialEq, Eq, Structural, Debug)]
pub struct SpecializationInfo {
    pub pattern: TypePattern,
    pub pattern_count: u32,
    pub mismatch_count: u32,
}

impl SpecializationInfo {
    /// Known pattern with confidence strictly above 95%.
    pub open spec fn es_especializada_s(self) -> bool {
        self.pattern != TypePattern::Unknown && 20 * (self.pattern_count as int) > 19 * (
        self.pattern_count as int + self.mismatch_count as int)
    }

    pub fn is_specialized(&self) -> (r: bool)
        ensures
            r == self.es_especializada_s(),
    {
        self.pattern != TypePattern::Unknown && 20 * (self.pattern_count as u64) > 19 * (
        self.pattern_count as u64 + self.mismatch_count as u64)
    }
}

/// The pattern one pair of operands exhibits.
pub open spec fn patron_observado_s(izq: Value, der: Value) -> TypePattern {
    if izq.es_entero_s() && der.es_entero_s() {
        TypePattern::IntInt
    } else if izq.es_numero_s() && der.es_numero_s() {
        TypePattern::FloatFloat
    } else {
        TypePattern::IntFloat
    }
}

/// How one observation advances a site: a fresh or unknown site adopts
/// the pattern; a match strengthens it; a mismatch weakens it, and
/// past ten mismatches the site forgets its pattern.
pub open spec fn paso_sitio_s(viejo: Option<SpecializationInfo>, obs: TypePattern)
    -> SpecializationInfo {
    let e = match viejo {
        Some(e) => e,
        None => SpecializationInfo {
            pattern: TypePattern::Unknown,
            pattern_count: 0,
            mismatch_count: 0,
        },
    };
    if e.pattern == TypePattern::Unknown {
        SpecializationInfo { pattern: obs, pattern_count: 1, mismatch_count: e.mismatch_count }
    } else if e.pattern == obs {
        SpecializationInfo {
            pattern: e.pattern,
            pattern_count: if e.pattern_count == u32::MAX {
                u32::MAX
            } else {
                (e.pattern_count + 1) as u32
            },
            mismatch_count: e.mismatch_count,
        }
    } else {
        let m = if e.mismatch_count == u32::MAX {
            u32::MAX
        } else {
            (e.mismatch_count + 1) as u32
        };
        SpecializationInfo {
            pattern: if m > 10 {
                TypePattern::Unknown
            } else {
                e.pattern
            },
            pattern_count: e.pattern_count,
            mismatch_count: m,
        }
    }
}

/// Key of a cache entry.
pub open spec fn clave_esp() -> spec_fn((usize, OperationType, SpecializationInfo)) -> (
    usize,
    OperationType,
) {
    |e: (usize, OperationType, SpecializationInfo)| (e.0, e.1)
}

/// Learned patterns, keyed by (program counter, operation).
pub struct SpecializationCache {
    cache: Vec<(usize, OperationType, SpecializationInfo)>,
}

impl SpecializationCache {
    /// What the cache knows about a site.
    pub closed spec fn sitio_s(self, pc: usize, op: OperationType) -> Option<SpecializationInfo> {
        match busca_k_s(self.cache@, clave_esp(), (pc, op)) {
            Some(e) => Some(e.2),
            None => None,
        }
    }

    pub closed spec fn largo_s(self) -> nat {
        self.cache@.len()
    }

    /// How many sites are known.
    pub fn largo(&self) -> (r: usize)
        ensures
            r == self.largo_s(),
    {
        self.cache.len()
    }

    pub fn new() -> (r: SpecializationCache)
        ensures
            forall|pc: usize, op: OperationType| r.sitio_s(pc, op) is None,
            r.largo_s() == 0,
    {
        SpecializationCache { cache: Vec::new() }
    }

    /// Record one observation; the site advances by `paso_sitio_s` and
    /// every other site stays as it was.  Returns the pattern the site
    /// now holds.
    pub fn record(&mut self, pc: usize, op: OperationType, left: Value, right: Value) -> (r:
        TypePattern)
        requires
            old(self).largo_s() < usize::MAX,
        ensures
            final(self).sitio_s(pc, op) == Some(
                paso_sitio_s(old(self).sitio_s(pc, op), patron_observado_s(left, right)),
            ),
            forall|pc2: usize, op2: OperationType|
                (pc2, op2) != (pc, op) ==> #[trigger] final(self).sitio_s(pc2, op2) == old(self).sitio_s(pc2, op2),
            r == paso_sitio_s(old(self).sitio_s(pc, op), patron_observado_s(left, right)).pattern,
            final(self).largo_s() <= old(self).largo_s() + 1,
    {
        let observado = if left.es_entero() && right.es_entero() {
            TypePattern::IntInt
        } else if left.es_numero() && right.es_numero() {
            TypePattern::FloatFloat
        } else {
            TypePattern::IntFloat
        };
        let mut i: usize = 0;
        while i < self.cache.len()
            invariant
                i <= self.cache@.len(),
                self.cache@ == old(self).cache@,
                observado == patron_observado_s(left, right),
                forall|j: int|
                    0 <= j < i ==> #[trigger] clave_esp()(self.cache@[j]) != (pc, op),
            decreases self.cache@.len() - i,
        {
            if self.cache[i].0 == pc && self.cache[i].1 == op {
                let ghost viejo = self.cache@;
                proof {
                    lema_sitio_en(viejo, i as int, pc, op);
                }
                let nuevo = paso_entrada(self.cache[i].2, observado);
                self.cache[i] = (pc, op, nuevo);
                proof {
                    assert(self.cache@ =~= viejo.update(i as int, (pc, op, nuevo)));
                    assert(clave_esp()(viejo[i as int]) == (pc, op));
                    assert forall|pc2: usize, op2: OperationType|
                        (pc2, op2) != (pc, op) implies #[trigger] self.sitio_s(pc2, op2) == old(self).sitio_s(pc2, op2) by {
                        lema_k_actualiza(viejo, clave_esp(), i as int, (pc, op, nuevo), (pc2, op2));
                    }
                    lema_k_actualiza(viejo, clave_esp(), i as int, (pc, op, nuevo), (pc, op));
                }
                return nuevo.pattern;
            }
            i = i + 1;
        }
        let ghost viejo = self.cache@;
        proof {
            lema_k_ausente(viejo, clave_esp(), (pc, op));
        }
        let nuevo = paso_entrada(
            SpecializationInfo {
                pattern: TypePattern::Unknown,
                pattern_count: 0,
                mismatch_count: 0,
            },
            observado,
        );
        self.cache.push((pc, op, nuevo));
        proof {
            assert forall|pc2: usize, op2: OperationType|
                (pc2, op2) != (pc, op) implies #[trigger] self.sitio_s(pc2, op2) == old(self).sitio_s(pc2, op2) by {
                lema_k_agrega(viejo, clave_esp(), (pc, op, nuevo), (pc2, op2));
            }
            lema_k_agrega(viejo, clave_esp(), (pc, op, nuevo), (pc, op));
        }
        nuevo.pattern
    }

    /// The learned pattern of a site, only once it is specialized.
    pub fn get_pattern(&self, pc: usize, op: OperationType) -> (r: Option<TypePattern>)
        ensures
            r == match self.sitio_s(pc, op) {
                Some(e) => if e.es_especializada_s() {
                    Some(e.pattern)
                } else {
                    None
                },
                None => None,
            },
    {
        let mut i: usize = 0;
        while i < self.cache.len()
            invariant
                i <= self.cache@.len(),
                forall|j: int|
                    0 <= j < i ==> #[trigger] clave_esp()(self.cache@[j]) != (pc, op),
            decreases self.cache@.len() - i,
        {
            if self.cache[i].0 == pc && self.cache[i].1 == op {
                proof {
                    lema_sitio_en(self.cache@, i as int, pc, op);
                }
                let e = self.cache[i].2;
                if e.is_specialized() {
                    return Some(e.pattern);
                } else {
                    return None;
                }
            }
            i = i + 1;
        }
        proof {
            lema_k_ausente(self.cache@, clave_esp(), (pc, op));
        }
        None
    }

    /// Integer fast path for an add site: only when the site is
    /// specialized to integer operands, perform the add, deoptimizing
    /// an overflowing sum to the exact double.
    pub fn fast_add(&self, pc: usize, a: i32, b: i32) -> (r: Option<Value>)
        ensures
            match r {
                Some(v) => self.sitio_s(pc, op_add()) matches Some(e) && e.es_especializada_s()
                    && e.pattern == TypePattern::IntInt && v == valor_suma_entera(a, b),
                None => !(self.sitio_s(pc, op_add()) matches Some(e) && e.es_especializada_s()
                    && e.pattern == TypePattern::IntInt),
            },
    {
        match self.get_pattern(pc, OperationType::Add) {
            Some(TypePattern::IntInt) => {
                match a.checked_add(b) {
                    Some(s) => Some(Value::entero(s)),
                    None => {
                        let total: i64 = (a as i64) + (b as i64);
                        proof {
                            crate::numbits::lema_bits_no_qnan(total as int);
                        }
                        Some(Value::numero_bits(crate::numbits::bits_doble_de_i64(total)))
                    },
                }
            },
            _ => None,
        }
    }

    /// How many sites are specialized, out of how many are known.
    pub fn stats(&self) -> (r: String)
        requires
            self.largo_s() < 0x10000000000000000,
    {
        let mut especializados: u64 = 0;
        let mut i: usize = 0;
        while i < self.cache.len()
            invariant
                i <= self.cache@.len(),
                especializados <= i,
                self.cache@.len() < 0x10000000000000000,
            decreases self.cache@.len() - i,
        {
            if self.cache[i].2.is_specialized() {
                especializados = especializados + 1;
            }
            i = i + 1;
        }
        proof {
            reveal_strlit("Especializacion: ");
            reveal_strlit(" operaciones especializadas de ");
        }
        let mut s: String = "Especializacion: ".to_owned();
        let e = crate::cifras::u64_a_texto(especializados);
        s.append(e.as_str());
        s.append(" operaciones especializadas de ");
        let t = crate::cifras::u64_a_texto(self.cache.len() as u64);
        s.append(t.as_str());
        s
    }

    pub fn clear(&mut self)
        ensures
            forall|pc: usize, op: OperationType| final(self).sitio_s(pc, op) is None,
            final(self).largo_s() == 0,
    {
        self.cache.clear();
    }
}

/// The integer-specialized sum: an in-range sum stays an integer tag;
/// an overflowing one becomes the exact double.
pub open spec fn valor_suma_entera(a: i32, b: i32) -> Value {
    if i32::MIN <= a as int + b as int <= i32::MAX {
        Value::entero_s((a as int + b as int) as i32)
    } else {
        Value(crate::numbits::bits_de_entero(a as int + b as int))
    }
}

pub open spec fn op_add() -> OperationType {
    OperationType::Add
}

/// Advance one site by one observation.
fn paso_entrada(e: SpecializationInfo, obs: TypePattern) -> (r: SpecializationInfo)
    ensures
        r == paso_sitio_s(Some(e), obs),
{
    if e.pattern == TypePattern::Unknown {
        SpecializationInfo { pattern: obs, pattern_count: 1, mismatch_count: e.mismatch_count }
    } else if e.pattern == obs {
        SpecializationInfo {
            pattern: e.pattern,
            pattern_count: if e.pattern_count == u32::MAX {
                u32::MAX
            } else {
                e.pattern_count + 1
            },
            mismatch_count: e.mismatch_count,
        }
    } else {
        let m = if e.mismatch_count == u32::MAX {
            u32::MAX
        } else {
            e.mismatch_count + 1
        };
        SpecializationInfo {
            pattern: if m > 10 {
                TypePattern::Unknown
            } else {
                e.pattern
            },
            pattern_count: e.pattern_count,
            mismatch_count: m,
        }
    }
}

proof fn lema_sitio_en(l: Seq<(usize, OperationType, SpecializationInfo)>, i: int, pc: usize, op: OperationType)
    requires
        0 <= i < l.len(),
        clave_esp()(l[i]) == (pc, op),
        forall|j: int| 0 <= j < i ==> #[trigger] clave_esp()(l[j]) != (pc, op),
    ensures
        busca_k_s(l, clave_esp(), (pc, op)) == Some(l[i]),
    decreases i,
{
    if i > 0 {
        lema_sitio_en(l.drop_first(), i - 1, pc, op);
    }
}

} // verus!
