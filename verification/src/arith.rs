//! The arithmetic and comparison unit of the machine.
//!
//! This unit covers integer-tagged operands: results stay
//! integer-tagged while they fit the 32-bit payload and deoptimize to
//! the exactly representable double otherwise.  Integer division
//! truncates toward zero, as the native backend's division instruction
//! does; division and modulo by zero are errors that unwind like any
//! other runtime error.  The machine itself holds no floating-point
//! unit: operations where some numeric operand is a plain double are
//! delegated to the embedder through the host interface.

use vstd::prelude::*;

use crate::chunk::OpCode;
use crate::numbits::{bits_de_entero, bits_doble_de_i64, lema_bits_no_qnan, DOS_53};
use crate::value::Value;

verus! {

/// Why an instruction failed; unwinding turns this into a thrown text.
#[derive(Clone, PartialEq, Eq, Debug)]
pub enum ErrorVm {
    TiposIncompatibles,
    DivisionPorCero,
    Desbordamiento,
    DesplazamientoInvalido,
    RegistroFueraDeRango,
    ConstanteFueraDeRango,
    SaltoFueraDeRango,
    DesbordamientoDePila,
    HandleInvalido,
    NoInvocable,
    IndiceInvalido,
    FueraDeRango,
    ClaveInvalida,
    NoIndexable,
    SinPropiedades,
    PadreInvalido,
    NoEsClase,
    GlobalNoDefinida(String),
    PropiedadNoEncontrada(String),
    MemoriaAgotada,
    Nativa(String),
    EsperaInvalida,
    PromesaPendiente,
    OpcodeInvalido,
}

impl ErrorVm {
    /// The message the machine reports for this error.
    pub fn texto(&self) -> (r: String) {
        proof {
            reveal_strlit("tipos incompatibles para la operacion");
            reveal_strlit("division por cero");
            reveal_strlit("desbordamiento aritmetico");
            reveal_strlit("desplazamiento fuera de rango");
            reveal_strlit("registro fuera de rango");
            reveal_strlit("constante fuera de rango");
            reveal_strlit("salto fuera de rango");
            reveal_strlit("desbordamiento de pila");
            reveal_strlit("handle de objeto invalido");
            reveal_strlit("el valor no es invocable");
            reveal_strlit("el indice debe ser un entero");
            reveal_strlit("indice fuera de rango");
            reveal_strlit("la clave debe ser texto");
            reveal_strlit("el valor no es indexable");
            reveal_strlit("solo las instancias tienen propiedades");
            reveal_strlit("el padre debe ser una clase");
            reveal_strlit("el valor no es una clase");
            reveal_strlit("variable global no definida: ");
            reveal_strlit("propiedad no encontrada: ");
            reveal_strlit("memoria de objetos agotada");
            reveal_strlit("await espera una promesa");
            reveal_strlit("promesa pendiente sin soporte");
            reveal_strlit("opcode invalido");
        }
        match self {
            ErrorVm::TiposIncompatibles => "tipos incompatibles para la operacion".to_owned(),
            ErrorVm::DivisionPorCero => "division por cero".to_owned(),
            ErrorVm::Desbordamiento => "desbordamiento aritmetico".to_owned(),
            ErrorVm::DesplazamientoInvalido => "desplazamiento fuera de rango".to_owned(),
            ErrorVm::RegistroFueraDeRango => "registro fuera de rango".to_owned(),
            ErrorVm::ConstanteFueraDeRango => "constante fuera de rango".to_owned(),
            ErrorVm::SaltoFueraDeRango => "salto fuera de rango".to_owned(),
            ErrorVm::DesbordamientoDePila => "desbordamiento de pila".to_owned(),
            ErrorVm::HandleInvalido => "handle de objeto invalido".to_owned(),
            ErrorVm::NoInvocable => "el valor no es invocable".to_owned(),
            ErrorVm::IndiceInvalido => "el indice debe ser un entero".to_owned(),
            ErrorVm::FueraDeRango => "indice fuera de rango".to_owned(),
            ErrorVm::ClaveInvalida => "la clave debe ser texto".to_owned(),
            ErrorVm::NoIndexable => "el valor no es indexable".to_owned(),
            ErrorVm::SinPropiedades => "solo las instancias tienen propiedades".to_owned(),
            ErrorVm::PadreInvalido => "el padre debe ser una clase".to_owned(),
            ErrorVm::NoEsClase => "el valor no es una clase".to_owned(),
            ErrorVm::GlobalNoDefinida(n) => {
                let mut s: String = "variable global no definida: ".to_owned();
                s.append(n.as_str());
                s
            },
            ErrorVm::PropiedadNoEncontrada(n) => {
                let mut s: String = "propiedad no encontrada: ".to_owned();
                s.append(n.as_str());
                s
            },
            ErrorVm::MemoriaAgotada => "memoria de objetos agotada".to_owned(),
            ErrorVm::Nativa(m) => m.clone(),
            ErrorVm::EsperaInvalida => "await espera una promesa".to_owned(),
            ErrorVm::PromesaPendiente => "promesa pendiente sin soporte".to_owned(),
            ErrorVm::OpcodeInvalido => "opcode invalido".to_owned(),
        }
    }
}

/// The value an in-range integer stays as, and an overflowing one
/// deoptimizes to: the integer tag or the exact double.
pub open spec fn valor_largo_s(v: int) -> Value
    recommends
        -(DOS_53 as int) < v < DOS_53 as int,
{
    if i32::MIN <= v <= i32::MAX {
        Value::entero_s(v as i32)
    } else {
        Value(bits_de_entero(v))
    }
}

/// Truncating (toward zero) quotient.
pub open spec fn cociente_trunc(a: int, b: int) -> int
    recommends
        b != 0,
{
    let q = abs_s(a) / abs_s(b);
    if (a < 0) == (b < 0) {
        q
    } else {
        -q
    }
}

/// Truncating remainder, with the sign of the dividend.
pub open spec fn resto_trunc(a: int, b: int) -> int
    recommends
        b != 0,
{
    let m = abs_s(a) % abs_s(b);
    if a < 0 {
        -m
    } else {
        m
    }
}

pub open spec fn abs_s(a: int) -> int {
    if a < 0 {
        -a
    } else {
        a
    }
}

/// Iterated product, cut off as soon as it leaves the exactly
/// representable range.
pub open spec fn pot_acotada_s(base: int, e: nat) -> Option<int>
    decreases e,
{
    if e == 0 {
        Some(1int)
    } else {
        match pot_acotada_s(base, (e - 1) as nat) {
            Some(p) => {
                let q = p * base;
                if -(DOS_53 as int) < q < DOS_53 as int {
                    Some(q)
                } else {
                    None
                }
            },
            None => None,
        }
    }
}

/// What a binary opcode yields on two integer-tagged operands.
pub open spec fn op_binaria_s(op: OpCode, v1: Value, v2: Value) -> Result<Value, ErrorVm> {
    if !(v1.es_entero_s() && v2.es_entero_s()) {
        Err(ErrorVm::TiposIncompatibles)
    } else {
        let a = v1.carga_entera() as int;
        let b = v2.carga_entera() as int;
        match op {
            OpCode::Sumar => Ok(valor_largo_s(a + b)),
            OpCode::Restar => Ok(valor_largo_s(a - b)),
            OpCode::Multiplicar => if -(DOS_53 as int) < a * b < DOS_53 as int {
                Ok(valor_largo_s(a * b))
            } else {
                Err(ErrorVm::Desbordamiento)
            },
            OpCode::Dividir => if b == 0 {
                Err(ErrorVm::DivisionPorCero)
            } else {
                Ok(valor_largo_s(cociente_trunc(a, b)))
            },
            OpCode::Modulo => if b == 0 {
                Err(ErrorVm::DivisionPorCero)
            } else {
                Ok(Value::entero_s(resto_trunc(a, b) as i32))
            },
            OpCode::Potencia => if b < 0 {
                Err(ErrorVm::Desbordamiento)
            } else {
                match pot_acotada_s(a, b as nat) {
                    Some(p) => Ok(valor_largo_s(p)),
                    None => Err(ErrorVm::Desbordamiento),
                }
            },
            OpCode::Menor => Ok(Value::logico_s(a < b)),
            OpCode::MenorIgual => Ok(Value::logico_s(a <= b)),
            OpCode::BitAnd => Ok(Value::entero_s(v1.carga_entera() & v2.carga_entera())),
            OpCode::BitOr => Ok(Value::entero_s(v1.carga_entera() | v2.carga_entera())),
            OpCode::BitXor => Ok(Value::entero_s(v1.carga_entera() ^ v2.carga_entera())),
            OpCode::ShiftIzq => if 0 <= b < 32 {
                Ok(
                    Value::entero_s(
                        (((v1.carga_entera() as u32) << (b as u32)) & 0xFFFFFFFF) as i32,
                    ),
                )
            } else {
                Err(ErrorVm::DesplazamientoInvalido)
            },
            OpCode::ShiftDer => if 0 <= b < 32 {
                Ok(Value::entero_s(((v1.carga_entera() as u32) >> (b as u32)) as i32))
            } else {
                Err(ErrorVm::DesplazamientoInvalido)
            },
            _ => Err(ErrorVm::OpcodeInvalido),
        }
    }
}

/// Deoptimize an exactly representable integer into a value.
pub fn valor_largo(v: i64) -> (r: Value)
    requires
        -(DOS_53 as int) < v < DOS_53 as int,
    ensures
        r == valor_largo_s(v as int),
{
    if v >= i32::MIN as i64 && v <= i32::MAX as i64 {
        Value::entero(v as i32)
    } else {
        proof {
            lema_bits_no_qnan(v as int);
        }
        Value::numero_bits(bits_doble_de_i64(v))
    }
}

/// Truncating division on magnitudes.
fn division_trunc(a: i32, b: i32) -> (r: (i64, i64))
    requires
        b != 0,
    ensures
        r.0 == cociente_trunc(a as int, b as int),
        r.1 == resto_trunc(a as int, b as int),
{
    let ma: u64 = if a < 0 {
        (-(a as i64)) as u64
    } else {
        a as u64
    };
    let mb: u64 = if b < 0 {
        (-(b as i64)) as u64
    } else {
        b as u64
    };
    let q: u64 = ma / mb;
    let m: u64 = ma % mb;
    let qs: i64 = if (a < 0) == (b < 0) {
        q as i64
    } else {
        -(q as i64)
    };
    let ms: i64 = if a < 0 {
        -(m as i64)
    } else {
        m as i64
    };
    (qs, ms)
}

/// Bounded power by iterated multiplication.
fn potencia_exec(base: i32, e: i32) -> (r: Option<i64>)
    requires
        e >= 0,
    ensures
        match r {
            Some(p) => pot_acotada_s(base as int, e as nat) == Some(p as int) && -(DOS_53 as int)
                < p < DOS_53 as int,
            None => pot_acotada_s(base as int, e as nat) is None,
        },
{
    let mut acc: i64 = 1;
    let mut i: i32 = 0;
    while i < e
        invariant
            0 <= i <= e,
            pot_acotada_s(base as int, i as nat) == Some(acc as int),
            -(DOS_53 as int) < acc < DOS_53 as int,
        decreases e - i,
    {
        proof {
            assert((acc as int) * (base as int) < 0x2000000000000000000000
                && (acc as int) * (base as int) > -0x2000000000000000000000) by (nonlinear_arith)
                requires
                    -(DOS_53 as int) < acc < DOS_53 as int,
                    -0x80000000 <= base <= 0x7fffffff,
            ;
        }
        let producto: i128 = (acc as i128) * (base as i128);
        if producto <= -(DOS_53 as i128) || producto >= DOS_53 as i128 {
            proof {
                lema_pot_absorbe(base as int, i as nat, e as nat);
            }
            return None;
        }
        acc = producto as i64;
        i = i + 1;
    }
    Some(acc)
}

/// Once the iterated product leaves the range it never returns.
proof fn lema_pot_absorbe(base: int, i: nat, e: nat)
    requires
        i < e,
        pot_acotada_s(base, i) is Some,
        !(-(DOS_53 as int) < pot_acotada_s(base, i)->Some_0 * base < DOS_53 as int),
    ensures
        pot_acotada_s(base, e) is None,
    decreases e,
{
    if e == i + 1 {
    } else {
        lema_pot_absorbe(base, i, (e - 1) as nat);
    }
}

/// Run a binary opcode on two integer-tagged operands, exactly as
/// `op_binaria_s` describes.
pub fn op_binaria(op: OpCode, v1: Value, v2: Value) -> (r: Result<Value, ErrorVm>)
    ensures
        r == op_binaria_s(op, v1, v2),
{
    if !(v1.es_entero() && v2.es_entero()) {
        return Err(ErrorVm::TiposIncompatibles);
    }
    let a = v1.a_entero();
    let b = v2.a_entero();
    match op {
        OpCode::Sumar => Ok(valor_largo((a as i64) + (b as i64))),
        OpCode::Restar => Ok(valor_largo((a as i64) - (b as i64))),
        OpCode::Multiplicar => {
            proof {
                assert((a as int) * (b as int) <= 0x4000000000000000
                    && (a as int) * (b as int) >= -0x4000000000000000) by (nonlinear_arith)
                    requires
                        -0x80000000 <= a <= 0x7fffffff,
                        -0x80000000 <= b <= 0x7fffffff,
                ;
            }
            let p: i64 = (a as i64) * (b as i64);
            if -(DOS_53 as i64) < p && p < DOS_53 as i64 {
                Ok(valor_largo(p))
            } else {
                Err(ErrorVm::Desbordamiento)
            }
        },
        OpCode::Dividir => {
            if b == 0 {
                Err(ErrorVm::DivisionPorCero)
            } else {
                let par = division_trunc(a, b);
                proof {
                    lema_cociente_cota(a as int, b as int);
                }
                Ok(valor_largo(par.0))
            }
        },
        OpCode::Modulo => {
            if b == 0 {
                Err(ErrorVm::DivisionPorCero)
            } else {
                let par = division_trunc(a, b);
                proof {
                    lema_cociente_cota(a as int, b as int);
                }
                Ok(Value::entero(par.1 as i32))
            }
        },
        OpCode::Potencia => {
            if b < 0 {
                Err(ErrorVm::Desbordamiento)
            } else {
                match potencia_exec(a, b) {
                    Some(p) => Ok(valor_largo(p)),
                    None => Err(ErrorVm::Desbordamiento),
                }
            }
        },
        OpCode::Menor => Ok(Value::logico(a < b)),
        OpCode::MenorIgual => Ok(Value::logico(a <= b)),
        OpCode::BitAnd => Ok(Value::entero(a & b)),
        OpCode::BitOr => Ok(Value::entero(a | b)),
        OpCode::BitXor => Ok(Value::entero(a ^ b)),
        OpCode::ShiftIzq => {
            if 0 <= b && b < 32 {
                Ok(Value::entero(#[verifier::truncate] ((((#[verifier::truncate] (a as u32)) << (b as u32)) & 0xFFFFFFFF) as i32)))
            } else {
                Err(ErrorVm::DesplazamientoInvalido)
            }
        },
        OpCode::ShiftDer => {
            if 0 <= b && b < 32 {
                Ok(Value::entero(#[verifier::truncate] (((#[verifier::truncate] (a as u32)) >> (b as u32)) as i32)))
            } else {
                Err(ErrorVm::DesplazamientoInvalido)
            }
        },
        _ => Err(ErrorVm::OpcodeInvalido),
    }
}

/// The truncating quotient's magnitude never exceeds the dividend's,
/// and the remainder's stays below the divisor's.
proof fn lema_cociente_cota(a: int, b: int)
    requires
        -0x80000000 <= a <= 0x7fffffff,
        -0x80000000 <= b <= 0x7fffffff,
        b != 0,
    ensures
        -(DOS_53 as int) < cociente_trunc(a, b) < DOS_53 as int,
        i32::MIN <= resto_trunc(a, b) <= i32::MAX,
        abs_s(cociente_trunc(a, b)) <= abs_s(a),
{
    let ma = abs_s(a);
    let mb = abs_s(b);
    assert(ma / mb <= ma) by (nonlinear_arith)
        requires
            ma >= 0,
            mb >= 1,
    ;
    assert(ma % mb < mb) by (nonlinear_arith)
        requires
            ma >= 0,
            mb >= 1,
    ;
    assert(ma % mb >= 0) by (nonlinear_arith)
        requires
            ma >= 0,
            mb >= 1,
    ;
}

/// What a unary opcode yields.
pub open spec fn op_unaria_s(op: OpCode, v: Value) -> Result<Value, ErrorVm> {
    match op {
        OpCode::Not => Ok(Value::logico_s(v.es_falsa_s())),
        OpCode::Negativo => if v.es_entero_s() {
            Ok(valor_largo_s(-(v.carga_entera() as int)))
        } else {
            Err(ErrorVm::TiposIncompatibles)
        },
        OpCode::BitNot => if v.es_entero_s() {
            Ok(Value::entero_s(!v.carga_entera()))
        } else {
            Err(ErrorVm::TiposIncompatibles)
        },
        _ => Err(ErrorVm::OpcodeInvalido),
    }
}

/// Run a unary opcode, exactly as `op_unaria_s` describes.
pub fn op_unaria(op: OpCode, v: Value) -> (r: Result<Value, ErrorVm>)
    ensures
        r == op_unaria_s(op, v),
{
    match op {
        OpCode::Not => Ok(Value::logico(v.es_falsa())),
        OpCode::Negativo => {
            if v.es_entero() {
                Ok(valor_largo(-(v.a_entero() as i64)))
            } else {
                Err(ErrorVm::TiposIncompatibles)
            }
        },
        OpCode::BitNot => {
            if v.es_entero() {
                Ok(Value::entero(!v.a_entero()))
            } else {
                Err(ErrorVm::TiposIncompatibles)
            }
        },
        _ => Err(ErrorVm::OpcodeInvalido),
    }
}

} // verus!
