//! 64-bit NaN-boxed value representation.
//!
//! A `Value` is a single 64-bit word.  Bit patterns that do not have
//! every bit of the quiet-NaN mask set are IEEE-754 numbers and are
//! carried through the machine untouched.  When the mask is set, low
//! bits select a variant: nil, the two booleans, a native-function
//! index, a resource handle, a 32-bit integer payload, or (with the
//! sign bit) a handle into the object table.

use vstd::prelude::*;

verus! {

/// Quiet-NaN mask: a word is a plain number exactly when some bit of
/// this mask is clear.
pub const QNAN: u64 = 0x7ffc000000000000;

/// Sign bit; together with the quiet-NaN mask it marks object handles.
pub const SIGN_BIT: u64 = 0x8000000000000000;

pub const TAG_NULO: u64 = 1;
pub const TAG_FALSE: u64 = 2;
pub const TAG_TRUE: u64 = 3;
pub const TAG_NATIVE_FUNC: u64 = 4;
pub const TAG_MODULE: u64 = 5;
pub const TAG_RESOURCE: u64 = 6;

/// Bit 48 marks a 32-bit integer payload held in the low word.
pub const TAG_INT: u64 = 0x0001000000000000;

/// A NaN-boxed value: numbers, integers, nil, booleans, native-function
/// indices, resource handles and object handles share one 64-bit word.
#[derive(Clone, Copy, PartialEq, Eq, Structural, Debug)]
pub struct Value(pub u64);

impl Value {
    /// The word an integer tag is built from.
    pub open spec fn entero_s(n: i32) -> Value {
        Value(QNAN | TAG_INT | (n as u32 as u64))
    }

    /// The nil word.
    pub open spec fn nulo_s() -> Value {
        Value(QNAN | TAG_NULO)
    }

    /// The word a boolean is built from.
    pub open spec fn logico_s(b: bool) -> Value {
        if b {
            Value(QNAN | TAG_TRUE)
        } else {
            Value(QNAN | TAG_FALSE)
        }
    }

    /// The word is integer-tagged.
    pub open spec fn es_entero_s(self) -> bool {
        self.0 & (QNAN | SIGN_BIT | TAG_INT) == (QNAN | TAG_INT)
    }

    /// The signed 32-bit payload of an integer-tagged word.
    pub open spec fn carga_entera(self) -> i32 {
        (self.0 & 0xFFFFFFFF) as i32
    }

    /// The word is a number: either a plain double or an integer tag.
    pub open spec fn es_numero_s(self) -> bool {
        (self.0 & QNAN) != QNAN || self.es_entero_s()
    }

    pub open spec fn es_nulo_s(self) -> bool {
        self.0 == QNAN | TAG_NULO
    }

    pub open spec fn es_logico_s(self) -> bool {
        (self.0 | 1) == (QNAN | TAG_TRUE)
    }

    pub open spec fn a_logico_s(self) -> bool {
        self.0 == QNAN | TAG_TRUE
    }

    pub open spec fn es_nativa_s(self) -> bool {
        self.0 & (QNAN | SIGN_BIT | TAG_INT | 0x7) == (QNAN | TAG_NATIVE_FUNC)
    }

    pub open spec fn indice_nativa(self) -> u32 {
        ((self.0 >> 32) & 0xFFFF) as u32
    }

    pub open spec fn es_recurso_s(self) -> bool {
        self.0 & (QNAN | SIGN_BIT | TAG_INT | 0x7) == (QNAN | TAG_RESOURCE)
    }

    pub open spec fn carga_recurso(self) -> u32 {
        ((self.0 >> 32) & 0xFFFF) as u32
    }

    pub open spec fn es_objeto_s(self) -> bool {
        self.0 & (QNAN | SIGN_BIT) == (QNAN | SIGN_BIT)
    }

    pub open spec fn carga_handle(self) -> u32 {
        (self.0 & 0xFFFFFFFF) as u32
    }

    /// Falsy exactly when nil or the boolean false; everything else,
    /// numbers and objects included, counts as true in conditions.
    pub open spec fn es_falsa_s(self) -> bool {
        self.es_nulo_s() || (self.es_logico_s() && !self.a_logico_s())
    }

    /// Wrap raw 64-bit number bits; the caller asserts they are not in
    /// the tag space, so the result reads back as a plain number.
    pub fn numero_bits(bits: u64) -> (r: Value)
        requires
            bits & QNAN != QNAN,
        ensures
            r.0 == bits,
            r.es_numero_s(),
            !r.es_entero_s(),
            !r.es_nulo_s(),
            !r.es_logico_s(),
            !r.es_objeto_s(),
            !r.es_nativa_s(),
            !r.es_recurso_s(),
    {
        proof {
            lema_numero_bits(bits);
        }
        Value(bits)
    }

    pub fn nulo() -> (r: Value)
        ensures
            r == Value::nulo_s(),
            r.es_nulo_s(),
            r.es_falsa_s(),
            !r.es_entero_s(),
            !r.es_numero_s(),
            !r.es_logico_s(),
            !r.es_objeto_s(),
            !r.es_nativa_s(),
            !r.es_recurso_s(),
    {
        proof {
            lema_nulo_bits();
        }
        Value(QNAN | TAG_NULO)
    }

    pub fn logico(b: bool) -> (r: Value)
        ensures
            r == Value::logico_s(b),
            r.es_logico_s(),
            r.a_logico_s() == b,
            r.es_falsa_s() == !b,
            !r.es_entero_s(),
            !r.es_numero_s(),
            !r.es_nulo_s(),
            !r.es_objeto_s(),
            !r.es_nativa_s(),
            !r.es_recurso_s(),
    {
        proof {
            lema_logico_bits();
        }
        if b {
            Value(QNAN | TAG_TRUE)
        } else {
            Value(QNAN | TAG_FALSE)
        }
    }

    pub fn entero(n: i32) -> (r: Value)
        ensures
            r == Value::entero_s(n),
            r.es_entero_s(),
            r.carga_entera() == n,
            r.es_numero_s(),
            !r.es_falsa_s(),
            !r.es_nulo_s(),
            !r.es_logico_s(),
            !r.es_objeto_s(),
            !r.es_nativa_s(),
            !r.es_recurso_s(),
    {
        proof {
            lema_entero_bits(n);
        }
        Value(QNAN | TAG_INT | (#[verifier::truncate] (n as u32) as u64))
    }

    pub fn es_entero(&self) -> (r: bool)
        ensures
            r == self.es_entero_s(),
    {
        (self.0 & (QNAN | SIGN_BIT | TAG_INT)) == (QNAN | TAG_INT)
    }

    pub fn a_entero(&self) -> (r: i32)
        ensures
            r == self.carga_entera(),
    {
        #[verifier::truncate] ((self.0 & 0xFFFFFFFF) as i32)
    }

    pub fn es_numero(&self) -> (r: bool)
        ensures
            r == self.es_numero_s(),
    {
        ((self.0 & QNAN) != QNAN) || self.es_entero()
    }

    pub fn es_nulo(&self) -> (r: bool)
        ensures
            r == self.es_nulo_s(),
    {
        self.0 == (QNAN | TAG_NULO)
    }

    pub fn es_logico(&self) -> (r: bool)
        ensures
            r == self.es_logico_s(),
    {
        (self.0 | 1) == (QNAN | TAG_TRUE)
    }

    pub fn a_logico(&self) -> (r: bool)
        ensures
            r == self.a_logico_s(),
    {
        self.0 == (QNAN | TAG_TRUE)
    }

    /// Truthiness used by conditional jumps and logical not.
    pub fn es_falsa(&self) -> (r: bool)
        ensures
            r == self.es_falsa_s(),
    {
        self.es_nulo() || (self.es_logico() && !self.a_logico())
    }

    pub fn nativa(idx: u32) -> (r: Value)
        requires
            idx < 0x10000,
        ensures
            r.es_nativa_s(),
            r.indice_nativa() == idx,
            !r.es_entero_s(),
            !r.es_numero_s(),
            !r.es_nulo_s(),
            !r.es_logico_s(),
            !r.es_falsa_s(),
            !r.es_objeto_s(),
            !r.es_recurso_s(),
    {
        proof {
            lema_tag_alto_bits(idx, TAG_NATIVE_FUNC);
        }
        Value(QNAN | TAG_NATIVE_FUNC | ((idx as u64) << 32))
    }

    pub fn es_nativa(&self) -> (r: bool)
        ensures
            r == self.es_nativa_s(),
    {
        (self.0 & (QNAN | SIGN_BIT | TAG_INT | 0x7)) == (QNAN | TAG_NATIVE_FUNC)
    }

    pub fn a_nativa_idx(&self) -> (r: u32)
        ensures
            r == self.indice_nativa(),
    {
        ((self.0 >> 32) & 0xFFFF) as u32
    }

    pub fn recurso(handle: u32) -> (r: Value)
        requires
            handle < 0x10000,
        ensures
            r.es_recurso_s(),
            r.carga_recurso() == handle,
            !r.es_entero_s(),
            !r.es_numero_s(),
            !r.es_nulo_s(),
            !r.es_logico_s(),
            !r.es_falsa_s(),
            !r.es_objeto_s(),
            !r.es_nativa_s(),
    {
        proof {
            lema_tag_alto_bits(handle, TAG_RESOURCE);
        }
        Value(QNAN | TAG_RESOURCE | ((handle as u64) << 32))
    }

    pub fn es_recurso(&self) -> (r: bool)
        ensures
            r == self.es_recurso_s(),
    {
        (self.0 & (QNAN | SIGN_BIT | TAG_INT | 0x7)) == (QNAN | TAG_RESOURCE)
    }

    pub fn a_recurso_handle(&self) -> (r: u32)
        ensures
            r == self.carga_recurso(),
    {
        ((self.0 >> 32) & 0xFFFF) as u32
    }

    pub fn modulo(idx: u32) -> (r: Value)
        requires
            idx < 0x10000,
        ensures
            r.0 == QNAN | TAG_MODULE | ((idx as u64) << 32),
            !r.es_entero_s(),
            !r.es_numero_s(),
            !r.es_objeto_s(),
    {
        proof {
            lema_tag_alto_bits(idx, TAG_MODULE);
        }
        Value(QNAN | TAG_MODULE | ((idx as u64) << 32))
    }

    /// Box an object-table handle (generation in the high half of the
    /// 32 bits, slot in the low half).
    pub fn from_handle(handle: u32) -> (r: Value)
        ensures
            r.es_objeto_s(),
            r.carga_handle() == handle,
            !r.es_entero_s(),
            !r.es_numero_s(),
            !r.es_nulo_s(),
            !r.es_logico_s(),
            !r.es_falsa_s(),
            !r.es_nativa_s(),
            !r.es_recurso_s(),
    {
        proof {
            lema_handle_bits(handle);
        }
        Value(QNAN | SIGN_BIT | (handle as u64))
    }

    pub fn es_objeto(&self) -> (r: bool)
        ensures
            r == self.es_objeto_s(),
    {
        (self.0 & (QNAN | SIGN_BIT)) == (QNAN | SIGN_BIT)
    }

    pub fn a_handle(&self) -> (r: u32)
        ensures
            r == self.carga_handle(),
    {
        #[verifier::truncate] ((self.0 & 0xFFFFFFFF) as u32)
    }
}

/// An integer tag never reads as an object handle: the sign bit
/// separates them.
pub proof fn lema_entero_no_objeto(b: u64)
    by (bit_vector)
    ensures
        Value(b).es_entero_s() ==> !Value(b).es_objeto_s(),
{
}

proof fn lema_numero_bits(bits: u64)
    by (bit_vector)
    requires
        bits & QNAN != QNAN,
    ensures
        !(Value(bits).es_entero_s()),
        Value(bits).es_numero_s(),
        !(Value(bits).es_nulo_s()),
        !(Value(bits).es_logico_s()),
        !(Value(bits).es_objeto_s()),
        !(Value(bits).es_nativa_s()),
        !(Value(bits).es_recurso_s()),
{
}

proof fn lema_nulo_bits()
    by (bit_vector)
    ensures
        Value(QNAN | TAG_NULO).es_nulo_s(),
        !(Value(QNAN | TAG_NULO).es_entero_s()),
        !(Value(QNAN | TAG_NULO).es_numero_s()),
        !(Value(QNAN | TAG_NULO).es_logico_s()),
        !(Value(QNAN | TAG_NULO).es_objeto_s()),
        !(Value(QNAN | TAG_NULO).es_nativa_s()),
        !(Value(QNAN | TAG_NULO).es_recurso_s()),
{
}

proof fn lema_logico_bits()
    by (bit_vector)
    ensures
        Value(QNAN | TAG_TRUE).es_logico_s(),
        Value(QNAN | TAG_FALSE).es_logico_s(),
        Value(QNAN | TAG_TRUE).a_logico_s(),
        !(Value(QNAN | TAG_FALSE).a_logico_s()),
        !(Value(QNAN | TAG_TRUE).es_nulo_s()),
        !(Value(QNAN | TAG_FALSE).es_nulo_s()),
        !(Value(QNAN | TAG_TRUE).es_entero_s()),
        !(Value(QNAN | TAG_FALSE).es_entero_s()),
        !(Value(QNAN | TAG_TRUE).es_numero_s()),
        !(Value(QNAN | TAG_FALSE).es_numero_s()),
        !(Value(QNAN | TAG_TRUE).es_objeto_s()),
        !(Value(QNAN | TAG_FALSE).es_objeto_s()),
        !(Value(QNAN | TAG_TRUE).es_nativa_s()),
        !(Value(QNAN | TAG_FALSE).es_nativa_s()),
        !(Value(QNAN | TAG_TRUE).es_recurso_s()),
        !(Value(QNAN | TAG_FALSE).es_recurso_s()),
{
}

proof fn lema_entero_bits(n: i32)
    by (bit_vector)
    ensures
        Value(QNAN | TAG_INT | (n as u32 as u64)).es_entero_s(),
        Value(QNAN | TAG_INT | (n as u32 as u64)).carga_entera() == n,
        Value(QNAN | TAG_INT | (n as u32 as u64)).es_numero_s(),
        !(Value(QNAN | TAG_INT | (n as u32 as u64)).es_nulo_s()),
        !(Value(QNAN | TAG_INT | (n as u32 as u64)).es_logico_s()),
        !(Value(QNAN | TAG_INT | (n as u32 as u64)).es_objeto_s()),
        !(Value(QNAN | TAG_INT | (n as u32 as u64)).es_nativa_s()),
        !(Value(QNAN | TAG_INT | (n as u32 as u64)).es_recurso_s()),
        !(Value(QNAN | TAG_INT | (n as u32 as u64)).es_falsa_s()),
{
}

/// Shared shape of the native-function, module and resource tags: the
/// 16-bit payload sits in bits 32..48 and the low three bits hold the tag.
proof fn lema_tag_alto_bits(idx: u32, tag: u64)
    by (bit_vector)
    requires
        idx < 0x10000,
        1 <= tag <= 6,
    ensures
        Value(QNAN | tag | ((idx as u64) << 32)).indice_nativa() == idx,
        Value(QNAN | tag | ((idx as u64) << 32)).carga_recurso() == idx,
        Value(QNAN | tag | ((idx as u64) << 32)).es_nativa_s() == (tag == TAG_NATIVE_FUNC),
        Value(QNAN | tag | ((idx as u64) << 32)).es_recurso_s() == (tag == TAG_RESOURCE),
        !(Value(QNAN | tag | ((idx as u64) << 32)).es_entero_s()),
        !(Value(QNAN | tag | ((idx as u64) << 32)).es_numero_s()),
        !(Value(QNAN | tag | ((idx as u64) << 32)).es_objeto_s()),
        tag >= 4 ==> !(Value(QNAN | tag | ((idx as u64) << 32)).es_nulo_s()),
        tag >= 4 ==> !(Value(QNAN | tag | ((idx as u64) << 32)).es_logico_s()),
        tag >= 4 ==> !(Value(QNAN | tag | ((idx as u64) << 32)).es_falsa_s()),
{
}

proof fn lema_handle_bits(handle: u32)
    by (bit_vector)
    ensures
        Value(QNAN | SIGN_BIT | (handle as u64)).es_objeto_s(),
        Value(QNAN | SIGN_BIT | (handle as u64)).carga_handle() == handle,
        !(Value(QNAN | SIGN_BIT | (handle as u64)).es_entero_s()),
        !(Value(QNAN | SIGN_BIT | (handle as u64)).es_numero_s()),
        !(Value(QNAN | SIGN_BIT | (handle as u64)).es_nulo_s()),
        !(Value(QNAN | SIGN_BIT | (handle as u64)).es_logico_s()),
        !(Value(QNAN | SIGN_BIT | (handle as u64)).es_nativa_s()),
        !(Value(QNAN | SIGN_BIT | (handle as u64)).es_recurso_s()),
        !(Value(QNAN | SIGN_BIT | (handle as u64)).es_falsa_s()),
{
}

} // verus!

