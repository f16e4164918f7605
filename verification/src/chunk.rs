//! The executable unit: packed 32-bit instructions and a constant pool.
//!
//! Instructions use two layouts.  ABC packs an opcode byte and three
//! 8-bit register operands; ABx packs an opcode byte, one register
//! operand and a 16-bit immediate (a constant index or a relative jump
//! offset).  Encoding and decoding are exact inverses, proved below.

use vstd::prelude::*;

use crate::value::Value;

verus! {

/// One opcode per instruction kind of the machine.
#[derive(Clone, Copy, PartialEq, Eq, Structural, Debug)]
pub enum OpCode {
    CargarConstante,
    Mover,
    Sumar,
    Restar,
    Retornar,
    Imprimir,
    Menor,
    Igual,
    Saltar,
    SaltarSiFalso,
    SaltarAtras,
    Llamar,
    Multiplicar,
    Dividir,
    AccederPropiedad,
    ObtenerGlobal,
    MenorIgual,
    Not,
    CrearLista,
    CrearDiccionario,
    AccederIndice,
    AsignarIndice,
    AsignarPropiedad,
    CrearClase,
    Metodo,
    PushTry,
    PopTry,
    Lanzar,
    Importar,
    ObtenerError,
    Modulo,
    Potencia,
    BitAnd,
    BitOr,
    BitXor,
    ShiftIzq,
    ShiftDer,
    DefinirGlobal,
    AsyncCall,
    Await,
    Negativo,
    BitNot,
}

impl OpCode {
    /// The byte that encodes this opcode.
    pub open spec fn codigo_s(self) -> u8 {
        match self {
            OpCode::CargarConstante => 0,
            OpCode::Mover => 1,
            OpCode::Sumar => 2,
            OpCode::Restar => 3,
            OpCode::Retornar => 4,
            OpCode::Imprimir => 5,
            OpCode::Menor => 6,
            OpCode::Igual => 7,
            OpCode::Saltar => 8,
            OpCode::SaltarSiFalso => 9,
            OpCode::SaltarAtras => 10,
            OpCode::Llamar => 11,
            OpCode::Multiplicar => 12,
            OpCode::Dividir => 13,
            OpCode::AccederPropiedad => 14,
            OpCode::ObtenerGlobal => 15,
            OpCode::MenorIgual => 16,
            OpCode::Not => 17,
            OpCode::CrearLista => 18,
            OpCode::CrearDiccionario => 19,
            OpCode::AccederIndice => 20,
            OpCode::AsignarIndice => 21,
            OpCode::AsignarPropiedad => 22,
            OpCode::CrearClase => 23,
            OpCode::Metodo => 24,
            OpCode::PushTry => 25,
            OpCode::PopTry => 26,
            OpCode::Lanzar => 27,
            OpCode::Importar => 28,
            OpCode::ObtenerError => 29,
            OpCode::Modulo => 30,
            OpCode::Potencia => 31,
            OpCode::BitAnd => 32,
            OpCode::BitOr => 33,
            OpCode::BitXor => 34,
            OpCode::ShiftIzq => 35,
            OpCode::ShiftDer => 36,
            OpCode::DefinirGlobal => 37,
            OpCode::AsyncCall => 38,
            OpCode::Await => 39,
            OpCode::Negativo => 40,
            OpCode::BitNot => 41,
        }
    }

    pub fn codigo(self) -> (r: u8)
        ensures
            r == self.codigo_s(),
    {
        match self {
            OpCode::CargarConstante => 0,
            OpCode::Mover => 1,
            OpCode::Sumar => 2,
            OpCode::Restar => 3,
            OpCode::Retornar => 4,
            OpCode::Imprimir => 5,
            OpCode::Menor => 6,
            OpCode::Igual => 7,
            OpCode::Saltar => 8,
            OpCode::SaltarSiFalso => 9,
            OpCode::SaltarAtras => 10,
            OpCode::Llamar => 11,
            OpCode::Multiplicar => 12,
            OpCode::Dividir => 13,
            OpCode::AccederPropiedad => 14,
            OpCode::ObtenerGlobal => 15,
            OpCode::MenorIgual => 16,
            OpCode::Not => 17,
            OpCode::CrearLista => 18,
            OpCode::CrearDiccionario => 19,
            OpCode::AccederIndice => 20,
            OpCode::AsignarIndice => 21,
            OpCode::AsignarPropiedad => 22,
            OpCode::CrearClase => 23,
            OpCode::Metodo => 24,
            OpCode::PushTry => 25,
            OpCode::PopTry => 26,
            OpCode::Lanzar => 27,
            OpCode::Importar => 28,
            OpCode::ObtenerError => 29,
            OpCode::Modulo => 30,
            OpCode::Potencia => 31,
            OpCode::BitAnd => 32,
            OpCode::BitOr => 33,
            OpCode::BitXor => 34,
            OpCode::ShiftIzq => 35,
            OpCode::ShiftDer => 36,
            OpCode::DefinirGlobal => 37,
            OpCode::AsyncCall => 38,
            OpCode::Await => 39,
            OpCode::Negativo => 40,
            OpCode::BitNot => 41,
        }
    }

    /// The opcode a byte stands for, if any.
    pub open spec fn desde_byte_s(b: u8) -> Option<OpCode> {
        match b {
            0 => Some(OpCode::CargarConstante),
            1 => Some(OpCode::Mover),
            2 => Some(OpCode::Sumar),
            3 => Some(OpCode::Restar),
            4 => Some(OpCode::Retornar),
            5 => Some(OpCode::Imprimir),
            6 => Some(OpCode::Menor),
            7 => Some(OpCode::Igual),
            8 => Some(OpCode::Saltar),
            9 => Some(OpCode::SaltarSiFalso),
            10 => Some(OpCode::SaltarAtras),
            11 => Some(OpCode::Llamar),
            12 => Some(OpCode::Multiplicar),
            13 => Some(OpCode::Dividir),
            14 => Some(OpCode::AccederPropiedad),
            15 => Some(OpCode::ObtenerGlobal),
            16 => Some(OpCode::MenorIgual),
            17 => Some(OpCode::Not),
            18 => Some(OpCode::CrearLista),
            19 => Some(OpCode::CrearDiccionario),
            20 => Some(OpCode::AccederIndice),
            21 => Some(OpCode::AsignarIndice),
            22 => Some(OpCode::AsignarPropiedad),
            23 => Some(OpCode::CrearClase),
            24 => Some(OpCode::Metodo),
            25 => Some(OpCode::PushTry),
            26 => Some(OpCode::PopTry),
            27 => Some(OpCode::Lanzar),
            28 => Some(OpCode::Importar),
            29 => Some(OpCode::ObtenerError),
            30 => Some(OpCode::Modulo),
            31 => Some(OpCode::Potencia),
            32 => Some(OpCode::BitAnd),
            33 => Some(OpCode::BitOr),
            34 => Some(OpCode::BitXor),
            35 => Some(OpCode::ShiftIzq),
            36 => Some(OpCode::ShiftDer),
            37 => Some(OpCode::DefinirGlobal),
            38 => Some(OpCode::AsyncCall),
            39 => Some(OpCode::Await),
            40 => Some(OpCode::Negativo),
            41 => Some(OpCode::BitNot),
            _ => None,
        }
    }

    pub fn desde_byte(b: u8) -> (r: Option<OpCode>)
        ensures
            r == OpCode::desde_byte_s(b),
    {
        match b {
            0 => Some(OpCode::CargarConstante),
            1 => Some(OpCode::Mover),
            2 => Some(OpCode::Sumar),
            3 => Some(OpCode::Restar),
            4 => Some(OpCode::Retornar),
            5 => Some(OpCode::Imprimir),
            6 => Some(OpCode::Menor),
            7 => Some(OpCode::Igual),
            8 => Some(OpCode::Saltar),
            9 => Some(OpCode::SaltarSiFalso),
            10 => Some(OpCode::SaltarAtras),
            11 => Some(OpCode::Llamar),
            12 => Some(OpCode::Multiplicar),
            13 => Some(OpCode::Dividir),
            14 => Some(OpCode::AccederPropiedad),
            15 => Some(OpCode::ObtenerGlobal),
            16 => Some(OpCode::MenorIgual),
            17 => Some(OpCode::Not),
            18 => Some(OpCode::CrearLista),
            19 => Some(OpCode::CrearDiccionario),
            20 => Some(OpCode::AccederIndice),
            21 => Some(OpCode::AsignarIndice),
            22 => Some(OpCode::AsignarPropiedad),
            23 => Some(OpCode::CrearClase),
            24 => Some(OpCode::Metodo),
            25 => Some(OpCode::PushTry),
            26 => Some(OpCode::PopTry),
            27 => Some(OpCode::Lanzar),
            28 => Some(OpCode::Importar),
            29 => Some(OpCode::ObtenerError),
            30 => Some(OpCode::Modulo),
            31 => Some(OpCode::Potencia),
            32 => Some(OpCode::BitAnd),
            33 => Some(OpCode::BitOr),
            34 => Some(OpCode::BitXor),
            35 => Some(OpCode::ShiftIzq),
            36 => Some(OpCode::ShiftDer),
            37 => Some(OpCode::DefinirGlobal),
            38 => Some(OpCode::AsyncCall),
            39 => Some(OpCode::Await),
            40 => Some(OpCode::Negativo),
            41 => Some(OpCode::BitNot),
            _ => None,
        }
    }
}

/// Decoding an opcode byte undoes encoding it: every opcode is
/// recovered from its own byte.
pub proof fn lema_opcode_ida_vuelta(op: OpCode)
    ensures
        OpCode::desde_byte_s(op.codigo_s()) == Some(op),
{
}

/// Opcode field of a packed instruction.
pub open spec fn campo_op(i: u32) -> u8 {
    (i >> 24) as u8
}

/// First register operand.
pub open spec fn campo_a(i: u32) -> u8 {
    ((i >> 16) & 0xFF) as u8
}

/// Second register operand (ABC layout).
pub open spec fn campo_b(i: u32) -> u8 {
    ((i >> 8) & 0xFF) as u8
}

/// Third register operand (ABC layout).
pub open spec fn campo_c(i: u32) -> u8 {
    (i & 0xFF) as u8
}

/// 16-bit immediate (ABx layout).
pub open spec fn campo_bx(i: u32) -> u16 {
    (i & 0xFFFF) as u16
}

pub fn decodificar_op(i: u32) -> (r: u8)
    ensures
        r == campo_op(i),
{
    (i >> 24) as u8
}

pub fn decodificar_a(i: u32) -> (r: u8)
    ensures
        r == campo_a(i),
{
    #[verifier::truncate] (((i >> 16) & 0xFF) as u8)
}

pub fn decodificar_b(i: u32) -> (r: u8)
    ensures
        r == campo_b(i),
{
    #[verifier::truncate] (((i >> 8) & 0xFF) as u8)
}

pub fn decodificar_c(i: u32) -> (r: u8)
    ensures
        r == campo_c(i),
{
    #[verifier::truncate] ((i & 0xFF) as u8)
}

pub fn decodificar_bx(i: u32) -> (r: u16)
    ensures
        r == campo_bx(i),
{
    #[verifier::truncate] ((i & 0xFFFF) as u16)
}

/// The executable unit: instructions plus the constant pool they index.
pub struct Chunk {
    pub code: Vec<u32>,
    pub constants: Vec<Value>,
}

impl Chunk {
    pub fn new() -> (r: Chunk)
        ensures
            r.code@.len() == 0,
            r.constants@.len() == 0,
    {
        Chunk { code: Vec::new(), constants: Vec::new() }
    }

    /// Append one packed instruction.
    pub fn write(&mut self, instruction: u32)
        requires
            old(self).code@.len() < usize::MAX,
        ensures
            final(self).code@ == old(self).code@.push(instruction),
            final(self).constants@ == old(self).constants@,
    {
        self.code.push(instruction);
    }

    /// Append a constant and return its pool index.
    pub fn add_constant(&mut self, value: Value) -> (idx: u16)
        requires
            old(self).constants@.len() < 0x10000,
        ensures
            final(self).constants@ == old(self).constants@.push(value),
            final(self).code@ == old(self).code@,
            idx as int == old(self).constants@.len(),
    {
        self.constants.push(value);
        (self.constants.len() - 1) as u16
    }

    /// Pack an ABC-layout instruction; each field is recovered exactly
    /// by the decode functions.
    pub fn encode_abc(op: OpCode, a: u8, b: u8, c: u8) -> (r: u32)
        ensures
            campo_op(r) == op.codigo_s(),
            campo_a(r) == a,
            campo_b(r) == b,
            campo_c(r) == c,
            campo_bx(r) == (b as u16) * 256 + (c as u16),
    {
        let ob = op.codigo();
        proof {
            lema_encode_abc(ob, a, b, c);
        }
        ((ob as u32) << 24) | ((a as u32) << 16) | ((b as u32) << 8) | (c as u32)
    }

    /// Pack an ABx-layout instruction; the opcode, the register and the
    /// immediate are recovered exactly by the decode functions.
    pub fn encode_abx(op: OpCode, a: u8, bx: u16) -> (r: u32)
        ensures
            campo_op(r) == op.codigo_s(),
            campo_a(r) == a,
            campo_bx(r) == bx,
    {
        let ob = op.codigo();
        proof {
            lema_encode_abx(ob, a, bx);
        }
        ((ob as u32) << 24) | ((a as u32) << 16) | (bx as u32)
    }
}

proof fn lema_encode_abc(ob: u8, a: u8, b: u8, c: u8)
    by (bit_vector)
    ensures
        campo_op(((ob as u32) << 24) | ((a as u32) << 16) | ((b as u32) << 8) | (c as u32)) == ob,
        campo_a(((ob as u32) << 24) | ((a as u32) << 16) | ((b as u32) << 8) | (c as u32)) == a,
        campo_b(((ob as u32) << 24) | ((a as u32) << 16) | ((b as u32) << 8) | (c as u32)) == b,
        campo_c(((ob as u32) << 24) | ((a as u32) << 16) | ((b as u32) << 8) | (c as u32)) == c,
        campo_bx(((ob as u32) << 24) | ((a as u32) << 16) | ((b as u32) << 8) | (c as u32)) == (
        b as u16) * 256 + (c as u16),
{
}

proof fn lema_encode_abx(ob: u8, a: u8, bx: u16)
    by (bit_vector)
    ensures
        campo_op(((ob as u32) << 24) | ((a as u32) << 16) | (bx as u32)) == ob,
        campo_a(((ob as u32) << 24) | ((a as u32) << 16) | (bx as u32)) == a,
        campo_bx(((ob as u32) << 24) | ((a as u32) << 16) | (bx as u32)) == bx,
{
}

} // verus!
