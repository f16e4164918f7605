//! Single-pass bytecode compiler: abstract syntax to a chunk.
//!
//! Registers are bump-allocated within a function frame; a known local
//! is written in place, a fresh one takes the next register, and more
//! than 255 registers is a compile error.  Forward jumps are emitted
//! with a placeholder offset and patched once the landing site is
//! known; patching never changes an instruction's opcode.  Functions
//! are emitted inline behind an unconditional jump, end in a default
//! nil return, and their entry program counter is packed into an
//! integer-tagged value.  Short-circuit `and`/`or` lower to
//! conditional jumps, so the right operand only runs when needed.
//!
//! Along every normal path a try region pushes exactly one handler and
//! pops it again: compilation preserves the push/pop balance of the
//! emitted code, and a whole program compiles to balanced code.

use vstd::prelude::*;

use crate::ast::{Expresion, Literal, OperadorBinario, OperadorUnario, Programa, Sentencia};
use crate::chunk::{campo_op, Chunk, OpCode};
use crate::object::{asoc_busca, asoc_pone, Obj};
use crate::table::ObjectTable;
use crate::value::{Value, QNAN};

verus! {

/// What the compiler has inferred about a register's content.
#[derive(Clone, Copy, PartialEq, Eq, Structural, Debug)]
pub enum TypeHint {
    Unknown,
    Integer,
    Float,
    Boolean,
}

/// The opcode a binary operator lowers to; the greater-than forms
/// reuse the less-than opcodes with swapped operands, inequality is
/// equality followed by not, and the logical forms fall back to their
/// bitwise opcodes when not lowered as jumps.
pub open spec fn opcode_de_binop_s(op: OperadorBinario) -> OpCode {
    match op {
        OperadorBinario::Suma => OpCode::Sumar,
        OperadorBinario::Resta => OpCode::Restar,
        OperadorBinario::Multiplicacion => OpCode::Multiplicar,
        OperadorBinario::Division => OpCode::Dividir,
        OperadorBinario::Modulo => OpCode::Modulo,
        OperadorBinario::Potencia => OpCode::Potencia,
        OperadorBinario::Menor => OpCode::Menor,
        OperadorBinario::MenorIgual => OpCode::MenorIgual,
        OperadorBinario::Mayor => OpCode::Menor,
        OperadorBinario::MayorIgual => OpCode::MenorIgual,
        OperadorBinario::Igual => OpCode::Igual,
        OperadorBinario::NoIgual => OpCode::Igual,
        OperadorBinario::Y => OpCode::BitAnd,
        OperadorBinario::O => OpCode::BitOr,
        OperadorBinario::BitAnd => OpCode::BitAnd,
        OperadorBinario::BitOr => OpCode::BitOr,
        OperadorBinario::BitXor => OpCode::BitXor,
        OperadorBinario::ShiftIzq => OpCode::ShiftIzq,
        OperadorBinario::ShiftDer => OpCode::ShiftDer,
    }
}

/// The operators whose operands swap into the mirrored comparison.
pub open spec fn binop_invierte_s(op: OperadorBinario) -> bool {
    op == OperadorBinario::Mayor || op == OperadorBinario::MayorIgual
}

/// The handler-balance weight of an opcode byte.
pub open spec fn peso_try(b: u8) -> int {
    if b == OpCode::PushTry.codigo_s() {
        1
    } else if b == OpCode::PopTry.codigo_s() {
        -1
    } else {
        0
    }
}

/// Pushed handlers minus popped handlers over a code sequence.
pub open spec fn balance_try(code: Seq<u32>) -> int
    decreases code.len(),
{
    if code.len() == 0 {
        0
    } else {
        balance_try(code.drop_last()) + peso_try(campo_op(code.last()))
    }
}

/// Appending one instruction moves the balance by its weight.
proof fn lema_balance_agrega(code: Seq<u32>, i: u32)
    ensures
        balance_try(code.push(i)) == balance_try(code) + peso_try(campo_op(i)),
{
    assert(code.push(i).drop_last() =~= code);
}

/// Rewriting an instruction without changing its opcode keeps the
/// balance.
proof fn lema_balance_parche(code: Seq<u32>, idx: int, i: u32)
    requires
        0 <= idx < code.len(),
        campo_op(i) == campo_op(code[idx]),
    ensures
        balance_try(code.update(idx, i)) == balance_try(code),
    decreases code.len(),
{
    let cu = code.update(idx, i);
    if idx == code.len() - 1 {
        assert(cu.drop_last() =~= code.drop_last());
        assert(cu.last() == i);
    } else {
        assert(cu.drop_last() =~= code.drop_last().update(idx, i));
        assert(cu.last() == code.last());
        lema_balance_parche(code.drop_last(), idx, i);
    }
}

/// The expression shapes the compiler accepts: dictionary displays
/// with matched, bounded key and value lists, bounded list displays
/// and argument lists, and decimal literals outside the tag space.
pub open spec fn forma_valida_expresion(e: Expresion) -> bool
    decreases e,
{
    match e {
        Expresion::Literal(l) => match l {
            Literal::Decimal(bits) => bits & crate::value::QNAN != crate::value::QNAN,
            _ => true,
        },
        Expresion::Identificador(_) => true,
        Expresion::Lista(els) => els@.len() <= 255 && (forall|i: int|
            0 <= i < els@.len() ==> forma_valida_expresion(#[trigger] els@[i])),
        Expresion::Diccionario { claves, valores } => claves@.len() == valores@.len()
            && claves@.len() <= 127 && (forall|i: int|
            0 <= i < claves@.len() ==> forma_valida_expresion(#[trigger] claves@[i])) && (forall|
            i: int,
        |
            0 <= i < valores@.len() ==> forma_valida_expresion(#[trigger] valores@[i])),
        Expresion::AccesoIndice { objeto, indice } => forma_valida_expresion(*objeto)
            && forma_valida_expresion(*indice),
        Expresion::AccesoAtributo { objeto, .. } => forma_valida_expresion(*objeto),
        Expresion::Llamada { func, args } => args@.len() <= 254 && forma_valida_expresion(*func)
            && (forall|i: int| 0 <= i < args@.len() ==> forma_valida_expresion(#[trigger] args@[i])),
        Expresion::Binaria { izq, der, .. } => forma_valida_expresion(*izq)
            && forma_valida_expresion(*der),
        Expresion::Unaria { exp, .. } => forma_valida_expresion(*exp),
        Expresion::Await(exp) => forma_valida_expresion(*exp),
    }
}

/// The statement shapes the compiler accepts; assignment targets are
/// names, indexings or attributes, and a class body's methods must be
/// valid (its other members are ignored by design).
pub open spec fn forma_valida_sentencia(s: Sentencia) -> bool
    decreases s,
{
    match s {
        Sentencia::Imprimir(exprs) => forall|i: int|
            0 <= i < exprs@.len() ==> forma_valida_expresion(#[trigger] exprs@[i]),
        Sentencia::Asignacion { objetivo, valor } => forma_valida_expresion(valor) && match objetivo {
            Expresion::Identificador(_) => true,
            Expresion::AccesoIndice { objeto, indice } => forma_valida_expresion(*objeto)
                && forma_valida_expresion(*indice),
            Expresion::AccesoAtributo { objeto, .. } => forma_valida_expresion(*objeto),
            _ => false,
        },
        Sentencia::Expresion(e) => forma_valida_expresion(e),
        Sentencia::Funcion { cuerpo, .. } => forma_valida_sentencias(cuerpo@),
        Sentencia::Clase { cuerpo, .. } => forall|i: int|
            0 <= i < cuerpo@.len() ==> match #[trigger] cuerpo@[i] {
                Sentencia::Funcion { cuerpo: mc, .. } => forma_valida_sentencias(mc@),
                _ => true,
            },
        Sentencia::Importar { .. } => true,
        Sentencia::TryCatch { cuerpo, captura, finalmente, .. } => forma_valida_sentencias(cuerpo@)
            && forma_valida_sentencias(captura@) && match finalmente {
            Some(bloque) => forma_valida_sentencias(bloque@),
            None => true,
        },
        Sentencia::Lanzar(e) => forma_valida_expresion(e),
        Sentencia::Retornar(opt) => match opt {
            Some(e) => forma_valida_expresion(e),
            None => true,
        },
        Sentencia::Si { condicion, entonces, sino } => forma_valida_expresion(condicion)
            && forma_valida_sentencias(entonces@) && match sino {
            Some(bloque) => forma_valida_sentencias(bloque@),
            None => true,
        },
        Sentencia::Mientras { condicion, cuerpo } => forma_valida_expresion(condicion)
            && forma_valida_sentencias(cuerpo@),
    }
}

/// Every statement of a block has a supported shape.
pub open spec fn forma_valida_sentencias(bloque: Seq<Sentencia>) -> bool
    decreases bloque,
{
    forall|i: int| 0 <= i < bloque.len() ==> forma_valida_sentencia(#[trigger] bloque[i])
}

/// The compiler: the chunk being built, the object table holding its
/// heap constants, and the local-variable scope.
pub struct Compiler {
    chunk: Chunk,
    tabla: ObjectTable,
    reg_count: usize,
    locals: Vec<(String, Value)>,
    reg_types: Vec<(u8, TypeHint)>,
    scope_depth: usize,
}

impl Compiler {
    pub closed spec fn wf_c(self) -> bool {
        &&& self.tabla.wf()
        &&& self.reg_count <= 256
    }

    pub closed spec fn balance_s(self) -> int {
        balance_try(self.chunk.code@)
    }

    pub closed spec fn largo_codigo(self) -> nat {
        self.chunk.code@.len()
    }

    pub closed spec fn cuenta_regs(self) -> int {
        self.reg_count as int
    }

    /// The instructions emitted so far.
    pub closed spec fn codigo_s(self) -> Seq<u32> {
        self.chunk.code@
    }

    /// How many constants the pool holds.
    pub closed spec fn cuenta_constantes(self) -> nat {
        self.chunk.constants@.len()
    }

    /// The constant table can take another heap object.
    pub closed spec fn tabla_espacio_c(self) -> bool {
        self.tabla.espacio_s()
    }

    pub fn new() -> (r: Compiler)
        ensures
            r.wf_c(),
            r.balance_s() == 0,
    {
        Compiler {
            chunk: Chunk::new(),
            tabla: ObjectTable::new(),
            reg_count: 0,
            locals: Vec::new(),
            reg_types: Vec::new(),
            scope_depth: 0,
        }
    }

    /// Grab the next register of this frame.
    fn alloc_register(&mut self) -> (r: Result<u8, String>)
        requires
            old(self).wf_c(),
        ensures
            final(self).wf_c(),
            final(self).balance_s() == old(self).balance_s(),
            r matches Ok(reg) ==> reg as int == old(self).cuenta_regs()
                && final(self).cuenta_regs() == old(self).cuenta_regs() + 1 && reg < 255,
            r is Err ==> final(self).cuenta_regs() == old(self).cuenta_regs(),
            old(self).cuenta_regs() < 255 ==> r is Ok,
            final(self).codigo_s() == old(self).codigo_s(),
    {
        proof {
            reveal_strlit("demasiados registros en una funcion");
        }
        if self.reg_count >= 255 {
            return Err("demasiados registros en una funcion".to_owned());
        }
        let r = self.reg_count as u8;
        self.reg_count = self.reg_count + 1;
        Ok(r)
    }

    /// Append an ABC instruction: the code grows by exactly one word,
    /// decoding back to the given opcode and operands.
    fn emitir(&mut self, op: OpCode, a: u8, b: u8, c: u8) -> (r: Result<(), String>)
        requires
            old(self).wf_c(),
        ensures
            final(self).wf_c(),
            r is Ok ==> final(self).balance_s() == old(self).balance_s() + peso_try(op.codigo_s())
                && final(self).largo_codigo() == old(self).largo_codigo() + 1
                && final(self).codigo_s() == old(self).codigo_s().push(
                final(self).codigo_s().last(),
            ) && campo_op(final(self).codigo_s().last()) == op.codigo_s() && crate::chunk::campo_a(
                final(self).codigo_s().last(),
            ) == a && crate::chunk::campo_b(final(self).codigo_s().last()) == b
                && crate::chunk::campo_c(final(self).codigo_s().last()) == c,
            r is Err ==> final(self).balance_s() == old(self).balance_s() && final(self).codigo_s()
                == old(self).codigo_s(),
            old(self).largo_codigo() < 0xFFFFFFFF ==> r is Ok,
    {
        proof {
            reveal_strlit("programa demasiado grande");
        }
        if self.chunk.code.len() >= 0xFFFFFFFF {
            return Err("programa demasiado grande".to_owned());
        }
        let ghost antes = self.chunk.code@;
        let instr = Chunk::encode_abc(op, a, b, c);
        self.chunk.write(instr);
        proof {
            lema_balance_agrega(antes, instr);
        }
        Ok(())
    }

    /// Append an ABx instruction: the code grows by exactly one word,
    /// decoding back to the given opcode, register and immediate.
    fn emitir_abx(&mut self, op: OpCode, a: u8, bx: u16) -> (r: Result<(), String>)
        requires
            old(self).wf_c(),
        ensures
            final(self).wf_c(),
            r is Ok ==> final(self).balance_s() == old(self).balance_s() + peso_try(op.codigo_s())
                && final(self).largo_codigo() == old(self).largo_codigo() + 1
                && final(self).codigo_s() == old(self).codigo_s().push(
                final(self).codigo_s().last(),
            ) && campo_op(final(self).codigo_s().last()) == op.codigo_s()
                && crate::chunk::campo_a(final(self).codigo_s().last()) == a
                && crate::chunk::campo_bx(final(self).codigo_s().last()) == bx,
            r is Err ==> final(self).balance_s() == old(self).balance_s() && final(self).codigo_s()
                == old(self).codigo_s(),
            old(self).largo_codigo() < 0xFFFFFFFF ==> r is Ok,
    {
        proof {
            reveal_strlit("programa demasiado grande");
        }
        if self.chunk.code.len() >= 0xFFFFFFFF {
            return Err("programa demasiado grande".to_owned());
        }
        let ghost antes = self.chunk.code@;
        let instr = Chunk::encode_abx(op, a, bx);
        self.chunk.write(instr);
        proof {
            lema_balance_agrega(antes, instr);
        }
        Ok(())
    }

    /// Append a jump with a placeholder offset; the returned site is
    /// patched once the landing point is known.
    fn emitir_salto(&mut self, op: OpCode, a: u8) -> (r: Result<usize, String>)
        requires
            old(self).wf_c(),
        ensures
            final(self).wf_c(),
            r matches Ok(idx) ==> final(self).balance_s() == old(self).balance_s() + peso_try(
                op.codigo_s(),
            ) && idx as int == old(self).largo_codigo() && final(self).largo_codigo() == old(
                self,
            ).largo_codigo() + 1 && campo_op(final(self).codigo_s().last()) == op.codigo_s(),
            r is Err ==> final(self).balance_s() == old(self).balance_s(),
            old(self).largo_codigo() < 0xFFFFFFFF ==> r is Ok,
    {
        match self.emitir_abx(op, a, 0xFFFF) {
            Ok(()) => Ok(self.chunk.code.len() - 1),
            Err(e) => Err(e),
        }
    }

    /// Patch a forward jump to land after the last emitted
    /// instruction: only the site's immediate changes — it becomes the
    /// distance to the landing point — and the opcode and register are
    /// kept.
    fn parchear_salto(&mut self, sitio: usize) -> (r: Result<(), String>)
        requires
            old(self).wf_c(),
        ensures
            final(self).wf_c(),
            final(self).balance_s() == old(self).balance_s(),
            r is Ok ==> sitio < old(self).largo_codigo() && final(self).largo_codigo() == old(
                self,
            ).largo_codigo() && final(self).codigo_s() == old(self).codigo_s().update(
                sitio as int,
                final(self).codigo_s()[sitio as int],
            ) && campo_op(final(self).codigo_s()[sitio as int]) == campo_op(
                old(self).codigo_s()[sitio as int],
            ) && crate::chunk::campo_a(final(self).codigo_s()[sitio as int])
                == crate::chunk::campo_a(old(self).codigo_s()[sitio as int])
                && crate::chunk::campo_bx(final(self).codigo_s()[sitio as int]) as int == old(
                self,
            ).largo_codigo() - 1 - sitio,
            r is Err ==> final(self).codigo_s() == old(self).codigo_s(),
    {
        proof {
            reveal_strlit("sitio de parche invalido");
            reveal_strlit("salto demasiado largo");
        }
        if sitio >= self.chunk.code.len() {
            return Err("sitio de parche invalido".to_owned());
        }
        let salto = self.chunk.code.len() - 1 - sitio;
        if salto > 0xFFFF {
            return Err("salto demasiado largo".to_owned());
        }
        let viejo = self.chunk.code[sitio];
        let op = match OpCode::desde_byte(crate::chunk::decodificar_op(viejo)) {
            Some(op) => op,
            None => {
                return Err("sitio de parche invalido".to_owned());
            },
        };
        let a = crate::chunk::decodificar_a(viejo);
        let ghost antes = self.chunk.code@;
        let nuevo = Chunk::encode_abx(op, a, salto as u16);
        self.chunk.code[sitio] = nuevo;
        proof {
            crate::chunk::lema_opcode_ida_vuelta(op);
            lema_balance_parche(antes, sitio as int, nuevo);
        }
        Ok(())
    }

    /// Append the backward jump of a loop.
    fn emitir_bucle(&mut self, inicio: usize) -> (r: Result<(), String>)
        requires
            old(self).wf_c(),
        ensures
            final(self).wf_c(),
            final(self).balance_s() == old(self).balance_s(),
    {
        proof {
            reveal_strlit("bucle demasiado largo");
            reveal_strlit("sitio de parche invalido");
        }
        if inicio > self.chunk.code.len() {
            return Err("sitio de parche invalido".to_owned());
        }
        let distancia = self.chunk.code.len() - inicio;
        if distancia >= 0xFFFF {
            return Err("bucle demasiado largo".to_owned());
        }
        self.emitir_abx(OpCode::SaltarAtras, 0, (distancia + 1) as u16)
    }

    /// Intern a constant; refuses only once the 16-bit index space is
    /// full.
    fn constante(&mut self, v: Value) -> (r: Result<u16, String>)
        requires
            old(self).wf_c(),
        ensures
            final(self).wf_c(),
            final(self).balance_s() == old(self).balance_s(),
            final(self).codigo_s() == old(self).codigo_s(),
            old(self).cuenta_constantes() < 0x10000 ==> r is Ok,
            r is Ok ==> final(self).cuenta_constantes() == old(self).cuenta_constantes() + 1,
    {
        proof {
            reveal_strlit("demasiadas constantes");
        }
        if self.chunk.constants.len() >= 0x10000 {
            return Err("demasiadas constantes".to_owned());
        }
        Ok(self.chunk.add_constant(v))
    }

    /// Intern a text constant: the text lives in the object table and
    /// the pool holds its boxed handle.  Refuses only on a full index
    /// space or an exhausted table.
    fn constante_texto(&mut self, s: String) -> (r: Result<u16, String>)
        requires
            old(self).wf_c(),
        ensures
            final(self).wf_c(),
            final(self).balance_s() == old(self).balance_s(),
            final(self).codigo_s() == old(self).codigo_s(),
            old(self).cuenta_constantes() < 0x10000 && old(self).tabla_espacio_c() ==> r is Ok,
    {
        proof {
            reveal_strlit("memoria de objetos agotada");
        }
        if !self.tabla.espacio() {
            return Err("memoria de objetos agotada".to_owned());
        }
        let h = self.tabla.alojar(Obj::Texto(s));
        self.constante(Value::from_handle(h))
    }

    /// Load a literal into a fresh register; a decimal literal must
    /// carry bits outside the tag space.
    fn literal(&mut self, lit: &Literal) -> (r: Result<u8, String>)
        requires
            old(self).wf_c(),
        ensures
            final(self).wf_c(),
            final(self).balance_s() == old(self).balance_s(),
            r is Ok ==> match *lit {
                Literal::Decimal(bits) => bits & crate::value::QNAN != crate::value::QNAN,
                _ => true,
            },
    {
        proof {
            reveal_strlit("literal decimal invalido");
        }
        let reg = match self.alloc_register() {
            Ok(r) => r,
            Err(e) => {
                return Err(e);
            },
        };
        let v: Value = match lit {
            Literal::Entero(n) => {
                self.apunta_tipo(reg, TypeHint::Integer);
                Value::entero(*n)
            },
            Literal::Decimal(bits) => {
                if *bits & QNAN == QNAN {
                    return Err("literal decimal invalido".to_owned());
                }
                self.apunta_tipo(reg, TypeHint::Float);
                Value::numero_bits(*bits)
            },
            Literal::Texto(s) => {
                proof {
                    reveal_strlit("memoria de objetos agotada");
                }
                if !self.tabla.espacio() {
                    return Err("memoria de objetos agotada".to_owned());
                }
                let h = self.tabla.alojar(Obj::Texto(s.clone()));
                Value::from_handle(h)
            },
            Literal::Booleano(b) => {
                self.apunta_tipo(reg, TypeHint::Boolean);
                Value::logico(*b)
            },
            Literal::Nulo => Value::nulo(),
        };
        let idx = match self.constante(v) {
            Ok(i) => i,
            Err(e) => {
                return Err(e);
            },
        };
        match self.emitir_abx(OpCode::CargarConstante, reg, idx) {
            Ok(()) => Ok(reg),
            Err(e) => Err(e),
        }
    }

    /// Remember a type observation for a register.
    fn apunta_tipo(&mut self, reg: u8, t: TypeHint)
        requires
            old(self).wf_c(),
        ensures
            final(self).wf_c(),
            final(self).balance_s() == old(self).balance_s(),
    {
        if self.reg_types.len() < usize::MAX {
            self.reg_types.push((reg, t));
        }
    }

    /// Bind a local name to the register holding it.
    fn pon_local(&mut self, nombre: String, reg: u8) -> (r: Result<(), String>)
        requires
            old(self).wf_c(),
        ensures
            final(self).wf_c(),
            final(self).balance_s() == old(self).balance_s(),
    {
        proof {
            reveal_strlit("demasiadas variables locales");
        }
        if self.locals.len() >= usize::MAX {
            return Err("demasiadas variables locales".to_owned());
        }
        asoc_pone(&mut self.locals, nombre, Value::entero(reg as i32));
        Ok(())
    }

    /// The register a local name is bound to, if any.
    fn busca_local(&self, nombre: &String) -> (r: Option<u8>) {
        match asoc_busca(&self.locals, nombre) {
            Some(v) => {
                let n = v.a_entero();
                if 0 <= n && n <= 255 {
                    Some(n as u8)
                } else {
                    None
                }
            },
            None => None,
        }
    }

    /// Compile an expression; the result lands in the returned
    /// register.  The handler balance of the emitted code is kept.
    fn compile_expression(&mut self, expr: &Expresion) -> (r: Result<u8, String>)
        requires
            old(self).wf_c(),
        ensures
            final(self).wf_c(),
            r is Ok ==> final(self).balance_s() == old(self).balance_s(),
            r is Ok ==> forma_valida_expresion(*expr),
        decreases expr,
    {
        proof {
            reveal_strlit("asignacion invalida");
        }
        match expr {
            Expresion::Literal(lit) => self.literal(lit),
            Expresion::Identificador(nombre) => {
                match self.busca_local(nombre) {
                    Some(reg) => Ok(reg),
                    None => {
                        let reg = self.alloc_register()?;
                        let idx = self.constante_texto(nombre.clone())?;
                        self.emitir_abx(OpCode::ObtenerGlobal, reg, idx)?;
                        Ok(reg)
                    },
                }
            },
            Expresion::Lista(elementos) => {
                if elementos.len() > 255 {
                    proof {
                        reveal_strlit("lista demasiado larga");
                    }
                    return Err("lista demasiado larga".to_owned());
                }
                let base = self.alloc_register()?;
                let mut i: usize = 1;
                while i < elementos.len()
                    invariant
                        self.wf_c(),
                        self.balance_s() == old(self).balance_s(),
                        1 <= i,
                        i <= elementos@.len() || i == 1,
                        elementos@.len() <= 255,
                        self.cuenta_regs() == base as int + i,
                    decreases elementos@.len() - i,
                {
                    let _ = self.alloc_register()?;
                    i = i + 1;
                }
                proof {
                    assert(base as int + elementos@.len() <= 256);
                }
                proof {
                    assert(decreases_to!(*expr => *elementos));
                    assert(decreases_to!(*elementos => elementos@));
                }
                let mut j: usize = 0;
                while j < elementos.len()
                    invariant
                        self.wf_c(),
                        self.balance_s() == old(self).balance_s(),
                        j <= elementos@.len(),
                        elementos@.len() <= 255,
                        base as int + elementos@.len() <= 256,
                        decreases_to!(*expr => elementos@),
                        forall|t: int|
                            0 <= t < j ==> forma_valida_expresion(#[trigger] elementos@[t]),
                    decreases elementos@.len() - j,
                {
                    proof {
                        assert(decreases_to!(elementos@ => elementos@[j as int]));
                    }
                    let temp = self.compile_expression(&elementos[j])?;
                    self.emitir(OpCode::Mover, (base as usize + j) as u8, temp, 0)?;
                    j = j + 1;
                }
                let destino = self.alloc_register()?;
                self.emitir(OpCode::CrearLista, destino, base, elementos.len() as u8)?;
                Ok(destino)
            },
            Expresion::Diccionario { claves, valores } => {
                if claves.len() != valores.len() || claves.len() > 127 {
                    proof {
                        reveal_strlit("diccionario invalido");
                    }
                    return Err("diccionario invalido".to_owned());
                }
                let cuenta = claves.len();
                let base = self.alloc_register()?;
                let mut i: usize = 1;
                while i < cuenta * 2
                    invariant
                        self.wf_c(),
                        self.balance_s() == old(self).balance_s(),
                        cuenta <= 127,
                        1 <= i,
                        i <= 2 * cuenta || i == 1,
                        self.cuenta_regs() == base as int + i,
                    decreases 2 * cuenta - i,
                {
                    let _ = self.alloc_register()?;
                    i = i + 1;
                }
                proof {
                    assert(base as int + 2 * cuenta <= 256);
                }
                proof {
                    assert(decreases_to!(*expr => *claves));
                    assert(decreases_to!(*claves => claves@));
                    assert(decreases_to!(*expr => *valores));
                    assert(decreases_to!(*valores => valores@));
                }
                let mut j: usize = 0;
                while j < cuenta
                    invariant
                        self.wf_c(),
                        self.balance_s() == old(self).balance_s(),
                        j <= cuenta,
                        cuenta <= 127,
                        cuenta == claves@.len(),
                        cuenta == valores@.len(),
                        base as int + 2 * cuenta <= 256,
                        decreases_to!(*expr => claves@),
                        decreases_to!(*expr => valores@),
                        forall|t: int| 0 <= t < j ==> forma_valida_expresion(#[trigger] claves@[t]),
                        forall|t: int|
                            0 <= t < j ==> forma_valida_expresion(#[trigger] valores@[t]),
                    decreases cuenta - j,
                {
                    proof {
                        assert(decreases_to!(claves@ => claves@[j as int]));
                        assert(decreases_to!(valores@ => valores@[j as int]));
                    }
                    let rk = self.compile_expression(&claves[j])?;
                    let rv = self.compile_expression(&valores[j])?;
                    self.emitir(OpCode::Mover, (base as usize + j * 2) as u8, rk, 0)?;
                    self.emitir(OpCode::Mover, (base as usize + j * 2 + 1) as u8, rv, 0)?;
                    j = j + 1;
                }
                let destino = self.alloc_register()?;
                self.emitir(OpCode::CrearDiccionario, destino, base, cuenta as u8)?;
                Ok(destino)
            },
            Expresion::AccesoIndice { objeto, indice } => {
                let r_obj = self.compile_expression(objeto)?;
                let r_idx = self.compile_expression(indice)?;
                let destino = self.alloc_register()?;
                self.emitir(OpCode::AccederIndice, destino, r_obj, r_idx)?;
                Ok(destino)
            },
            Expresion::AccesoAtributo { objeto, atributo } => {
                let r_obj = self.compile_expression(objeto)?;
                let idx = self.constante_texto(atributo.clone())?;
                if idx > 255 {
                    proof {
                        reveal_strlit("demasiadas constantes");
                    }
                    return Err("demasiadas constantes".to_owned());
                }
                let destino = self.alloc_register()?;
                self.emitir(OpCode::AccederPropiedad, destino, r_obj, idx as u8)?;
                Ok(destino)
            },
            Expresion::Llamada { func, args } => {
                if args.len() > 254 {
                    proof {
                        reveal_strlit("demasiados argumentos");
                    }
                    return Err("demasiados argumentos".to_owned());
                }
                let r_func = self.compile_expression(func)?;
                let mut regs_args: Vec<u8> = Vec::new();
                proof {
                    assert(decreases_to!(*expr => *args));
                    assert(decreases_to!(*args => args@));
                }
                let mut i: usize = 0;
                while i < args.len()
                    invariant
                        self.wf_c(),
                        self.balance_s() == old(self).balance_s(),
                        i <= args@.len(),
                        args@.len() <= 254,
                        regs_args@.len() == i,
                        decreases_to!(*expr => args@),
                        forall|t: int| 0 <= t < i ==> forma_valida_expresion(#[trigger] args@[t]),
                    decreases args@.len() - i,
                {
                    proof {
                        assert(decreases_to!(args@ => args@[i as int]));
                    }
                    let ra = self.compile_expression(&args[i])?;
                    regs_args.push(ra);
                    i = i + 1;
                }
                let base_llamada = self.alloc_register()?;
                self.emitir(OpCode::Mover, base_llamada, r_func, 0)?;
                let mut j: usize = 0;
                while j < regs_args.len()
                    invariant
                        self.wf_c(),
                        self.balance_s() == old(self).balance_s(),
                        j <= regs_args@.len(),
                    decreases regs_args@.len() - j,
                {
                    let ranura = self.alloc_register()?;
                    self.emitir(OpCode::Mover, ranura, regs_args[j], 0)?;
                    j = j + 1;
                }
                self.emitir(OpCode::Llamar, base_llamada, base_llamada, args.len() as u8)?;
                Ok(base_llamada)
            },
            Expresion::Binaria { izq, op, der } => {
                match op {
                    OperadorBinario::Y => {
                        let destino = self.alloc_register()?;
                        let r_izq = self.compile_expression(izq)?;
                        self.emitir(OpCode::Mover, destino, r_izq, 0)?;
                        let salto = self.emitir_salto(OpCode::SaltarSiFalso, destino)?;
                        let r_der = self.compile_expression(der)?;
                        self.emitir(OpCode::Mover, destino, r_der, 0)?;
                        self.parchear_salto(salto)?;
                        Ok(destino)
                    },
                    OperadorBinario::O => {
                        let destino = self.alloc_register()?;
                        let r_izq = self.compile_expression(izq)?;
                        self.emitir(OpCode::Mover, destino, r_izq, 0)?;
                        let temp = self.alloc_register()?;
                        self.emitir(OpCode::Not, temp, destino, 0)?;
                        let salto = self.emitir_salto(OpCode::SaltarSiFalso, temp)?;
                        let r_der = self.compile_expression(der)?;
                        self.emitir(OpCode::Mover, destino, r_der, 0)?;
                        self.parchear_salto(salto)?;
                        Ok(destino)
                    },
                    _ => {
                        let r_izq = self.compile_expression(izq)?;
                        let r_der = self.compile_expression(der)?;
                        let destino = self.alloc_register()?;
                        self.emitir_binop(*op, destino, r_izq, r_der)?;
                        Ok(destino)
                    },
                }
            },
            Expresion::Unaria { op, exp } => {
                let r_val = self.compile_expression(exp)?;
                let destino = self.alloc_register()?;
                match op {
                    OperadorUnario::Not => self.emitir(OpCode::Not, destino, r_val, 0)?,
                    OperadorUnario::Negativo => self.emitir(
                        OpCode::Negativo,
                        destino,
                        r_val,
                        0,
                    )?,
                    OperadorUnario::BitNot => self.emitir(OpCode::BitNot, destino, r_val, 0)?,
                }
                Ok(destino)
            },
            Expresion::Await(exp) => {
                let r_val = self.compile_expression(exp)?;
                let destino = self.alloc_register()?;
                self.emitir(OpCode::Await, destino, r_val, 0)?;
                Ok(destino)
            },
        }
    }

    /// Emit a plain binary operator; greater-than comparisons swap
    /// their operands into the less-than opcodes, and inequality is
    /// equality followed by not.
    fn emitir_binop(&mut self, op: OperadorBinario, destino: u8, izq: u8, der: u8) -> (r: Result<
        (),
        String,
    >)
        requires
            old(self).wf_c(),
        ensures
            final(self).wf_c(),
            r is Ok ==> final(self).balance_s() == old(self).balance_s(),
            r is Ok ==> ({
                let antes = old(self).codigo_s();
                let despues = final(self).codigo_s();
                let principal = despues[antes.len() as int];
                &&& despues.len() == antes.len() + (if op == OperadorBinario::NoIgual {
                    2int
                } else {
                    1int
                })
                &&& despues.subrange(0, antes.len() as int) == antes
                &&& campo_op(principal) == opcode_de_binop_s(op).codigo_s()
                &&& crate::chunk::campo_a(principal) == destino
                &&& crate::chunk::campo_b(principal) == (if binop_invierte_s(op) {
                    der
                } else {
                    izq
                })
                &&& crate::chunk::campo_c(principal) == (if binop_invierte_s(op) {
                    izq
                } else {
                    der
                })
                &&& op == OperadorBinario::NoIgual ==> campo_op(despues.last())
                    == OpCode::Not.codigo_s() && crate::chunk::campo_a(despues.last()) == destino
                    && crate::chunk::campo_b(despues.last()) == destino
            }),
            old(self).largo_codigo() + 1 < 0xFFFFFFFF ==> r is Ok,
    {
        match op {
            OperadorBinario::Suma => self.emitir(OpCode::Sumar, destino, izq, der),
            OperadorBinario::Resta => self.emitir(OpCode::Restar, destino, izq, der),
            OperadorBinario::Multiplicacion => self.emitir(
                OpCode::Multiplicar,
                destino,
                izq,
                der,
            ),
            OperadorBinario::Division => self.emitir(OpCode::Dividir, destino, izq, der),
            OperadorBinario::Modulo => self.emitir(OpCode::Modulo, destino, izq, der),
            OperadorBinario::Potencia => self.emitir(OpCode::Potencia, destino, izq, der),
            OperadorBinario::Menor => self.emitir(OpCode::Menor, destino, izq, der),
            OperadorBinario::MenorIgual => self.emitir(OpCode::MenorIgual, destino, izq, der),
            OperadorBinario::Mayor => self.emitir(OpCode::Menor, destino, der, izq),
            OperadorBinario::MayorIgual => self.emitir(OpCode::MenorIgual, destino, der, izq),
            OperadorBinario::Igual => self.emitir(OpCode::Igual, destino, izq, der),
            OperadorBinario::NoIgual => {
                self.emitir(OpCode::Igual, destino, izq, der)?;
                self.emitir(OpCode::Not, destino, destino, 0)
            },
            OperadorBinario::Y => self.emitir(OpCode::BitAnd, destino, izq, der),
            OperadorBinario::O => self.emitir(OpCode::BitOr, destino, izq, der),
            OperadorBinario::BitAnd => self.emitir(OpCode::BitAnd, destino, izq, der),
            OperadorBinario::BitOr => self.emitir(OpCode::BitOr, destino, izq, der),
            OperadorBinario::BitXor => self.emitir(OpCode::BitXor, destino, izq, der),
            OperadorBinario::ShiftIzq => self.emitir(OpCode::ShiftIzq, destino, izq, der),
            OperadorBinario::ShiftDer => self.emitir(OpCode::ShiftDer, destino, izq, der),
        }
    }

    /// Compile one statement.  The handler balance of the emitted code
    /// is kept: in particular a try region pushes exactly the handler
    /// it pops on its normal path.
    fn compile_statement(&mut self, stmt: &Sentencia) -> (r: Result<(), String>)
        requires
            old(self).wf_c(),
        ensures
            final(self).wf_c(),
            r is Ok ==> final(self).balance_s() == old(self).balance_s(),
            r is Ok ==> forma_valida_sentencia(*stmt),
        decreases stmt,
    {
        match stmt {
            Sentencia::Imprimir(exprs) => {
                let mut i: usize = 0;
                while i < exprs.len()
                    invariant
                        self.wf_c(),
                        self.balance_s() == old(self).balance_s(),
                        i <= exprs@.len(),
                        forall|t: int| 0 <= t < i ==> forma_valida_expresion(#[trigger] exprs@[t]),
                    decreases exprs@.len() - i,
                {
                    let reg = self.compile_expression(&exprs[i])?;
                    self.emitir(OpCode::Imprimir, reg, 0, 0)?;
                    i = i + 1;
                }
                Ok(())
            },
            Sentencia::Asignacion { objetivo, valor } => {
                let reg_val = self.compile_expression(valor)?;
                match objetivo {
                    Expresion::Identificador(nombre) => {
                        match self.busca_local(nombre) {
                            Some(existente) => {
                                self.emitir(OpCode::Mover, existente, reg_val, 0)?;
                            },
                            None => {
                                self.pon_local(nombre.clone(), reg_val)?;
                            },
                        }
                        Ok(())
                    },
                    Expresion::AccesoIndice { objeto, indice } => {
                        let r_obj = self.compile_expression(objeto)?;
                        let r_idx = self.compile_expression(indice)?;
                        self.emitir(OpCode::AsignarIndice, r_obj, r_idx, reg_val)?;
                        Ok(())
                    },
                    Expresion::AccesoAtributo { objeto, atributo } => {
                        let r_obj = self.compile_expression(objeto)?;
                        let idx = self.constante_texto(atributo.clone())?;
                        if idx > 255 {
                            proof {
                                reveal_strlit("demasiadas constantes");
                            }
                            return Err("demasiadas constantes".to_owned());
                        }
                        self.emitir(OpCode::AsignarPropiedad, r_obj, idx as u8, reg_val)?;
                        Ok(())
                    },
                    _ => {
                        proof {
                            reveal_strlit("asignacion no soportada");
                        }
                        Err("asignacion no soportada".to_owned())
                    },
                }
            },
            Sentencia::Expresion(e) => {
                let _ = self.compile_expression(e)?;
                Ok(())
            },
            Sentencia::Funcion { nombre, params, cuerpo } => {
                proof {
                    assert(decreases_to!(*stmt => *cuerpo));
                    assert(decreases_to!(*cuerpo => cuerpo@));
                }
                self.compilar_funcion(nombre, params, cuerpo, None)
            },
            Sentencia::Clase { nombre, herencia, cuerpo } => {
                let reg_padre: u8;
                if herencia.len() > 0 {
                    let padre_nombre = &herencia[0];
                    match self.busca_local(padre_nombre) {
                        Some(r) => {
                            reg_padre = r;
                        },
                        None => {
                            let r = self.alloc_register()?;
                            let c = self.constante_texto(padre_nombre.clone())?;
                            self.emitir_abx(OpCode::ObtenerGlobal, r, c)?;
                            reg_padre = r;
                        },
                    }
                } else {
                    let r = self.alloc_register()?;
                    let c = self.constante(Value::nulo())?;
                    self.emitir_abx(OpCode::CargarConstante, r, c)?;
                    reg_padre = r;
                }
                let reg_clase = self.alloc_register()?;
                let c_nombre = self.constante_texto(nombre.clone())?;
                if c_nombre > 255 {
                    proof {
                        reveal_strlit("demasiadas constantes");
                    }
                    return Err("demasiadas constantes".to_owned());
                }
                self.emitir(OpCode::CrearClase, reg_clase, c_nombre as u8, reg_padre)?;
                self.pon_local(nombre.clone(), reg_clase)?;
                proof {
                    assert(decreases_to!(*stmt => *cuerpo));
                    assert(decreases_to!(*cuerpo => cuerpo@));
                }
                let mut i: usize = 0;
                while i < cuerpo.len()
                    invariant
                        self.wf_c(),
                        self.balance_s() == old(self).balance_s(),
                        i <= cuerpo@.len(),
                        decreases_to!(*stmt => cuerpo@),
                        forall|t: int|
                            0 <= t < i ==> match #[trigger] cuerpo@[t] {
                                Sentencia::Funcion { cuerpo: mc, .. } => forma_valida_sentencias(
                                    mc@,
                                ),
                                _ => true,
                            },
                    decreases cuerpo@.len() - i,
                {
                    proof {
                        assert(decreases_to!(cuerpo@ => cuerpo@[i as int]));
                    }
                    match &cuerpo[i] {
                        Sentencia::Funcion { nombre: metodo_nombre, params, cuerpo: metodo_cuerpo } => {
                            proof {
                                assert(decreases_to!(cuerpo@[i as int] => *metodo_cuerpo));
                                assert(decreases_to!(*metodo_cuerpo => metodo_cuerpo@));
                            }
                            self.compilar_funcion(
                                metodo_nombre,
                                params,
                                metodo_cuerpo,
                                Some(reg_clase),
                            )?;
                        },
                        _ => {},
                    }
                    i = i + 1;
                }
                Ok(())
            },
            Sentencia::Importar { modulo, alias } => {
                let reg_mod = self.alloc_register()?;
                let c_mod = self.constante_texto(modulo.clone())?;
                self.emitir_abx(OpCode::Importar, reg_mod, c_mod)?;
                let nombre_var = match alias {
                    Some(a) => a.clone(),
                    None => modulo.clone(),
                };
                self.pon_local(nombre_var, reg_mod)?;
                Ok(())
            },
            Sentencia::TryCatch { cuerpo, variable_error, captura, finalmente } => {
                proof {
                    assert(decreases_to!(*stmt => *cuerpo));
                    assert(decreases_to!(*cuerpo => cuerpo@));
                    assert(decreases_to!(*stmt => *captura));
                    assert(decreases_to!(*captura => captura@));
                }
                let sitio_push = self.emitir_salto(OpCode::PushTry, 0)?;
                let mut i: usize = 0;
                while i < cuerpo.len()
                    invariant
                        self.wf_c(),
                        self.balance_s() == old(self).balance_s() + 1,
                        i <= cuerpo@.len(),
                        decreases_to!(*stmt => cuerpo@),
                        forall|t: int| 0 <= t < i ==> forma_valida_sentencia(#[trigger] cuerpo@[t]),
                    decreases cuerpo@.len() - i,
                {
                    proof {
                        assert(decreases_to!(cuerpo@ => cuerpo@[i as int]));
                    }
                    self.compile_statement(&cuerpo[i])?;
                    i = i + 1;
                }
                self.emitir(OpCode::PopTry, 0, 0, 0)?;
                let salto_sobre_captura = self.emitir_salto(OpCode::Saltar, 0)?;
                self.parchear_salto(sitio_push)?;
                match variable_error {
                    Some(var) => {
                        let reg_err = self.alloc_register()?;
                        self.pon_local(var.clone(), reg_err)?;
                        self.emitir(OpCode::ObtenerError, reg_err, 0, 0)?;
                    },
                    None => {},
                }
                let mut j: usize = 0;
                while j < captura.len()
                    invariant
                        self.wf_c(),
                        self.balance_s() == old(self).balance_s(),
                        j <= captura@.len(),
                        decreases_to!(*stmt => captura@),
                        forall|t: int|
                            0 <= t < j ==> forma_valida_sentencia(#[trigger] captura@[t]),
                    decreases captura@.len() - j,
                {
                    proof {
                        assert(decreases_to!(captura@ => captura@[j as int]));
                    }
                    self.compile_statement(&captura[j])?;
                    j = j + 1;
                }
                self.parchear_salto(salto_sobre_captura)?;
                match finalmente {
                    Some(bloque) => {
                        proof {
                            assert(decreases_to!(*stmt => *finalmente));
                            assert(decreases_to!(*finalmente => *bloque));
                            assert(decreases_to!(*bloque => bloque@));
                        }
                        let mut k: usize = 0;
                        while k < bloque.len()
                            invariant
                                self.wf_c(),
                                self.balance_s() == old(self).balance_s(),
                                k <= bloque@.len(),
                                decreases_to!(*stmt => bloque@),
                                forall|t: int|
                                    0 <= t < k ==> forma_valida_sentencia(#[trigger] bloque@[t]),
                            decreases bloque@.len() - k,
                        {
                            proof {
                                assert(decreases_to!(bloque@ => bloque@[k as int]));
                            }
                            self.compile_statement(&bloque[k])?;
                            k = k + 1;
                        }
                    },
                    None => {},
                }
                Ok(())
            },
            Sentencia::Lanzar(e) => {
                let reg = self.compile_expression(e)?;
                self.emitir(OpCode::Lanzar, reg, 0, 0)
            },
            Sentencia::Retornar(expr_opt) => {
                let reg_ret: u8;
                match expr_opt {
                    Some(e) => {
                        reg_ret = self.compile_expression(e)?;
                    },
                    None => {
                        let r = self.alloc_register()?;
                        let c = self.constante(Value::nulo())?;
                        self.emitir_abx(OpCode::CargarConstante, r, c)?;
                        reg_ret = r;
                    },
                }
                self.emitir(OpCode::Retornar, reg_ret, 0, 0)
            },
            Sentencia::Si { condicion, entonces, sino } => {
                let reg_cond = self.compile_expression(condicion)?;
                let salto_falso = self.emitir_salto(OpCode::SaltarSiFalso, reg_cond)?;
                proof {
                    assert(decreases_to!(*stmt => *entonces));
                    assert(decreases_to!(*entonces => entonces@));
                }
                let mut i: usize = 0;
                while i < entonces.len()
                    invariant
                        self.wf_c(),
                        self.balance_s() == old(self).balance_s(),
                        i <= entonces@.len(),
                        decreases_to!(*stmt => entonces@),
                        forall|t: int|
                            0 <= t < i ==> forma_valida_sentencia(#[trigger] entonces@[t]),
                    decreases entonces@.len() - i,
                {
                    proof {
                        assert(decreases_to!(entonces@ => entonces@[i as int]));
                    }
                    self.compile_statement(&entonces[i])?;
                    i = i + 1;
                }
                match sino {
                    Some(bloque) => {
                        let salto_fin = self.emitir_salto(OpCode::Saltar, 0)?;
                        self.parchear_salto(salto_falso)?;
                        proof {
                            assert(decreases_to!(*stmt => *sino));
                            assert(decreases_to!(*sino => *bloque));
                            assert(decreases_to!(*bloque => bloque@));
                        }
                        let mut j: usize = 0;
                        while j < bloque.len()
                            invariant
                                self.wf_c(),
                                self.balance_s() == old(self).balance_s(),
                                j <= bloque@.len(),
                                decreases_to!(*stmt => bloque@),
                                forall|t: int|
                                    0 <= t < j ==> forma_valida_sentencia(#[trigger] bloque@[t]),
                            decreases bloque@.len() - j,
                        {
                            proof {
                                assert(decreases_to!(bloque@ => bloque@[j as int]));
                            }
                            self.compile_statement(&bloque[j])?;
                            j = j + 1;
                        }
                        self.parchear_salto(salto_fin)
                    },
                    None => self.parchear_salto(salto_falso),
                }
            },
            Sentencia::Mientras { condicion, cuerpo } => {
                let inicio = self.chunk.code.len();
                let reg_cond = self.compile_expression(condicion)?;
                let salto_salida = self.emitir_salto(OpCode::SaltarSiFalso, reg_cond)?;
                proof {
                    assert(decreases_to!(*stmt => *cuerpo));
                    assert(decreases_to!(*cuerpo => cuerpo@));
                }
                let mut i: usize = 0;
                while i < cuerpo.len()
                    invariant
                        self.wf_c(),
                        self.balance_s() == old(self).balance_s(),
                        i <= cuerpo@.len(),
                        decreases_to!(*stmt => cuerpo@),
                        forall|t: int| 0 <= t < i ==> forma_valida_sentencia(#[trigger] cuerpo@[t]),
                    decreases cuerpo@.len() - i,
                {
                    proof {
                        assert(decreases_to!(cuerpo@ => cuerpo@[i as int]));
                    }
                    self.compile_statement(&cuerpo[i])?;
                    i = i + 1;
                }
                self.emitir_bucle(inicio)?;
                self.parchear_salto(salto_salida)
            },
        }
    }

    /// Emit a function body inline behind a jump, register the entry,
    /// and bind the callable: methods attach to their class, top-level
    /// functions become globals, nested ones become locals.
    fn compilar_funcion(
        &mut self,
        nombre: &String,
        params: &Vec<crate::ast::Parametro>,
        cuerpo: &Vec<Sentencia>,
        clase: Option<u8>,
    ) -> (r: Result<(), String>)
        requires
            old(self).wf_c(),
        ensures
            final(self).wf_c(),
            r is Ok ==> final(self).balance_s() == old(self).balance_s(),
            r is Ok ==> forma_valida_sentencias(cuerpo@),
        decreases cuerpo@,
    {
        proof {
            reveal_strlit("direccion de funcion fuera de rango");
            reveal_strlit("demasiadas constantes");
            reveal_strlit("yo");
        }
        let salto_sobre = self.emitir_salto(OpCode::Saltar, 0)?;
        let direccion = self.chunk.code.len();
        if direccion > 0x7FFFFFFF {
            return Err("direccion de funcion fuera de rango".to_owned());
        }
        let viejos_locales = intercambia_locales(&mut self.locals);
        let viejo_reg_count = self.reg_count;
        self.reg_count = 0;
        self.scope_depth = if self.scope_depth < usize::MAX {
            self.scope_depth + 1
        } else {
            self.scope_depth
        };
        if clase.is_some() {
            let reg_yo = match self.alloc_register() {
                Ok(r) => r,
                Err(e) => {
                    return Err(e);
                },
            };
            self.pon_local("yo".to_owned(), reg_yo)?;
        }
        let mut i: usize = 0;
        while i < params.len()
            invariant
                self.wf_c(),
                self.balance_s() == old(self).balance_s(),
                i <= params@.len(),
            decreases params@.len() - i,
        {
            let reg = self.alloc_register()?;
            self.pon_local(params[i].nombre.clone(), reg)?;
            i = i + 1;
        }
        let mut j: usize = 0;
        while j < cuerpo.len()
            invariant
                self.wf_c(),
                self.balance_s() == old(self).balance_s(),
                j <= cuerpo@.len(),
                forall|t: int| 0 <= t < j ==> forma_valida_sentencia(#[trigger] cuerpo@[t]),
            decreases cuerpo@.len() - j,
        {
            proof {
                assert(decreases_to!(cuerpo@ => cuerpo@[j as int]));
            }
            self.compile_statement(&cuerpo[j])?;
            j = j + 1;
        }
        let reg_nulo = self.alloc_register()?;
        let c_nulo = self.constante(Value::nulo())?;
        self.emitir_abx(OpCode::CargarConstante, reg_nulo, c_nulo)?;
        self.emitir(OpCode::Retornar, reg_nulo, 0, 0)?;
        self.parchear_salto(salto_sobre)?;
        let mut recuperados = viejos_locales;
        core::mem::swap(&mut self.locals, &mut recuperados);
        self.reg_count = viejo_reg_count;
        self.scope_depth = if self.scope_depth > 0 {
            self.scope_depth - 1
        } else {
            0
        };
        let c_direccion = self.constante(Value::entero(direccion as i32))?;
        let reg_func = self.alloc_register()?;
        self.emitir_abx(OpCode::CargarConstante, reg_func, c_direccion)?;
        match clase {
            Some(reg_clase) => {
                let c_metodo = self.constante_texto(nombre.clone())?;
                if c_metodo > 255 {
                    return Err("demasiadas constantes".to_owned());
                }
                self.emitir(OpCode::Metodo, reg_clase, c_metodo as u8, reg_func)
            },
            None => {
                if self.scope_depth == 0 {
                    let c_nombre = self.constante_texto(nombre.clone())?;
                    self.emitir_abx(OpCode::DefinirGlobal, reg_func, c_nombre)
                } else {
                    self.pon_local(nombre.clone(), reg_func)
                }
            },
        }
    }

    /// Compile a whole program.  The emitted code's handler balance is
    /// zero — every pushed handler is popped on the normal path — the
    /// code is never empty and ends in the safety return.  A fresh
    /// compiler always succeeds on the empty program; failures
    /// otherwise come only from unsupported shapes or the stated
    /// machine limits.
    pub fn compile(self, programa: &Programa) -> (r: Result<(Chunk, ObjectTable), String>)
        requires
            self.wf_c(),
            self.balance_s() == 0,
        ensures
            match r {
                Ok(par) => balance_try(par.0.code@) == 0 && par.1.wf() && par.0.code@.len() > 0
                    && campo_op(par.0.code@.last()) == OpCode::Retornar.codigo_s()
                    && forma_valida_sentencias(programa.sentencias@),
                Err(_) => true,
            },
            programa.sentencias@.len() == 0 && self.largo_codigo() < 0xFFFFFFFF ==> r is Ok,
    {
        let mut yo = self;
        let mut i: usize = 0;
        while i < programa.sentencias.len()
            invariant
                yo.wf_c(),
                yo.balance_s() == 0,
                i <= programa.sentencias@.len(),
                programa.sentencias@.len() == 0 ==> yo == self,
                forall|t: int|
                    0 <= t < i ==> forma_valida_sentencia(#[trigger] programa.sentencias@[t]),
            decreases programa.sentencias@.len() - i,
        {
            match yo.compile_statement(&programa.sentencias[i]) {
                Ok(()) => {},
                Err(e) => {
                    return Err(e);
                },
            }
            i = i + 1;
        }
        match yo.emitir(OpCode::Retornar, 0, 0, 0) {
            Ok(()) => {},
            Err(e) => {
                return Err(e);
            },
        }
        Ok((yo.chunk, yo.tabla))
    }

} // impl Compiler

/// Swap the local-variable table out, leaving an empty one.
fn intercambia_locales(l: &mut Vec<(String, Value)>) -> (r: Vec<(String, Value)>)
    ensures
        r == *old(l),
        final(l)@.len() == 0,
{
    let mut nuevo: Vec<(String, Value)> = Vec::new();
    core::mem::swap(l, &mut nuevo);
    nuevo
}


} // verus!
