//! The dispatch loop: call frames, globals, exception unwinding,
//! tiered dispatch into native code, and the instruction handlers.
//!
//! The machine is single-threaded: it owns its register file, frame
//! stack, object table and caches exclusively.  Everything the machine
//! cannot do for itself — run a registered native function, emit text,
//! render a floating-point number, produce or call native code —
//! reaches it through the `Anfitrion` trait, so an embedder supplies
//! those capabilities and the core stays the same.
//!
//! Every register access checks that the base pointer plus the operand
//! stays inside the register file; the program counter never passes
//! the end of the code; the frame stack never exceeds its capacity;
//! and a stale object handle raises an error, never a silent
//! misread.

use vstd::prelude::*;

use crate::arith::{op_binaria, op_unaria, ErrorVm};
use crate::chunk::{
    decodificar_a, decodificar_b, decodificar_bx, decodificar_c, decodificar_op, Chunk, OpCode,
};
use crate::cifras::i64_a_texto;
use crate::inline_cache::InlineCache;
use crate::object::{asoc_busca, asoc_busca_s, asoc_pone, Clase, Instancia, MetodoAtado, Obj, Promesa, EstadoPromesa};
use crate::specialization::{OperationType, SpecializationCache};
use crate::table::ObjectTable;
use crate::value::Value;
use vstd::string::StringExecFns;

verus! {

/// Capacity of the frame stack; exceeding it is a stack overflow.
pub const MAX_FRAMES: usize = 2048;

/// Size of the flat register file.
pub const MAX_REGISTERS: usize = 4096;

/// Calls of one entry point after which native compilation is tried.
pub const UMBRAL_JIT: u32 = 100;

/// Rendering depth for nested lists and dictionaries.
pub const FUEL_TEXTO: u64 = 4;

/// Step budget of one execution: the dispatch loop refuses to run
/// longer, so every run provably ends.
pub const MAX_PASOS: u64 = 0x100000000;

/// One suspended caller: where to resume, its register window, and the
/// register that takes the result.
#[derive(Clone, Copy, PartialEq, Eq, Structural, Debug)]
pub struct CallFrame {
    pub pc: usize,
    pub base_pointer: usize,
    pub return_reg: usize,
}

/// One active catch handler: where to jump and which frame and window
/// to restore, so an unwinding throw also pops the frames entered
/// since the try began.
#[derive(Clone, Copy, PartialEq, Eq, Structural, Debug)]
pub struct TryHandler {
    pub catch_pc: usize,
    pub frame_count: usize,
    pub base_pointer: usize,
}

/// A named bundle of exported values.
#[derive(Debug)]
pub struct Module {
    pub name: String,
    pub exports: Vec<(String, Value)>,
}

/// What the embedder supplies: native functions, output, number
/// rendering, and the native-code backend.  The machine promises
/// nothing about these calls beyond what each signature says; it
/// checks every value they hand back.
pub trait Anfitrion {
    /// Run the registered native function `idx` on `args`.  The
    /// function may allocate or free objects through the table.
    fn llamar_nativa(&mut self, idx: u32, args: Vec<Value>, tabla: &mut ObjectTable) -> (r:
        Result<Value, String>)
        requires
            old(tabla).wf(),
        ensures
            final(tabla).wf(),
    ;

    /// Emit one line of program output.
    fn imprimir(&mut self, texto: &str);

    /// Render the double with the given bits.
    fn formatear_numero(&mut self, bits: u64) -> String;

    /// Combine two doubles under an arithmetic opcode.  Whatever the
    /// embedder computes, the result must be a number word: bits
    /// outside the tag space (a raw NaN is canonicalized).
    fn op_doble(&mut self, op: OpCode, a_bits: u64, b_bits: u64) -> (r: u64)
        ensures
            r & crate::value::QNAN != crate::value::QNAN,
    ;

    /// Order two doubles under a comparison opcode.
    fn comparar_doble(&mut self, op: OpCode, a_bits: u64, b_bits: u64) -> bool;

    /// Compile the function entered at `entry_pc` to native code and
    /// return its address, or report failure with `None`.
    fn jit_compilar(&mut self, chunk: &Chunk, entry_pc: usize, modo_entero: bool) -> Option<usize>;

    /// Call previously produced native code.
    fn jit_llamar(&mut self, direccion: usize, entry_pc: usize, arg0: Value, chunk: &Chunk) -> Value;
}

/// A host with no natives, no native-code backend and no
/// floating-point unit; program output is collected into `salida`.
/// Number words are rendered as their raw bits, and combining doubles
/// yields the canonical undefined number — an embedder supplies the
/// real operations.
pub struct AnfitrionBasico {
    pub salida: Vec<String>,
}

impl AnfitrionBasico {
    pub fn new() -> (r: AnfitrionBasico)
        ensures
            r.salida@.len() == 0,
    {
        AnfitrionBasico { salida: Vec::new() }
    }
}

impl Anfitrion for AnfitrionBasico {
    fn llamar_nativa(&mut self, idx: u32, args: Vec<Value>, tabla: &mut ObjectTable) -> (r: Result<
        Value,
        String,
    >) {
        proof {
            reveal_strlit("funcion nativa no registrada");
        }
        Err("funcion nativa no registrada".to_owned())
    }

    fn imprimir(&mut self, texto: &str) {
        if self.salida.len() < usize::MAX {
            self.salida.push(texto.to_owned());
        }
    }

    fn formatear_numero(&mut self, bits: u64) -> String {
        crate::cifras::u64_a_texto(bits)
    }

    fn op_doble(&mut self, op: OpCode, a_bits: u64, b_bits: u64) -> (r: u64) {
        // Without a floating-point unit every combination reads as the
        // canonical undefined number.
        proof {
            lema_nan_canonico();
        }
        0x7ff8000000000000
    }

    fn comparar_doble(&mut self, op: OpCode, a_bits: u64, b_bits: u64) -> bool {
        false
    }

    fn jit_compilar(&mut self, chunk: &Chunk, entry_pc: usize, modo_entero: bool) -> Option<
        usize,
    > {
        None
    }

    fn jit_llamar(&mut self, direccion: usize, entry_pc: usize, arg0: Value, chunk: &Chunk) -> Value {
        Value::nulo()
    }
}

/// The binary opcodes the arithmetic unit takes.
pub open spec fn es_aritmetica_s(op: OpCode) -> bool {
    op == OpCode::Sumar || op == OpCode::Restar || op == OpCode::Multiplicar || op
        == OpCode::Dividir || op == OpCode::Modulo || op == OpCode::Potencia || op == OpCode::Menor
        || op == OpCode::MenorIgual || op == OpCode::BitAnd || op == OpCode::BitOr || op
        == OpCode::BitXor || op == OpCode::ShiftIzq || op == OpCode::ShiftDer
}

/// The unary opcodes.
pub open spec fn es_unaria_s(op: OpCode) -> bool {
    op == OpCode::Not || op == OpCode::Negativo || op == OpCode::BitNot
}

/// Outcome of one dispatch step: the machine either continues or has
/// delivered the program's result.
#[derive(Debug)]
pub enum Paso {
    Sigue,
    Termina(Value),
}

/// The canonical undefined-number word sits outside the tag space.
proof fn lema_nan_canonico()
    by (bit_vector)
    ensures
        0x7ff8000000000000u64 & 0x7ffc000000000000u64 != 0x7ffc000000000000u64,
{
}

/// The virtual machine.
pub struct VM {
    registers: Vec<Value>,
    frames: Vec<CallFrame>,
    pc: usize,
    base_pointer: usize,
    jit_cache: Vec<(usize, usize)>,
    hotspot_counters: Vec<(usize, u32)>,
    natives_len: usize,
    modules: Vec<Module>,
    last_error: Option<Value>,
    resource_methods: Vec<(String, Value)>,
    metodos_texto: Vec<(String, Value)>,
    metodos_lista: Vec<(String, Value)>,
    globals: Vec<(String, Value)>,
    try_stack: Vec<TryHandler>,
    object_table: ObjectTable,
    pub especializacion: SpecializationCache,
    pub cache_enlinea: InlineCache,
}

impl VM {
    /// The machine's structural soundness: a full register file, a
    /// bounded frame stack, an in-range window, a sound object table,
    /// native indices that fit the value encoding, and handlers whose
    /// saved windows are in range.
    pub closed spec fn wf(self) -> bool {
        &&& self.registers@.len() == MAX_REGISTERS
        &&& self.frames@.len() <= MAX_FRAMES
        &&& self.base_pointer <= MAX_REGISTERS
        &&& self.object_table.wf()
        &&& self.natives_len <= 0x10000
        &&& self.cache_enlinea.wf_ic()
        &&& forall|i: int|
            0 <= i < self.try_stack@.len() ==> (#[trigger] self.try_stack@[i]).base_pointer
                <= MAX_REGISTERS
        &&& forall|i: int|
            0 <= i < self.frames@.len() ==> (#[trigger] self.frames@[i]).base_pointer
                <= MAX_REGISTERS
    }

    pub closed spec fn vista_registros(self) -> Seq<Value> {
        self.registers@
    }

    pub closed spec fn cuenta_marcos(self) -> nat {
        self.frames@.len()
    }

    pub closed spec fn pc_s(self) -> nat {
        self.pc as nat
    }

    pub closed spec fn global_s(self, nombre: Seq<char>) -> Option<Value> {
        asoc_busca_s(self.globals@, nombre)
    }

    /// How many catch handlers are active.
    pub closed spec fn profundidad_try_s(self) -> nat {
        self.try_stack@.len()
    }

    /// The innermost active handler.
    pub closed spec fn cima_try_s(self) -> TryHandler
        recommends
            self.profundidad_try_s() > 0,
    {
        self.try_stack@.last()
    }

    /// The youngest suspended caller.
    pub closed spec fn marco_cima_s(self) -> CallFrame
        recommends
            self.cuenta_marcos() > 0,
    {
        self.frames@.last()
    }

    /// The value parked for `GetError`, if any.
    pub closed spec fn error_pendiente_s(self) -> Option<Value> {
        self.last_error
    }

    pub closed spec fn tabla_s(self) -> ObjectTable {
        self.object_table
    }

    /// How many native-function indices have been reserved.
    pub closed spec fn cuenta_nativas_s(self) -> int {
        self.natives_len as int
    }

    /// The registered modules, in registration order.
    pub closed spec fn modulos_s(self) -> Seq<Module> {
        self.modules@
    }

    /// The method bound to a name for resource receivers.
    pub closed spec fn metodo_recurso_s(self, nombre: Seq<char>) -> Option<Value> {
        asoc_busca_s(self.resource_methods@, nombre)
    }

    /// The method bound to a name for text receivers.
    pub closed spec fn metodo_texto_s(self, nombre: Seq<char>) -> Option<Value> {
        asoc_busca_s(self.metodos_texto@, nombre)
    }

    /// The method bound to a name for list receivers.
    pub closed spec fn metodo_lista_s(self, nombre: Seq<char>) -> Option<Value> {
        asoc_busca_s(self.metodos_lista@, nombre)
    }

    /// A sound machine never holds more than the frame capacity:
    /// exceeding it is reported as a stack overflow instead.
    pub proof fn lema_marcos_acotados(&self)
        requires
            self.wf(),
        ensures
            self.cuenta_marcos() <= MAX_FRAMES,
    {
    }

    /// A sound machine's register file has its full fixed size and the
    /// window base stays inside it, so a checked base-plus-operand
    /// access never leaves the file.
    pub proof fn lema_ventana_acotada(&self)
        requires
            self.wf(),
        ensures
            self.vista_registros().len() == MAX_REGISTERS,
            self.base_pointer_s() <= MAX_REGISTERS as int,
    {
    }

    pub fn new() -> (r: VM)
        ensures
            r.wf(),
            r.cuenta_marcos() == 0,
            r.pc_s() == 0,
            forall|n: Seq<char>| r.global_s(n) is None,
            forall|h: u32| !r.tabla_s().vivo(h),
    {
        let mut registers: Vec<Value> = Vec::new();
        let mut i: usize = 0;
        while i < MAX_REGISTERS
            invariant
                registers@.len() == i,
                i <= MAX_REGISTERS,
            decreases MAX_REGISTERS - i,
        {
            registers.push(Value::nulo());
            i = i + 1;
        }
        VM {
            registers,
            frames: Vec::new(),
            pc: 0,
            base_pointer: 0,
            jit_cache: Vec::new(),
            hotspot_counters: Vec::new(),
            natives_len: 0,
            modules: Vec::new(),
            last_error: None,
            resource_methods: Vec::new(),
            metodos_texto: Vec::new(),
            metodos_lista: Vec::new(),
            globals: Vec::new(),
            try_stack: Vec::new(),
            object_table: ObjectTable::new(),
            especializacion: SpecializationCache::new(),
            cache_enlinea: InlineCache::new(),
        }
    }

    /// Reserve the next native-function index; the embedder keys its
    /// own registry by the returned index.  The index is fresh — the
    /// count before the call — and the count grows by one; once the
    /// value encoding's 16-bit index space is full, reservation
    /// refuses.
    pub fn registrar_nativa(&mut self) -> (r: Result<u32, ErrorVm>)
        requires
            old(self).wf(),
        ensures
            final(self).wf(),
            match r {
                Ok(idx) => old(self).cuenta_nativas_s() < 0x10000 && idx as int == old(self).cuenta_nativas_s() && final(self).cuenta_nativas_s() == old(self).cuenta_nativas_s() + 1,
                Err(_) => old(self).cuenta_nativas_s() == 0x10000 && final(self).cuenta_nativas_s()
                    == old(self).cuenta_nativas_s(),
            },
    {
        if self.natives_len >= 0x10000 {
            return Err(ErrorVm::Desbordamiento);
        }
        let idx = self.natives_len;
        self.natives_len = self.natives_len + 1;
        Ok(idx as u32)
    }

    /// Append a module to the registry (a full registry ignores it).
    pub fn registrar_modulo(&mut self, modulo: Module)
        requires
            old(self).wf(),
        ensures
            final(self).wf(),
            final(self).modulos_s() == if old(self).modulos_s().len() < usize::MAX {
                old(self).modulos_s().push(modulo)
            } else {
                old(self).modulos_s()
            },
    {
        if self.modules.len() < usize::MAX {
            self.modules.push(modulo);
        }
    }

    /// Bind a method name for resource receivers.
    pub fn registrar_metodo_recurso(&mut self, nombre: String, valor: Value)
        requires
            old(self).wf(),
        ensures
            final(self).wf(),
            final(self).metodo_recurso_s(nombre@) == Some(valor) || old(self).recurso_llenos(),
            forall|n2: Seq<char>|
                n2 != nombre@ ==> #[trigger] final(self).metodo_recurso_s(n2) == old(self).metodo_recurso_s(n2) || old(self).recurso_llenos(),
    {
        if self.resource_methods.len() < usize::MAX {
            asoc_pone(&mut self.resource_methods, nombre, valor);
        }
    }

    /// Bind a method name for text receivers.
    pub fn registrar_metodo_texto(&mut self, nombre: String, valor: Value)
        requires
            old(self).wf(),
        ensures
            final(self).wf(),
            final(self).metodo_texto_s(nombre@) == Some(valor) || old(self).texto_llenos(),
            forall|n2: Seq<char>|
                n2 != nombre@ ==> #[trigger] final(self).metodo_texto_s(n2) == old(self).metodo_texto_s(n2) || old(self).texto_llenos(),
    {
        if self.metodos_texto.len() < usize::MAX {
            asoc_pone(&mut self.metodos_texto, nombre, valor);
        }
    }

    /// Bind a method name for list receivers.
    pub fn registrar_metodo_lista(&mut self, nombre: String, valor: Value)
        requires
            old(self).wf(),
        ensures
            final(self).wf(),
            final(self).metodo_lista_s(nombre@) == Some(valor) || old(self).lista_llenos(),
            forall|n2: Seq<char>|
                n2 != nombre@ ==> #[trigger] final(self).metodo_lista_s(n2) == old(self).metodo_lista_s(n2) || old(self).lista_llenos(),
    {
        if self.metodos_lista.len() < usize::MAX {
            asoc_pone(&mut self.metodos_lista, nombre, valor);
        }
    }

    /// Bind a global by name.
    pub fn definir_global(&mut self, nombre: String, valor: Value)
        requires
            old(self).wf(),
        ensures
            final(self).wf(),
            final(self).global_s(nombre@) == Some(valor) || old(self).globals_llenos(),
            forall|n2: Seq<char>|
                n2 != nombre@ ==> #[trigger] final(self).global_s(n2) == old(self).global_s(n2)
                    || old(self).globals_llenos(),
    {
        if self.globals.len() < usize::MAX {
            asoc_pone(&mut self.globals, nombre, valor);
        }
    }

    pub closed spec fn globals_llenos(self) -> bool {
        self.globals@.len() >= usize::MAX
    }

    pub closed spec fn recurso_llenos(self) -> bool {
        self.resource_methods@.len() >= usize::MAX
    }

    pub closed spec fn texto_llenos(self) -> bool {
        self.metodos_texto@.len() >= usize::MAX
    }

    pub closed spec fn lista_llenos(self) -> bool {
        self.metodos_lista@.len() >= usize::MAX
    }

    /// Read a global by name.
    pub fn global(&self, nombre: &String) -> (r: Option<Value>)
        ensures
            r == self.global_s(nombre@),
    {
        asoc_busca(&self.globals, nombre)
    }

    /// Place an object and box its handle.
    pub fn alloc_object(&mut self, obj: Obj) -> (r: Result<Value, ErrorVm>)
        requires
            old(self).wf(),
        ensures
            final(self).wf(),
            final(self).pc_s() == old(self).pc_s(),
            final(self).base_pointer_s() == old(self).base_pointer_s(),
            final(self).vista_registros() == old(self).vista_registros(),
            final(self).cuenta_marcos() == old(self).cuenta_marcos(),
            forall|n: Seq<char>| #[trigger] final(self).global_s(n) == old(self).global_s(n),
            forall|h2: u32|
                old(self).tabla_s().vivo(h2) ==> #[trigger] final(self).tabla_s().vivo(h2)
                    && final(self).tabla_s().objeto_en(h2) == old(self).tabla_s().objeto_en(h2),
            match r {
                Ok(v) => v.es_objeto_s() && final(self).tabla_s().vivo(v.carga_handle()) && final(self).tabla_s().objeto_en(v.carga_handle()) == obj,
                Err(e) => e == ErrorVm::MemoriaAgotada && final(self).tabla_s() == old(self).tabla_s(),
            },
    {
        if !self.object_table.espacio() {
            return Err(ErrorVm::MemoriaAgotada);
        }
        let h = self.object_table.alojar(obj);
        Ok(Value::from_handle(h))
    }

    /// Read the object a boxed handle refers to.
    pub fn get_object(&self, v: Value) -> (r: Option<&Obj>)
        requires
            self.wf(),
        ensures
            match r {
                Some(o) => v.es_objeto_s() && self.tabla_s().vivo(v.carga_handle()) && *o
                    == self.tabla_s().objeto_en(v.carga_handle()),
                None => !v.es_objeto_s() || !self.tabla_s().vivo(v.carga_handle()),
            },
    {
        if !v.es_objeto() {
            return None;
        }
        self.object_table.get(v.a_handle())
    }

    /// Allocate a text object.
    pub fn alloc_texto(&mut self, s: String) -> (r: Result<Value, ErrorVm>)
        requires
            old(self).wf(),
        ensures
            final(self).wf(),
            final(self).pc_s() == old(self).pc_s(),
            final(self).base_pointer_s() == old(self).base_pointer_s(),
            final(self).vista_registros() == old(self).vista_registros(),
            match r {
                Ok(v) => v.es_objeto_s() && final(self).tabla_s().vivo(v.carga_handle()) && final(self).tabla_s().objeto_en(v.carga_handle()) == Obj::Texto(s),
                Err(e) => e == ErrorVm::MemoriaAgotada,
            },
    {
        self.alloc_object(Obj::Texto(s))
    }

    /// Allocate a list object.
    pub fn alloc_lista(&mut self, items: Vec<Value>) -> (r: Result<Value, ErrorVm>)
        requires
            old(self).wf(),
        ensures
            final(self).wf(),
            final(self).pc_s() == old(self).pc_s(),
            final(self).base_pointer_s() == old(self).base_pointer_s(),
            final(self).vista_registros() == old(self).vista_registros(),
            match r {
                Ok(v) => v.es_objeto_s() && final(self).tabla_s().vivo(v.carga_handle()) && final(self).tabla_s().objeto_en(v.carga_handle()) == Obj::Lista(items),
                Err(e) => e == ErrorVm::MemoriaAgotada,
            },
    {
        self.alloc_object(Obj::Lista(items))
    }

    /// Allocate a dictionary object.
    pub fn alloc_diccionario(&mut self, entradas: Vec<(String, Value)>) -> (r: Result<
        Value,
        ErrorVm,
    >)
        requires
            old(self).wf(),
        ensures
            final(self).wf(),
            final(self).pc_s() == old(self).pc_s(),
            final(self).base_pointer_s() == old(self).base_pointer_s(),
            final(self).vista_registros() == old(self).vista_registros(),
            match r {
                Ok(v) => v.es_objeto_s() && final(self).tabla_s().vivo(v.carga_handle()) && final(self).tabla_s().objeto_en(v.carga_handle()) == Obj::Diccionario(entradas),
                Err(e) => e == ErrorVm::MemoriaAgotada,
            },
    {
        self.alloc_object(Obj::Diccionario(entradas))
    }

    /// Read a register of the current window.
    pub fn leer_registro(&self, i: usize) -> (r: Option<Value>)
        requires
            self.wf(),
        ensures
            match r {
                Some(v) => i < MAX_REGISTERS && v == self.vista_registros()[i as int],
                None => i >= MAX_REGISTERS,
            },
    {
        if i < self.registers.len() {
            Some(self.registers[i])
        } else {
            None
        }
    }

    /// Write a register of the file directly; embedders use this to
    /// seed a spawned machine's arguments.
    pub fn poner_registro(&mut self, i: usize, v: Value) -> (r: bool)
        requires
            old(self).wf(),
        ensures
            final(self).wf(),
            r == (i < MAX_REGISTERS),
            r ==> final(self).vista_registros() == old(self).vista_registros().update(i as int, v),
    {
        if i < self.registers.len() {
            self.registers[i] = v;
            true
        } else {
            false
        }
    }

    /// A borrow of the object table, for embedders that move state to
    /// a fresh machine.
    pub fn tabla(&self) -> &ObjectTable {
        &self.object_table
    }

    /// Hand the machine an object table (typically a copy of another
    /// machine's, so shared constants resolve).
    pub fn instalar_tabla(&mut self, tabla: ObjectTable)
        requires
            old(self).wf(),
            tabla.wf(),
        ensures
            final(self).wf(),
            final(self).tabla_s() == tabla,
            final(self).pc_s() == old(self).pc_s(),
            final(self).vista_registros() == old(self).vista_registros(),
            forall|n: Seq<char>| #[trigger] final(self).global_s(n) == old(self).global_s(n),
    {
        self.object_table = tabla;
    }

    /// The text a constant names, when the constant is a live text
    /// object.
    pub closed spec fn nombre_constante_s(self, constantes: Seq<Value>, idx: int) -> Option<
        Seq<char>,
    > {
        if 0 <= idx < constantes.len() && constantes[idx].es_objeto_s() && self.tabla_s().vivo(
            constantes[idx].carga_handle(),
        ) {
            match self.tabla_s().objeto_en(constantes[idx].carga_handle()) {
                Obj::Texto(t) => Some(t@),
                _ => None,
            }
        } else {
            None
        }
    }

    /// Copy a text constant out of the pool.
    fn texto_constante(&self, chunk: &Chunk, idx: usize) -> (r: Result<String, ErrorVm>)
        requires
            self.wf(),
        ensures
            match r {
                Ok(s) => self.nombre_constante_s(chunk.constants@, idx as int) == Some(s@),
                Err(_) => self.nombre_constante_s(chunk.constants@, idx as int) is None,
            },
    {
        if idx >= chunk.constants.len() {
            return Err(ErrorVm::ConstanteFueraDeRango);
        }
        let v = chunk.constants[idx];
        if !v.es_objeto() {
            return Err(ErrorVm::ClaveInvalida);
        }
        match self.object_table.get(v.a_handle()) {
            Some(o) => match o {
                Obj::Texto(s) => Ok(s.clone()),
                _ => Err(ErrorVm::ClaveInvalida),
            },
            None => Err(ErrorVm::HandleInvalido),
        }
    }

    /// Load a constant into a register, bit for bit.
    fn op_cargar_constante(&mut self, chunk: &Chunk, a: usize, bx: usize) -> (r: Result<
        (),
        ErrorVm,
    >)
        requires
            a <= 0xFF,
            old(self).wf(),
        ensures
            final(self).wf(),
            final(self).pc_s() == old(self).pc_s(),
            final(self).base_pointer_s() == old(self).base_pointer_s(),
            match r {
                Ok(()) => bx < chunk.constants@.len() && old(self).base_pointer_s() + a
                    < MAX_REGISTERS && final(self).vista_registros() == old(self).vista_registros().update(
                    old(self).base_pointer_s() + a,
                    chunk.constants@[bx as int],
                ),
                Err(e) => final(self).vista_registros() == old(self).vista_registros() && (old(self).base_pointer_s() + a >= MAX_REGISTERS || bx >= chunk.constants@.len()),
            },
    {
        let ra = self.base_pointer + a;
        if ra >= self.registers.len() {
            return Err(ErrorVm::RegistroFueraDeRango);
        }
        if bx >= chunk.constants.len() {
            return Err(ErrorVm::ConstanteFueraDeRango);
        }
        self.registers[ra] = chunk.constants[bx];
        Ok(())
    }

    pub closed spec fn base_pointer_s(self) -> int {
        self.base_pointer as int
    }

    /// Copy one register into another.
    fn op_mover(&mut self, a: usize, b: usize) -> (r: Result<(), ErrorVm>)
        requires
            a <= 0xFF,
            b <= 0xFF,
            old(self).wf(),
        ensures
            final(self).wf(),
            final(self).pc_s() == old(self).pc_s(),
            final(self).base_pointer_s() == old(self).base_pointer_s(),
            match r {
                Ok(()) => old(self).base_pointer_s() + a < MAX_REGISTERS && old(self).base_pointer_s() + b < MAX_REGISTERS && final(self).vista_registros() == old(self).vista_registros().update(
                    old(self).base_pointer_s() + a,
                    old(self).vista_registros()[old(self).base_pointer_s() + b],
                ),
                Err(e) => final(self).vista_registros() == old(self).vista_registros() && (old(self).base_pointer_s() + a >= MAX_REGISTERS || old(self).base_pointer_s() + b >= MAX_REGISTERS),
            },
    {
        let ra = self.base_pointer + a;
        let rb = self.base_pointer + b;
        if ra >= self.registers.len() || rb >= self.registers.len() {
            return Err(ErrorVm::RegistroFueraDeRango);
        }
        let v = self.registers[rb];
        self.registers[ra] = v;
        Ok(())
    }

    /// Run an integer binary opcode on two registers, recording type
    /// feedback for the specialization cache.
    /// Run a binary opcode on two registers, recording type feedback.
    /// Integer operands follow `op_binaria_s` exactly; two numeric
    /// operands that are not both integers widen to doubles and go to
    /// the host, a comparison yielding a boolean and an arithmetic
    /// opcode a number word — with division and modulo by a zero
    /// double unwinding like their integer counterparts.
    fn op_aritmetica<A: Anfitrion>(
        &mut self,
        anfitrion: &mut A,
        op: OpCode,
        pc_op: usize,
        a: usize,
        b: usize,
        c: usize,
    ) -> (r: Result<(), ErrorVm>)
        requires
            a <= 0xFF,
            b <= 0xFF,
            c <= 0xFF,
            old(self).wf(),
        ensures
            final(self).wf(),
            final(self).pc_s() == old(self).pc_s(),
            final(self).base_pointer_s() == old(self).base_pointer_s(),
            match r {
                Ok(()) => {
                    let base = old(self).base_pointer_s();
                    let v1 = old(self).vista_registros()[base + b];
                    let v2 = old(self).vista_registros()[base + c];
                    let res = final(self).vista_registros()[base + a];
                    &&& base + a < MAX_REGISTERS
                    &&& base + b < MAX_REGISTERS
                    &&& base + c < MAX_REGISTERS
                    &&& final(self).vista_registros() == old(self).vista_registros().update(
                        base + a,
                        res,
                    )
                    &&& if v1.es_entero_s() && v2.es_entero_s() {
                        crate::arith::op_binaria_s(op, v1, v2) == Ok::<Value, ErrorVm>(res)
                    } else {
                        &&& v1.es_numero_s()
                        &&& v2.es_numero_s()
                        &&& (op == OpCode::Menor || op == OpCode::MenorIgual)
                            ==> res.es_logico_s()
                        &&& !(op == OpCode::Menor || op == OpCode::MenorIgual)
                            ==> res.es_numero_s() && !res.es_entero_s()
                    }
                },
                Err(e) => final(self).vista_registros() == old(self).vista_registros() && ({
                    let base = old(self).base_pointer_s();
                    base + a < MAX_REGISTERS && base + b < MAX_REGISTERS && base + c
                        < MAX_REGISTERS ==> ({
                        let v1 = old(self).vista_registros()[base + b];
                        let v2 = old(self).vista_registros()[base + c];
                        v1.es_entero_s() && v2.es_entero_s() ==> crate::arith::op_binaria_s(
                            op,
                            v1,
                            v2,
                        ) == Err::<Value, ErrorVm>(e)
                    })
                }),
            },
    {
        let ra = self.base_pointer + a;
        let rb = self.base_pointer + b;
        let rc = self.base_pointer + c;
        if ra >= self.registers.len() || rb >= self.registers.len() || rc >= self.registers.len() {
            return Err(ErrorVm::RegistroFueraDeRango);
        }
        let v1 = self.registers[rb];
        let v2 = self.registers[rc];
        let tipo_op = match op {
            OpCode::Sumar => Some(OperationType::Add),
            OpCode::Restar => Some(OperationType::Sub),
            OpCode::Multiplicar => Some(OperationType::Mul),
            OpCode::Dividir => Some(OperationType::Div),
            OpCode::Menor => Some(OperationType::Less),
            OpCode::MenorIgual => Some(OperationType::LessEq),
            _ => None,
        };
        match tipo_op {
            Some(t) => {
                if self.especializacion.largo() < usize::MAX {
                    let _ = self.especializacion.record(pc_op, t, v1, v2);
                }
            },
            None => {},
        }
        if v1.es_entero() && v2.es_entero() {
            match op_binaria(op, v1, v2) {
                Ok(v) => {
                    self.registers[ra] = v;
                    Ok(())
                },
                Err(e) => Err(e),
            }
        } else if v1.es_numero() && v2.es_numero() {
            let wa = v1.a_numero_bits();
            let wb = v2.a_numero_bits();
            match op {
                OpCode::Menor => {
                    let v = Value::logico(anfitrion.comparar_doble(op, wa, wb));
                    self.registers[ra] = v;
                    Ok(())
                },
                OpCode::MenorIgual => {
                    let v = Value::logico(anfitrion.comparar_doble(op, wa, wb));
                    self.registers[ra] = v;
                    Ok(())
                },
                OpCode::Sumar | OpCode::Restar | OpCode::Multiplicar | OpCode::Dividir
                    | OpCode::Modulo | OpCode::Potencia => {
                    if (match op {
                        OpCode::Dividir => true,
                        OpCode::Modulo => true,
                        _ => false,
                    }) && (wb == 0 || wb == crate::value::SIGN_BIT) {
                        return Err(ErrorVm::DivisionPorCero);
                    }
                    let bits = anfitrion.op_doble(op, wa, wb);
                    let v = Value::numero_bits(bits);
                    self.registers[ra] = v;
                    Ok(())
                },
                _ => Err(ErrorVm::TiposIncompatibles),
            }
        } else {
            Err(ErrorVm::TiposIncompatibles)
        }
    }

    /// Add two texts: the destination register gets a fresh live text
    /// object holding exactly the concatenation of the operands.
    fn op_sumar_textos(&mut self, a: usize, b: usize, c: usize) -> (r: Result<(), ErrorVm>)
        requires
            a <= 0xFF,
            b <= 0xFF,
            c <= 0xFF,
            old(self).wf(),
        ensures
            final(self).wf(),
            final(self).pc_s() == old(self).pc_s(),
            final(self).base_pointer_s() == old(self).base_pointer_s(),
            match r {
                Ok(()) => ({
                    let base = old(self).base_pointer_s();
                    let ov1 = old(self).vista_registros()[base + b];
                    let ov2 = old(self).vista_registros()[base + c];
                    let res = final(self).vista_registros()[base + a];
                    &&& base + a < MAX_REGISTERS
                    &&& base + b < MAX_REGISTERS
                    &&& base + c < MAX_REGISTERS
                    &&& ov1.es_objeto_s()
                    &&& ov2.es_objeto_s()
                    &&& old(self).tabla_s().vivo(ov1.carga_handle())
                    &&& old(self).tabla_s().vivo(ov2.carga_handle())
                    &&& (old(self).tabla_s().objeto_en(ov1.carga_handle()) matches Obj::Texto(t1)
                        && old(self).tabla_s().objeto_en(ov2.carga_handle()) matches Obj::Texto(t2)
                        && res.es_objeto_s() && final(self).tabla_s().vivo(res.carga_handle()) && (
                    final(self).tabla_s().objeto_en(res.carga_handle()) matches Obj::Texto(t) && t@
                        == t1@ + t2@) && final(self).vista_registros() == old(self).vista_registros().update(base + a, res))
                }),
                Err(_) => final(self).vista_registros() == old(self).vista_registros(),
            },
    {
        let ra = self.base_pointer + a;
        let rb = self.base_pointer + b;
        let rc = self.base_pointer + c;
        if ra >= self.registers.len() || rb >= self.registers.len() || rc >= self.registers.len() {
            return Err(ErrorVm::RegistroFueraDeRango);
        }
        let v1 = self.registers[rb];
        let v2 = self.registers[rc];
        if !v1.es_objeto() || !v2.es_objeto() {
            return Err(ErrorVm::TiposIncompatibles);
        }
        let mut nuevo: String;
        match self.object_table.get(v1.a_handle()) {
            Some(o) => match o {
                Obj::Texto(s1) => {
                    nuevo = s1.clone();
                },
                _ => {
                    return Err(ErrorVm::TiposIncompatibles);
                },
            },
            None => {
                return Err(ErrorVm::HandleInvalido);
            },
        }
        match self.object_table.get(v2.a_handle()) {
            Some(o) => match o {
                Obj::Texto(s2) => {
                    nuevo.append(s2.as_str());
                },
                _ => {
                    return Err(ErrorVm::TiposIncompatibles);
                },
            },
            None => {
                return Err(ErrorVm::HandleInvalido);
            },
        }
        match self.alloc_object(Obj::Texto(nuevo)) {
            Ok(v) => {
                self.registers[ra] = v;
                Ok(())
            },
            Err(e) => Err(e),
        }
    }

    /// Bitwise identity: primitives compare by bits, objects by handle.
    fn op_igual(&mut self, a: usize, b: usize, c: usize) -> (r: Result<(), ErrorVm>)
        requires
            a <= 0xFF,
            b <= 0xFF,
            c <= 0xFF,
            old(self).wf(),
        ensures
            final(self).wf(),
            final(self).pc_s() == old(self).pc_s(),
            final(self).base_pointer_s() == old(self).base_pointer_s(),
            match r {
                Ok(()) => {
                    let base = old(self).base_pointer_s();
                    &&& base + a < MAX_REGISTERS
                    &&& base + b < MAX_REGISTERS
                    &&& base + c < MAX_REGISTERS
                    &&& final(self).vista_registros() == old(self).vista_registros().update(
                        base + a,
                        Value::logico_s(
                            old(self).vista_registros()[base + b].0 == old(self).vista_registros()[base + c].0,
                        ),
                    )
                },
                Err(e) => final(self).vista_registros() == old(self).vista_registros() && (old(self).base_pointer_s() + a >= MAX_REGISTERS || old(self).base_pointer_s() + b >= MAX_REGISTERS || old(self).base_pointer_s() + c >= MAX_REGISTERS),
            },
    {
        let ra = self.base_pointer + a;
        let rb = self.base_pointer + b;
        let rc = self.base_pointer + c;
        if ra >= self.registers.len() || rb >= self.registers.len() || rc >= self.registers.len() {
            return Err(ErrorVm::RegistroFueraDeRango);
        }
        let v1 = self.registers[rb];
        let v2 = self.registers[rc];
        self.registers[ra] = Value::logico(v1.0 == v2.0);
        Ok(())
    }

    /// Run a unary opcode.
    fn op_unaria_en(&mut self, op: OpCode, a: usize, b: usize) -> (r: Result<(), ErrorVm>)
        requires
            a <= 0xFF,
            b <= 0xFF,
            old(self).wf(),
        ensures
            final(self).wf(),
            final(self).pc_s() == old(self).pc_s(),
            final(self).base_pointer_s() == old(self).base_pointer_s(),
            match r {
                Ok(()) => {
                    let base = old(self).base_pointer_s();
                    &&& base + a < MAX_REGISTERS
                    &&& base + b < MAX_REGISTERS
                    &&& crate::arith::op_unaria_s(op, old(self).vista_registros()[base + b])
                        matches Ok(v) && final(self).vista_registros() == old(self).vista_registros().update(base + a, v)
                },
                Err(e) => final(self).vista_registros() == old(self).vista_registros() && ({
                    let base = old(self).base_pointer_s();
                    base + a >= MAX_REGISTERS || base + b >= MAX_REGISTERS
                        || crate::arith::op_unaria_s(op, old(self).vista_registros()[base + b])
                        == Err::<Value, ErrorVm>(e)
                }),
            },
    {
        let ra = self.base_pointer + a;
        let rb = self.base_pointer + b;
        if ra >= self.registers.len() || rb >= self.registers.len() {
            return Err(ErrorVm::RegistroFueraDeRango);
        }
        let v = self.registers[rb];
        match op_unaria(op, v) {
            Ok(res) => {
                self.registers[ra] = res;
                Ok(())
            },
            Err(e) => Err(e),
        }
    }

    /// Read a global by the name held in a constant: on success the
    /// destination register gets exactly the bound value; a miss
    /// reports an undefined global.
    fn op_obtener_global(&mut self, chunk: &Chunk, a: usize, bx: usize) -> (r: Result<(), ErrorVm>)
        requires
            a <= 0xFF,
            old(self).wf(),
        ensures
            final(self).wf(),
            final(self).pc_s() == old(self).pc_s(),
            final(self).base_pointer_s() == old(self).base_pointer_s(),
            match r {
                Ok(()) => old(self).base_pointer_s() + a < MAX_REGISTERS && (old(self).nombre_constante_s(chunk.constants@, bx as int) matches Some(n) && old(self).global_s(n) matches Some(v) && final(self).vista_registros() == old(self).vista_registros().update(old(self).base_pointer_s() + a, v)),
                Err(e) => final(self).vista_registros() == old(self).vista_registros() && (
                old(self).nombre_constante_s(chunk.constants@, bx as int) matches Some(n) ==> (e
                    == ErrorVm::RegistroFueraDeRango || old(self).global_s(n) is None)),
            },
    {
        let nombre = match self.texto_constante(chunk, bx) {
            Ok(n) => n,
            Err(e) => {
                return Err(e);
            },
        };
        let ra = self.base_pointer + a;
        if ra >= self.registers.len() {
            return Err(ErrorVm::RegistroFueraDeRango);
        }
        match asoc_busca(&self.globals, &nombre) {
            Some(v) => {
                self.registers[ra] = v;
                Ok(())
            },
            None => Err(ErrorVm::GlobalNoDefinida(nombre)),
        }
    }

    /// Bind a global to the value of a register: afterwards exactly
    /// that name reads as the register's value, every other name as
    /// before.
    fn op_definir_global(&mut self, chunk: &Chunk, a: usize, bx: usize) -> (r: Result<(), ErrorVm>)
        requires
            a <= 0xFF,
            old(self).wf(),
        ensures
            final(self).wf(),
            final(self).pc_s() == old(self).pc_s(),
            final(self).base_pointer_s() == old(self).base_pointer_s(),
            final(self).vista_registros() == old(self).vista_registros(),
            match r {
                Ok(()) => old(self).base_pointer_s() + a < MAX_REGISTERS && (old(self).nombre_constante_s(chunk.constants@, bx as int) matches Some(n) && forall|
                    n2: Seq<char>,
                |
                    #[trigger] final(self).global_s(n2) == if n2 == n {
                        Some(
                            old(self).vista_registros()[old(self).base_pointer_s() + a],
                        )
                    } else {
                        old(self).global_s(n2)
                    }),
                Err(e) => forall|n2: Seq<char>|
                    #[trigger] final(self).global_s(n2) == old(self).global_s(n2),
            },
    {
        let nombre = match self.texto_constante(chunk, bx) {
            Ok(n) => n,
            Err(e) => {
                return Err(e);
            },
        };
        let ra = self.base_pointer + a;
        if ra >= self.registers.len() {
            return Err(ErrorVm::RegistroFueraDeRango);
        }
        if self.globals.len() >= usize::MAX {
            return Err(ErrorVm::MemoriaAgotada);
        }
        let v = self.registers[ra];
        asoc_pone(&mut self.globals, nombre, v);
        Ok(())
    }

    /// Gather `cuenta` consecutive registers into a fresh list object:
    /// the destination register gets a live list holding exactly that
    /// register window.
    fn op_crear_lista(&mut self, a: usize, b: usize, cuenta: usize) -> (r: Result<(), ErrorVm>)
        requires
            a <= 0xFF,
            b <= 0xFF,
            old(self).wf(),
            cuenta <= 255,
        ensures
            final(self).wf(),
            final(self).pc_s() == old(self).pc_s(),
            final(self).base_pointer_s() == old(self).base_pointer_s(),
            match r {
                Ok(()) => ({
                    let base = old(self).base_pointer_s();
                    let res = final(self).vista_registros()[base + a];
                    &&& base + a < MAX_REGISTERS
                    &&& base + b + cuenta <= MAX_REGISTERS
                    &&& res.es_objeto_s()
                    &&& final(self).tabla_s().vivo(res.carga_handle())
                    &&& (final(self).tabla_s().objeto_en(res.carga_handle()) matches Obj::Lista(l)
                        && l@ == old(self).vista_registros().subrange(
                        base + b,
                        base + b + cuenta,
                    ))
                    &&& final(self).vista_registros() == old(self).vista_registros().update(
                        base + a,
                        res,
                    )
                }),
                Err(_) => final(self).vista_registros() == old(self).vista_registros(),
            },
    {
        let ra = self.base_pointer + a;
        let inicio = self.base_pointer + b;
        if ra >= self.registers.len() || inicio + cuenta > self.registers.len() {
            return Err(ErrorVm::RegistroFueraDeRango);
        }
        let mut items: Vec<Value> = Vec::new();
        let mut i: usize = 0;
        while i < cuenta
            invariant
                self == old(self),
                self.wf(),
                i <= cuenta,
                inicio == self.base_pointer_s() + b,
                inicio + cuenta <= self.vista_registros().len(),
                items@ == self.vista_registros().subrange(inicio as int, inicio + i),
            decreases cuenta - i,
        {
            items.push(self.registers[inicio + i]);
            proof {
                assert(items@ =~= self.vista_registros().subrange(inicio as int, inicio + i + 1));
            }
            i = i + 1;
        }
        match self.alloc_object(Obj::Lista(items)) {
            Ok(v) => {
                self.registers[ra] = v;
                Ok(())
            },
            Err(e) => Err(e),
        }
    }

    /// Gather `cuenta` key-value register pairs into a fresh
    /// dictionary; keys must be texts.
    fn op_crear_diccionario(&mut self, a: usize, b: usize, cuenta: usize) -> (r: Result<
        (),
        ErrorVm,
    >)
        requires
            a <= 0xFF,
            b <= 0xFF,
            old(self).wf(),
            cuenta <= 255,
        ensures
            final(self).wf(),
            final(self).pc_s() == old(self).pc_s(),
            final(self).base_pointer_s() == old(self).base_pointer_s(),
    {
        let ra = self.base_pointer + a;
        let inicio = self.base_pointer + b;
        if ra >= self.registers.len() || inicio + cuenta * 2 > self.registers.len() {
            return Err(ErrorVm::RegistroFueraDeRango);
        }
        let mut entradas: Vec<(String, Value)> = Vec::new();
        let mut i: usize = 0;
        while i < cuenta
            invariant
                self == old(self),
                self.wf(),
                i <= cuenta,
                cuenta <= 255,
                entradas@.len() <= i,
                inicio + cuenta * 2 <= self.vista_registros().len(),
            decreases cuenta - i,
        {
            let clave_v = self.registers[inicio + i * 2];
            let valor = self.registers[inicio + i * 2 + 1];
            if !clave_v.es_objeto() {
                return Err(ErrorVm::ClaveInvalida);
            }
            let clave: String;
            match self.object_table.get(clave_v.a_handle()) {
                Some(o) => match o {
                    Obj::Texto(s) => {
                        clave = s.clone();
                    },
                    _ => {
                        return Err(ErrorVm::ClaveInvalida);
                    },
                },
                None => {
                    return Err(ErrorVm::HandleInvalido);
                },
            }
            asoc_pone(&mut entradas, clave, valor);
            i = i + 1;
        }
        match self.alloc_object(Obj::Diccionario(entradas)) {
            Ok(v) => {
                self.registers[ra] = v;
                Ok(())
            },
            Err(e) => Err(e),
        }
    }

    /// Indexed read: a list yields the element at an in-range integer
    /// index, a dictionary the value bound to a text key — a missing
    /// key reads as nil.  Anything else is an error, and then nothing
    /// moves.
    fn op_acceder_indice(&mut self, a: usize, b: usize, c: usize) -> (r: Result<(), ErrorVm>)
        requires
            a <= 0xFF,
            b <= 0xFF,
            c <= 0xFF,
            old(self).wf(),
        ensures
            final(self).wf(),
            final(self).pc_s() == old(self).pc_s(),
            final(self).base_pointer_s() == old(self).base_pointer_s(),
            match r {
                Ok(()) => ({
                    let base = old(self).base_pointer_s();
                    let ov = old(self).vista_registros()[base + b];
                    let iv = old(self).vista_registros()[base + c];
                    &&& base + a < MAX_REGISTERS
                    &&& base + b < MAX_REGISTERS
                    &&& base + c < MAX_REGISTERS
                    &&& ov.es_objeto_s()
                    &&& old(self).tabla_s().vivo(ov.carga_handle())
                    &&& match old(self).tabla_s().objeto_en(ov.carga_handle()) {
                        Obj::Lista(l) => iv.es_entero_s() && 0 <= iv.carga_entera() < l@.len()
                            && final(self).vista_registros() == old(self).vista_registros().update(base + a, l@[iv.carga_entera() as int]),
                        Obj::Diccionario(d) => iv.es_objeto_s() && old(self).tabla_s().vivo(
                            iv.carga_handle(),
                        ) && (old(self).tabla_s().objeto_en(iv.carga_handle()) matches Obj::Texto(
                            t,
                        ) && final(self).vista_registros() == old(self).vista_registros().update(
                            base + a,
                            match asoc_busca_s(d@, t@) {
                                Some(v) => v,
                                None => Value::nulo_s(),
                            },
                        )),
                        _ => false,
                    }
                }),
                Err(_) => final(self).vista_registros() == old(self).vista_registros(),
            },
    {
        let ra = self.base_pointer + a;
        let rb = self.base_pointer + b;
        let rc = self.base_pointer + c;
        if ra >= self.registers.len() || rb >= self.registers.len() || rc >= self.registers.len() {
            return Err(ErrorVm::RegistroFueraDeRango);
        }
        let obj_val = self.registers[rb];
        let idx_val = self.registers[rc];
        if !obj_val.es_objeto() {
            return Err(ErrorVm::NoIndexable);
        }
        let resultado: Value;
        match self.object_table.get(obj_val.a_handle()) {
            Some(o) => match o {
                Obj::Lista(l) => {
                    if !idx_val.es_entero() {
                        return Err(ErrorVm::IndiceInvalido);
                    }
                    let idx = idx_val.a_entero();
                    if idx < 0 || idx as usize >= l.len() {
                        return Err(ErrorVm::FueraDeRango);
                    }
                    resultado = l[idx as usize];
                },
                Obj::Diccionario(d) => {
                    if !idx_val.es_objeto() {
                        return Err(ErrorVm::ClaveInvalida);
                    }
                    match self.object_table.get(idx_val.a_handle()) {
                        Some(ko) => match ko {
                            Obj::Texto(s) => {
                                match asoc_busca(d, s) {
                                    Some(v) => {
                                        resultado = v;
                                    },
                                    None => {
                                        resultado = Value::nulo();
                                    },
                                }
                            },
                            _ => {
                                return Err(ErrorVm::ClaveInvalida);
                            },
                        },
                        None => {
                            return Err(ErrorVm::HandleInvalido);
                        },
                    }
                },
                _ => {
                    return Err(ErrorVm::NoIndexable);
                },
            },
            None => {
                return Err(ErrorVm::HandleInvalido);
            },
        }
        self.registers[ra] = resultado;
        Ok(())
    }

    /// Indexed write: the object is taken out, updated and put back.
    fn op_asignar_indice(&mut self, a: usize, b: usize, c: usize) -> (r: Result<(), ErrorVm>)
        requires
            a <= 0xFF,
            b <= 0xFF,
            c <= 0xFF,
            old(self).wf(),
        ensures
            final(self).wf(),
            final(self).pc_s() == old(self).pc_s(),
            final(self).base_pointer_s() == old(self).base_pointer_s(),
    {
        let ra = self.base_pointer + a;
        let rb = self.base_pointer + b;
        let rc = self.base_pointer + c;
        if ra >= self.registers.len() || rb >= self.registers.len() || rc >= self.registers.len() {
            return Err(ErrorVm::RegistroFueraDeRango);
        }
        let obj_val = self.registers[ra];
        let idx_val = self.registers[rb];
        let valor = self.registers[rc];
        if !obj_val.es_objeto() {
            return Err(ErrorVm::NoIndexable);
        }
        let h = obj_val.a_handle();
        let sacado = self.object_table.toma_reemplaza(h, Obj::Texto(String::new()));
        match sacado {
            Some(o) => match o {
                Obj::Lista(mut l) => {
                    if !idx_val.es_entero() {
                        let _ = self.object_table.reemplaza(h, Obj::Lista(l));
                        return Err(ErrorVm::IndiceInvalido);
                    }
                    let idx = idx_val.a_entero();
                    if idx < 0 || idx as usize >= l.len() {
                        let _ = self.object_table.reemplaza(h, Obj::Lista(l));
                        return Err(ErrorVm::FueraDeRango);
                    }
                    l[idx as usize] = valor;
                    let _ = self.object_table.reemplaza(h, Obj::Lista(l));
                    Ok(())
                },
                Obj::Diccionario(mut d) => {
                    if !idx_val.es_objeto() {
                        let _ = self.object_table.reemplaza(h, Obj::Diccionario(d));
                        return Err(ErrorVm::ClaveInvalida);
                    }
                    let mut clave: Option<String> = None;
                    match self.object_table.get(idx_val.a_handle()) {
                        Some(ko) => match ko {
                            Obj::Texto(s) => {
                                clave = Some(s.clone());
                            },
                            _ => {},
                        },
                        None => {},
                    }
                    match clave {
                        Some(k) => {
                            if d.len() >= usize::MAX {
                                let _ = self.object_table.reemplaza(h, Obj::Diccionario(d));
                                return Err(ErrorVm::MemoriaAgotada);
                            }
                            asoc_pone(&mut d, k, valor);
                            let _ = self.object_table.reemplaza(h, Obj::Diccionario(d));
                            Ok(())
                        },
                        None => {
                            let _ = self.object_table.reemplaza(h, Obj::Diccionario(d));
                            Err(ErrorVm::ClaveInvalida)
                        },
                    }
                },
                otro => {
                    let _ = self.object_table.reemplaza(h, otro);
                    Err(ErrorVm::NoIndexable)
                },
            },
            None => Err(ErrorVm::HandleInvalido),
        }
    }

    /// Walk the class chain for a method.
    fn buscar_metodo(&self, clase: u32, nombre: &String) -> (r: Result<Option<Value>, ErrorVm>)
        requires
            self.wf(),
    {
        let mut actual: u32 = clase;
        let mut fuel: usize = 0x10001;
        while fuel > 0
            invariant
                self.wf(),
            decreases fuel,
        {
            match self.object_table.get(actual) {
                Some(o) => match o {
                    Obj::Clase(c) => {
                        match asoc_busca(&c.metodos, nombre) {
                            Some(v) => {
                                return Ok(Some(v));
                            },
                            None => {
                                match c.padre {
                                    Some(p) => {
                                        actual = p;
                                    },
                                    None => {
                                        return Ok(None);
                                    },
                                }
                            },
                        }
                    },
                    _ => {
                        return Err(ErrorVm::NoEsClase);
                    },
                },
                None => {
                    return Err(ErrorVm::HandleInvalido);
                },
            }
            fuel = fuel - 1;
        }
        Ok(None)
    }

    /// Property read.  On an instance: fields first, then the class
    /// chain, a method hit binding the receiver.  Texts, lists and
    /// resources consult the registered native-method tables; a
    /// dictionary yields its entry, which is how module values are
    /// reached.  Field hits feed the inline cache, keyed by
    /// (instruction, property) with the class handle as type.
    fn op_acceder_propiedad(&mut self, chunk: &Chunk, pc_op: usize, a: usize, b: usize, c: usize)
        -> (r: Result<(), ErrorVm>)
        requires
            a <= 0xFF,
            b <= 0xFF,
            c <= 0xFF,
            old(self).wf(),
        ensures
            final(self).wf(),
            final(self).pc_s() == old(self).pc_s(),
            final(self).base_pointer_s() == old(self).base_pointer_s(),
    {
        let ra = self.base_pointer + a;
        let rb = self.base_pointer + b;
        if ra >= self.registers.len() || rb >= self.registers.len() {
            return Err(ErrorVm::RegistroFueraDeRango);
        }
        let obj_val = self.registers[rb];
        let nombre = match self.texto_constante(chunk, c) {
            Ok(n) => n,
            Err(e) => {
                return Err(e);
            },
        };
        let accion: AccionProp;
        if obj_val.es_objeto() {
            match self.object_table.get(obj_val.a_handle()) {
                Some(o) => match o {
                    Obj::Instancia(inst) => {
                        match crate::object::asoc_indice(&inst.campos, &nombre) {
                            Some(i) => {
                                accion = AccionProp::Campo(inst.campos[i].1, inst.clase, i);
                            },
                            None => {
                                accion = AccionProp::EnClase(inst.clase);
                            },
                        }
                    },
                    Obj::Texto(_) => {
                        match asoc_busca(&self.metodos_texto, &nombre) {
                            Some(m) => {
                                accion = AccionProp::Atar(m);
                            },
                            None => {
                                accion = AccionProp::NoHay;
                            },
                        }
                    },
                    Obj::Lista(_) => {
                        match asoc_busca(&self.metodos_lista, &nombre) {
                            Some(m) => {
                                accion = AccionProp::Atar(m);
                            },
                            None => {
                                accion = AccionProp::NoHay;
                            },
                        }
                    },
                    Obj::Diccionario(d) => {
                        match asoc_busca(d, &nombre) {
                            Some(v) => {
                                accion = AccionProp::Directo(v);
                            },
                            None => {
                                accion = AccionProp::NoHay;
                            },
                        }
                    },
                    _ => {
                        accion = AccionProp::NoHay;
                    },
                },
                None => {
                    return Err(ErrorVm::HandleInvalido);
                },
            }
        } else if obj_val.es_recurso() {
            match asoc_busca(&self.resource_methods, &nombre) {
                Some(m) => {
                    accion = AccionProp::Atar(m);
                },
                None => {
                    accion = AccionProp::NoHay;
                },
            }
        } else {
            accion = AccionProp::NoHay;
        }
        match accion {
            AccionProp::Campo(v, clase, indice) => {
                let largos = self.cache_enlinea.largos();
                if largos.0 < usize::MAX && largos.1 < usize::MAX {
                    let _ = self.cache_enlinea.lookup(pc_op, &nombre, clase as u64);
                    self.cache_enlinea.record(pc_op, &nombre, clase as u64, indice);
                }
                self.registers[ra] = v;
                Ok(())
            },
            AccionProp::Directo(v) => {
                self.registers[ra] = v;
                Ok(())
            },
            AccionProp::Atar(m) => {
                match self.alloc_object(
                    Obj::MetodoAtado(MetodoAtado { receptor: obj_val, metodo: m }),
                ) {
                    Ok(v) => {
                        self.registers[ra] = v;
                        Ok(())
                    },
                    Err(e) => Err(e),
                }
            },
            AccionProp::EnClase(clase) => {
                match self.buscar_metodo(clase, &nombre) {
                    Ok(op_m) => match op_m {
                        Some(m) => {
                            match self.alloc_object(
                                Obj::MetodoAtado(MetodoAtado { receptor: obj_val, metodo: m }),
                            ) {
                                Ok(v) => {
                                    self.registers[ra] = v;
                                    Ok(())
                                },
                                Err(e) => Err(e),
                            }
                        },
                        None => Err(ErrorVm::PropiedadNoEncontrada(nombre)),
                    },
                    Err(e) => Err(e),
                }
            },
            AccionProp::NoHay => Err(ErrorVm::PropiedadNoEncontrada(nombre)),
        }
    }

    /// Property write: only instances take fields.
    fn op_asignar_propiedad(&mut self, chunk: &Chunk, a: usize, b: usize, c: usize) -> (r: Result<
        (),
        ErrorVm,
    >)
        requires
            a <= 0xFF,
            b <= 0xFF,
            c <= 0xFF,
            old(self).wf(),
        ensures
            final(self).wf(),
            final(self).pc_s() == old(self).pc_s(),
            final(self).base_pointer_s() == old(self).base_pointer_s(),
    {
        let ra = self.base_pointer + a;
        let rc = self.base_pointer + c;
        if ra >= self.registers.len() || rc >= self.registers.len() {
            return Err(ErrorVm::RegistroFueraDeRango);
        }
        let obj_val = self.registers[ra];
        let valor = self.registers[rc];
        let nombre = match self.texto_constante(chunk, b) {
            Ok(n) => n,
            Err(e) => {
                return Err(e);
            },
        };
        if !obj_val.es_objeto() {
            return Err(ErrorVm::SinPropiedades);
        }
        let h = obj_val.a_handle();
        match self.object_table.toma_reemplaza(h, Obj::Texto(String::new())) {
            Some(o) => match o {
                Obj::Instancia(mut inst) => {
                    if inst.campos.len() >= usize::MAX {
                        let _ = self.object_table.reemplaza(h, Obj::Instancia(inst));
                        return Err(ErrorVm::MemoriaAgotada);
                    }
                    asoc_pone(&mut inst.campos, nombre, valor);
                    let _ = self.object_table.reemplaza(h, Obj::Instancia(inst));
                    Ok(())
                },
                otro => {
                    let _ = self.object_table.reemplaza(h, otro);
                    Err(ErrorVm::SinPropiedades)
                },
            },
            None => Err(ErrorVm::HandleInvalido),
        }
    }

    /// Create a class, with an optional parent taken from a register.
    fn op_crear_clase(&mut self, chunk: &Chunk, a: usize, b: usize, c: usize) -> (r: Result<
        (),
        ErrorVm,
    >)
        requires
            a <= 0xFF,
            b <= 0xFF,
            c <= 0xFF,
            old(self).wf(),
        ensures
            final(self).wf(),
            final(self).pc_s() == old(self).pc_s(),
            final(self).base_pointer_s() == old(self).base_pointer_s(),
    {
        let ra = self.base_pointer + a;
        let rc = self.base_pointer + c;
        if ra >= self.registers.len() || rc >= self.registers.len() {
            return Err(ErrorVm::RegistroFueraDeRango);
        }
        let nombre = match self.texto_constante(chunk, b) {
            Ok(n) => n,
            Err(e) => {
                return Err(e);
            },
        };
        let padre_val = self.registers[rc];
        let padre: Option<u32>;
        if padre_val.es_nulo() {
            padre = None;
        } else if padre_val.es_objeto() {
            match self.object_table.get(padre_val.a_handle()) {
                Some(o) => match o {
                    Obj::Clase(_) => {
                        padre = Some(padre_val.a_handle());
                    },
                    _ => {
                        return Err(ErrorVm::PadreInvalido);
                    },
                },
                None => {
                    return Err(ErrorVm::HandleInvalido);
                },
            }
        } else {
            padre = None;
        }
        match self.alloc_object(Obj::Clase(Clase { nombre, metodos: Vec::new(), padre })) {
            Ok(v) => {
                self.registers[ra] = v;
                Ok(())
            },
            Err(e) => Err(e),
        }
    }

    /// Attach a method (a callable value) to a class under a name.
    fn op_metodo(&mut self, chunk: &Chunk, a: usize, b: usize, c: usize) -> (r: Result<(), ErrorVm>)
        requires
            a <= 0xFF,
            b <= 0xFF,
            c <= 0xFF,
            old(self).wf(),
        ensures
            final(self).wf(),
            final(self).pc_s() == old(self).pc_s(),
            final(self).base_pointer_s() == old(self).base_pointer_s(),
    {
        let ra = self.base_pointer + a;
        let rc = self.base_pointer + c;
        if ra >= self.registers.len() || rc >= self.registers.len() {
            return Err(ErrorVm::RegistroFueraDeRango);
        }
        let clase_val = self.registers[ra];
        let cuerpo = self.registers[rc];
        let nombre = match self.texto_constante(chunk, b) {
            Ok(n) => n,
            Err(e) => {
                return Err(e);
            },
        };
        if !clase_val.es_objeto() {
            return Err(ErrorVm::NoEsClase);
        }
        let h = clase_val.a_handle();
        match self.object_table.toma_reemplaza(h, Obj::Texto(String::new())) {
            Some(o) => match o {
                Obj::Clase(mut c) => {
                    if c.metodos.len() >= usize::MAX {
                        let _ = self.object_table.reemplaza(h, Obj::Clase(c));
                        return Err(ErrorVm::MemoriaAgotada);
                    }
                    asoc_pone(&mut c.metodos, nombre, cuerpo);
                    let _ = self.object_table.reemplaza(h, Obj::Clase(c));
                    Ok(())
                },
                otro => {
                    let _ = self.object_table.reemplaza(h, otro);
                    Err(ErrorVm::NoEsClase)
                },
            },
            None => Err(ErrorVm::HandleInvalido),
        }
    }

    /// Resolve a registered module into a dictionary of its exports;
    /// an unknown module binds nil.
    fn op_importar(&mut self, chunk: &Chunk, a: usize, bx: usize) -> (r: Result<(), ErrorVm>)
        requires
            a <= 0xFF,
            old(self).wf(),
        ensures
            final(self).wf(),
            final(self).pc_s() == old(self).pc_s(),
            final(self).base_pointer_s() == old(self).base_pointer_s(),
    {
        let ra = self.base_pointer + a;
        if ra >= self.registers.len() {
            return Err(ErrorVm::RegistroFueraDeRango);
        }
        let nombre = match self.texto_constante(chunk, bx) {
            Ok(n) => n,
            Err(e) => {
                return Err(e);
            },
        };
        let mut entradas: Option<Vec<(String, Value)>> = None;
        let mut i: usize = 0;
        while i < self.modules.len()
            invariant
                self.wf(),
                self == old(self),
            decreases self.modules@.len() - i,
        {
            if self.modules[i].name == nombre {
                let mut copia: Vec<(String, Value)> = Vec::new();
                let mut j: usize = 0;
                let exportes = &self.modules[i].exports;
                while j < exportes.len()
                    invariant
                        copia@.len() == j,
                        j <= exportes@.len(),
                    decreases exportes@.len() - j,
                {
                    let par = &exportes[j];
                    copia.push((par.0.clone(), par.1));
                    j = j + 1;
                }
                entradas = Some(copia);
                break ;
            }
            i = i + 1;
        }
        match entradas {
            Some(e) => {
                match self.alloc_object(Obj::Diccionario(e)) {
                    Ok(v) => {
                        self.registers[ra] = v;
                        Ok(())
                    },
                    Err(err) => Err(err),
                }
            },
            None => {
                self.registers[ra] = Value::nulo();
                Ok(())
            },
        }
    }

    /// Unwrap a promise: a resolved one yields its value into the
    /// destination register; a rejected one hands its value back to be
    /// thrown; a pending one is unsupported and fatal.
    fn op_await(&mut self, a: usize, b: usize) -> (r: Result<Option<Value>, ErrorVm>)
        requires
            a <= 0xFF,
            b <= 0xFF,
            old(self).wf(),
        ensures
            final(self).wf(),
            final(self).pc_s() == old(self).pc_s(),
            final(self).base_pointer_s() == old(self).base_pointer_s(),
            match r {
                Ok(salida) => ({
                    let base = old(self).base_pointer_s();
                    let prom = old(self).vista_registros()[base + b];
                    &&& base + a < MAX_REGISTERS
                    &&& base + b < MAX_REGISTERS
                    &&& prom.es_objeto_s()
                    &&& old(self).tabla_s().vivo(prom.carga_handle())
                    &&& (old(self).tabla_s().objeto_en(prom.carga_handle()) matches Obj::Promesa(p)
                        && match p.estado {
                        EstadoPromesa::Resuelta(v) => salida is None && final(self).vista_registros() == old(self).vista_registros().update(base + a, v),
                        EstadoPromesa::Rechazada(v) => salida == Some(v) && final(self).vista_registros() == old(self).vista_registros(),
                        EstadoPromesa::Pendiente => false,
                    })
                }),
                Err(_) => final(self).vista_registros() == old(self).vista_registros(),
            },
    {
        let ra = self.base_pointer + a;
        let rb = self.base_pointer + b;
        if ra >= self.registers.len() || rb >= self.registers.len() {
            return Err(ErrorVm::RegistroFueraDeRango);
        }
        let prom = self.registers[rb];
        if !prom.es_objeto() {
            return Err(ErrorVm::EsperaInvalida);
        }
        let resultado: Value;
        match self.object_table.get(prom.a_handle()) {
            Some(o) => match o {
                Obj::Promesa(p) => match &p.estado {
                    EstadoPromesa::Resuelta(v) => {
                        resultado = *v;
                    },
                    EstadoPromesa::Rechazada(v) => {
                        return Ok(Some(*v));
                    },
                    EstadoPromesa::Pendiente => {
                        return Err(ErrorVm::PromesaPendiente);
                    },
                },
                _ => {
                    return Err(ErrorVm::EsperaInvalida);
                },
            },
            None => {
                return Err(ErrorVm::HandleInvalido);
            },
        }
        self.registers[ra] = resultado;
        Ok(None)
    }

    /// Render a value for printing; nesting is cut off after a fixed
    /// depth.
    fn texto_de_valor<A: Anfitrion>(&self, anfitrion: &mut A, v: Value, fuel: u64) -> (r: String)
        requires
            self.wf(),
        ensures
            v.es_entero_s() ==> r@ == crate::cifras::texto_de_i64(v.carga_entera() as int),
        decreases fuel,
    {
        proof {
            reveal_strlit("nulo");
            reveal_strlit("verdadero");
            reveal_strlit("falso");
            reveal_strlit("<nativa>");
            reveal_strlit("<recurso>");
            reveal_strlit("...");
            reveal_strlit("[");
            reveal_strlit("]");
            reveal_strlit("{");
            reveal_strlit("}");
            reveal_strlit(", ");
            reveal_strlit(": ");
            reveal_strlit("<clase ");
            reveal_strlit(">");
            reveal_strlit("<instancia>");
            reveal_strlit("<metodo>");
            reveal_strlit("<promesa>");
            reveal_strlit("<invalido>");
        }
        if v.es_entero() {
            i64_a_texto(v.a_entero() as i64)
        } else if v.es_nulo() {
            "nulo".to_owned()
        } else if v.es_logico() {
            if v.a_logico() {
                "verdadero".to_owned()
            } else {
                "falso".to_owned()
            }
        } else if v.es_numero() {
            anfitrion.formatear_numero(v.0)
        } else if v.es_nativa() {
            "<nativa>".to_owned()
        } else if v.es_recurso() {
            "<recurso>".to_owned()
        } else if v.es_objeto() {
            if fuel == 0 {
                return "...".to_owned();
            }
            match self.object_table.get(v.a_handle()) {
                Some(o) => match o {
                    Obj::Texto(s) => s.clone(),
                    Obj::Lista(items) => {
                        let mut s: String = "[".to_owned();
                        let mut i: usize = 0;
                        while i < items.len()
                            invariant
                                self.wf(),
                                fuel >= 1,
                            decreases items@.len() - i,
                        {
                            if i > 0 {
                                s.append(", ");
                            }
                            let t = self.texto_de_valor(anfitrion, items[i], fuel - 1);
                            s.append(t.as_str());
                            i = i + 1;
                        }
                        s.append("]");
                        s
                    },
                    Obj::Diccionario(d) => {
                        let mut s: String = "{".to_owned();
                        let mut i: usize = 0;
                        while i < d.len()
                            invariant
                                self.wf(),
                                fuel >= 1,
                            decreases d@.len() - i,
                        {
                            if i > 0 {
                                s.append(", ");
                            }
                            s.append(d[i].0.as_str());
                            s.append(": ");
                            let t = self.texto_de_valor(anfitrion, d[i].1, fuel - 1);
                            s.append(t.as_str());
                            i = i + 1;
                        }
                        s.append("}");
                        s
                    },
                    Obj::Clase(c) => {
                        let mut s: String = "<clase ".to_owned();
                        s.append(c.nombre.as_str());
                        s.append(">");
                        s
                    },
                    Obj::Instancia(_) => "<instancia>".to_owned(),
                    Obj::MetodoAtado(_) => "<metodo>".to_owned(),
                    Obj::Promesa(_) => "<promesa>".to_owned(),
                },
                None => "<invalido>".to_owned(),
            }
        } else {
            "<invalido>".to_owned()
        }
    }

    /// Pop a handler and transfer control to it, restoring the frame
    /// count and window of the try region; the error value is parked
    /// for `GetError`.  Reports `false` when no handler is active.
    fn desenrollar(&mut self, chunk: &Chunk, err: Value) -> (r: bool)
        requires
            old(self).wf(),
        ensures
            final(self).wf(),
            r ==> final(self).pc_s() <= chunk.code@.len(),
            !r ==> final(self).pc_s() == old(self).pc_s(),
            final(self).vista_registros() == old(self).vista_registros(),
            old(self).profundidad_try_s() == 0 ==> !r && final(self).cuenta_marcos() == old(self).cuenta_marcos() && final(self).base_pointer_s() == old(self).base_pointer_s()
                && final(self).error_pendiente_s() == old(self).error_pendiente_s(),
            old(self).profundidad_try_s() > 0 ==> ({
                let h = old(self).cima_try_s();
                &&& final(self).profundidad_try_s() == old(self).profundidad_try_s() - 1
                &&& (h.catch_pc <= chunk.code@.len() ==> r && final(self).pc_s() == h.catch_pc
                    && final(self).base_pointer_s() == h.base_pointer as int && final(self).cuenta_marcos() == (if h.frame_count <= old(self).cuenta_marcos() {
                    h.frame_count as nat
                } else {
                    old(self).cuenta_marcos()
                }) && final(self).error_pendiente_s() == Some(err))
                &&& (h.catch_pc > chunk.code@.len() ==> !r)
            }),
    {
        match self.try_stack.pop() {
            Some(h) => {
                if h.catch_pc > chunk.code.len() {
                    return false;
                }
                if h.frame_count <= self.frames.len() {
                    self.frames.truncate(h.frame_count);
                }
                self.base_pointer = h.base_pointer;
                self.pc = h.catch_pc;
                self.last_error = Some(err);
                true
            },
            None => false,
        }
    }

    /// The call instruction.  A bound method injects its receiver as
    /// the first argument; a class constructs an instance and calls
    /// its `init` along the parent chain; a native index goes to the
    /// host; a callable integer is a bytecode entry: native code is
    /// dispatched to when the entry is compiled, the call that passes
    /// the threshold requests compilation, and otherwise a frame is
    /// pushed — refusing when the frame stack is full.
    fn op_llamar<A: Anfitrion>(
        &mut self,
        chunk: &Chunk,
        anfitrion: &mut A,
        a: usize,
        b: usize,
        c: usize,
    ) -> (r: Result<(), ErrorVm>)
        requires
            a <= 0xFF,
            b <= 0xFF,
            c <= 0xFF,
            old(self).wf(),
            old(self).pc_s() <= chunk.code@.len(),
        ensures
            final(self).wf(),
            final(self).pc_s() <= chunk.code@.len(),
    {
        let ra = self.base_pointer + a;
        let rb = self.base_pointer + b;
        if ra >= self.registers.len() || rb >= self.registers.len() {
            return Err(ErrorVm::RegistroFueraDeRango);
        }
        let mut callee = self.registers[rb];
        let mut arg_count = c;
        let mut new_base = rb + 1;
        if callee.es_objeto() {
            match self.object_table.get(callee.a_handle()) {
                Some(o) => match o {
                    Obj::MetodoAtado(ma) => {
                        let receptor = ma.receptor;
                        let metodo = ma.metodo;
                        self.registers[rb] = receptor;
                        new_base = rb;
                        arg_count = c + 1;
                        callee = metodo;
                    },
                    _ => {},
                },
                None => {
                    return Err(ErrorVm::HandleInvalido);
                },
            }
        }
        if callee.es_objeto() {
            // Instantiation: allocate, then call init if the chain has
            // one, discarding its return value.
            let clase_h = callee.a_handle();
            match self.object_table.get(clase_h) {
                Some(o) => match o {
                    Obj::Clase(_) => {},
                    _ => {
                        return Err(ErrorVm::NoInvocable);
                    },
                },
                None => {
                    return Err(ErrorVm::HandleInvalido);
                },
            }
            let inst_val = match self.alloc_object(
                Obj::Instancia(Instancia { clase: clase_h, campos: Vec::new() }),
            ) {
                Ok(v) => v,
                Err(e) => {
                    return Err(e);
                },
            };
            self.registers[ra] = inst_val;
            proof {
                reveal_strlit("init");
            }
            let nombre_init: String = "init".to_owned();
            let init = match self.buscar_metodo(clase_h, &nombre_init) {
                Ok(m) => m,
                Err(e) => {
                    return Err(e);
                },
            };
            match init {
                Some(mv) => {
                    if !mv.es_entero() {
                        return Err(ErrorVm::NoInvocable);
                    }
                    let direccion = mv.a_entero();
                    if direccion < 0 || direccion as usize > chunk.code.len() {
                        return Err(ErrorVm::SaltoFueraDeRango);
                    }
                    if self.frames.len() >= MAX_FRAMES {
                        return Err(ErrorVm::DesbordamientoDePila);
                    }
                    self.registers[rb] = inst_val;
                    let ghost marcos_antes = self.frames@;
                    self.frames.push(
                        CallFrame {
                            pc: self.pc,
                            base_pointer: self.base_pointer,
                            return_reg: usize::MAX,
                        },
                    );
                    proof {
                        lema_marcos_push(marcos_antes, self.frames@);
                    }
                    self.base_pointer = rb;
                    self.pc = direccion as usize;
                },
                None => {},
            }
            return Ok(());
        }
        if callee.es_nativa() {
            let idx = callee.a_nativa_idx();
            if (idx as usize) >= self.natives_len {
                return Err(ErrorVm::NoInvocable);
            }
            if new_base + arg_count > self.registers.len() {
                return Err(ErrorVm::RegistroFueraDeRango);
            }
            let mut args: Vec<Value> = Vec::new();
            let mut i: usize = 0;
            while i < arg_count
                invariant
                    self.wf(),
                    i <= arg_count,
                    new_base + arg_count <= self.vista_registros().len(),
                    args@.len() == i,
                decreases arg_count - i,
            {
                args.push(self.registers[new_base + i]);
                i = i + 1;
            }
            match anfitrion.llamar_nativa(idx, args, &mut self.object_table) {
                Ok(v) => {
                    self.registers[ra] = v;
                    Ok(())
                },
                Err(m) => Err(ErrorVm::Nativa(m)),
            }
        } else if callee.es_entero() {
            let direccion = callee.a_entero();
            if direccion < 0 {
                return Err(ErrorVm::NoInvocable);
            }
            let entrada = direccion as usize;
            let mut ejecutado = false;
            match busca_usize(&self.jit_cache, entrada) {
                Some(dir_nativa) => {
                    // Native code takes its argument as double bits and
                    // returns double bits; widen on the way in and
                    // re-tag exact integers on the way out.
                    let arg0 = if arg_count > 0 && new_base < self.registers.len() {
                        Value(self.registers[new_base].a_numero_bits())
                    } else {
                        Value::nulo()
                    };
                    let res = anfitrion.jit_llamar(dir_nativa, entrada, arg0, chunk);
                    self.registers[ra] = VM::normaliza_retorno(res);
                    ejecutado = true;
                },
                None => {
                    let contador = incrementa_contador(&mut self.hotspot_counters, entrada);
                    if contador > UMBRAL_JIT {
                        let modo_entero = match self.especializacion.get_pattern(
                            entrada,
                            OperationType::Add,
                        ) {
                            Some(p) => p == crate::specialization::TypePattern::IntInt,
                            None => true,
                        };
                        match anfitrion.jit_compilar(chunk, entrada, modo_entero) {
                            Some(dir_nativa) => {
                                pone_usize(&mut self.jit_cache, entrada, dir_nativa);
                                let arg0 = if arg_count > 0 && new_base < self.registers.len() {
                                    Value(self.registers[new_base].a_numero_bits())
                                } else {
                                    Value::nulo()
                                };
                                let res = anfitrion.jit_llamar(dir_nativa, entrada, arg0, chunk);
                                self.registers[ra] = VM::normaliza_retorno(res);
                                ejecutado = true;
                            },
                            None => {
                                reinicia_contador(&mut self.hotspot_counters, entrada);
                            },
                        }
                    }
                },
            }
            if !ejecutado {
                if entrada > chunk.code.len() {
                    return Err(ErrorVm::SaltoFueraDeRango);
                }
                if self.frames.len() >= MAX_FRAMES {
                    return Err(ErrorVm::DesbordamientoDePila);
                }
                let ghost marcos_antes = self.frames@;
                self.frames.push(
                    CallFrame { pc: self.pc, base_pointer: self.base_pointer, return_reg: ra },
                );
                proof {
                    lema_marcos_push(marcos_antes, self.frames@);
                }
                self.base_pointer = new_base;
                self.pc = entrada;
            }
            Ok(())
        } else {
            Err(ErrorVm::NoInvocable)
        }
    }

    /// Reset the machine and execute a chunk from its first
    /// instruction.
    pub fn interpretar<A: Anfitrion>(&mut self, chunk: &Chunk, anfitrion: &mut A) -> (r: Result<
        Value,
        String,
    >)
        requires
            old(self).wf(),
        ensures
            final(self).wf(),
    {
        self.pc = 0;
        self.base_pointer = 0;
        self.frames.clear();
        self.try_stack.clear();
        self.run(chunk, anfitrion)
    }

    /// Execute from a given entry, keeping the current state; spawned
    /// machines start here.
    pub fn run_from<A: Anfitrion>(&mut self, pc: usize, chunk: &Chunk, anfitrion: &mut A) -> (r:
        Result<Value, String>)
        requires
            old(self).wf(),
    ensures
            final(self).wf(),
    {
        self.pc = pc;
        self.run(chunk, anfitrion)
    }

    /// The dispatch loop: `paso` repeated until a top-level return, a
    /// fall off the end of the code (which yields nil), an error that
    /// no try handler takes, or the step budget running out.  What
    /// each instruction does to the machine is stated on `paso` and on
    /// the per-instruction handlers; this loop adds only that the
    /// machine stays sound and the counter in bounds, since a result
    /// may depend on every host call along the way.
    pub fn run<A: Anfitrion>(&mut self, chunk: &Chunk, anfitrion: &mut A) -> (r: Result<
        Value,
        String,
    >)
        requires
            old(self).wf(),
        ensures
            final(self).wf(),
            final(self).pc_s() <= chunk.code@.len(),
    {
        if self.pc > chunk.code.len() {
            self.pc = chunk.code.len();
        }
        let mut pasos: u64 = MAX_PASOS;
        loop
            invariant
                self.wf(),
                self.pc_s() <= chunk.code@.len(),
            decreases pasos,
        {
            if pasos == 0 {
                proof {
                    reveal_strlit("presupuesto de pasos agotado");
                }
                return Err("presupuesto de pasos agotado".to_owned());
            }
            pasos = pasos - 1;
            match self.paso(chunk, anfitrion) {
                Ok(Paso::Sigue) => {},
                Ok(Paso::Termina(v)) => {
                    return Ok(v);
                },
                Err(m) => {
                    return Err(m);
                },
            }
        }
    }

    /// Execute exactly one dispatch step: fetch, decode, run the
    /// instruction, unwinding a runtime error into the nearest
    /// handler.  A program counter at the end of the code terminates
    /// with nil, a top-level return with its value.
    ///
    /// For the instruction kinds whose effect depends on nothing
    /// outside the machine, the contract states that effect exactly:
    /// constant loads and moves, integer arithmetic and comparisons,
    /// bitwise identity, the three jumps, return, the try-handler
    /// push/pop pair, throwing, and draining the parked error.  Heap
    /// and host instructions carry their detail on the corresponding
    /// handlers.
    pub fn paso<A: Anfitrion>(&mut self, chunk: &Chunk, anfitrion: &mut A) -> (r: Result<
        Paso,
        String,
    >)
        requires
            old(self).wf(),
            old(self).pc_s() <= chunk.code@.len(),
        ensures
            final(self).wf(),
            final(self).pc_s() <= chunk.code@.len(),
            old(self).pc_s() == chunk.code@.len() ==> r == Ok::<Paso, String>(Paso::Termina(Value::nulo_s()))
                && final(self).vista_registros() == old(self).vista_registros() && final(self).pc_s() == old(self).pc_s(),
            old(self).pc_s() < chunk.code@.len() ==> ({
                let instr = chunk.code@[old(self).pc_s() as int];
                let opd = OpCode::desde_byte_s(crate::chunk::campo_op(instr));
                let a = crate::chunk::campo_a(instr) as int;
                let b = crate::chunk::campo_b(instr) as int;
                let c = crate::chunk::campo_c(instr) as int;
                let bx = crate::chunk::campo_bx(instr) as int;
                let base = old(self).base_pointer_s();
                let sig: int = old(self).pc_s() as int + 1;
                let regs = old(self).vista_registros();
                let largo = chunk.code@.len() as int;
                &&& (opd == Some(OpCode::CargarConstante) && base + a < MAX_REGISTERS && bx
                    < chunk.constants@.len()) ==> r == Ok::<Paso, String>(Paso::Sigue) && final(self).pc_s() == sig
                    && final(self).vista_registros() == regs.update(
                    base + a,
                    chunk.constants@[bx],
                )
                &&& (opd == Some(OpCode::Mover) && base + a < MAX_REGISTERS && base + b
                    < MAX_REGISTERS) ==> r == Ok::<Paso, String>(Paso::Sigue) && final(self).pc_s() == sig
                    && final(self).vista_registros() == regs.update(base + a, regs[base + b])
                &&& opd matches Some(op) ==> ((es_aritmetica_s(op) && base + a < MAX_REGISTERS
                    && base + b < MAX_REGISTERS && base + c < MAX_REGISTERS && regs[base
                    + b].es_entero_s() && regs[base + c].es_entero_s()) ==> (crate::arith::op_binaria_s(
                    op,
                    regs[base + b],
                    regs[base + c],
                ) matches Ok(v) ==> r == Ok::<Paso, String>(Paso::Sigue) && final(self).pc_s() == sig && final(self).vista_registros() == regs.update(base + a, v)))
                &&& (opd == Some(OpCode::Igual) && base + a < MAX_REGISTERS && base + b
                    < MAX_REGISTERS && base + c < MAX_REGISTERS) ==> r == Ok::<Paso, String>(Paso::Sigue) && final(self).pc_s() == sig && final(self).vista_registros() == regs.update(
                    base + a,
                    Value::logico_s(regs[base + b].0 == regs[base + c].0),
                )
                &&& opd matches Some(op) ==> ((es_unaria_s(op) && base + a < MAX_REGISTERS
                    && base + b < MAX_REGISTERS) ==> (crate::arith::op_unaria_s(
                    op,
                    regs[base + b],
                ) matches Ok(v) ==> r == Ok::<Paso, String>(Paso::Sigue) && final(self).pc_s() == sig && final(self).vista_registros() == regs.update(base + a, v)))
                &&& (opd == Some(OpCode::Saltar) && largo - sig >= bx) ==> r == Ok::<Paso, String>(Paso::Sigue)
                    && final(self).pc_s() == sig + bx && final(self).vista_registros() == regs
                &&& (opd == Some(OpCode::SaltarAtras) && bx <= sig) ==> r == Ok::<Paso, String>(Paso::Sigue)
                    && final(self).pc_s() == sig - bx && final(self).vista_registros() == regs
                &&& (opd == Some(OpCode::SaltarSiFalso) && base + a < MAX_REGISTERS && (regs[base
                    + a].es_falsa_s() ==> largo - sig >= bx)) ==> r == Ok::<Paso, String>(Paso::Sigue) && final(self).vista_registros() == regs && final(self).pc_s() == (if regs[base
                    + a].es_falsa_s() {
                    sig + bx
                } else {
                    sig
                })
                &&& (opd == Some(OpCode::Retornar) && base + a < MAX_REGISTERS && old(self).cuenta_marcos() == 0) ==> r == Ok::<Paso, String>(Paso::Termina(regs[base + a]))
                &&& (opd == Some(OpCode::Retornar) && base + a < MAX_REGISTERS && old(self).cuenta_marcos() > 0 && old(self).marco_cima_s().pc <= largo) ==> ({
                    let marco = old(self).marco_cima_s();
                    r == Ok::<Paso, String>(Paso::Sigue) && final(self).pc_s() == marco.pc && final(self).base_pointer_s() == marco.base_pointer as int && final(self).cuenta_marcos()
                        == old(self).cuenta_marcos() - 1 && final(self).vista_registros() == (
                    if marco.return_reg != usize::MAX && marco.return_reg < MAX_REGISTERS {
                        regs.update(marco.return_reg as int, regs[base + a])
                    } else {
                        regs
                    })
                })
                &&& (opd == Some(OpCode::PushTry) && largo - sig >= bx && old(self).profundidad_try_s() < usize::MAX) ==> r == Ok::<Paso, String>(Paso::Sigue) && final(self).pc_s()
                    == sig && final(self).vista_registros() == regs && final(self).profundidad_try_s() == old(self).profundidad_try_s() + 1 && final(self).cima_try_s() == (TryHandler {
                    catch_pc: (sig + bx) as usize,
                    frame_count: old(self).cuenta_marcos() as usize,
                    base_pointer: base as usize,
                })
                &&& (opd == Some(OpCode::PopTry)) ==> r == Ok::<Paso, String>(Paso::Sigue) && final(self).pc_s()
                    == sig && final(self).vista_registros() == regs && final(self).profundidad_try_s() == (if old(self).profundidad_try_s() > 0 {
                    old(self).profundidad_try_s() - 1
                } else {
                    0
                })
                &&& (opd == Some(OpCode::ObtenerError) && base + a < MAX_REGISTERS) ==> r == Ok::<Paso, String>(Paso::Sigue) && final(self).pc_s() == sig && final(self).error_pendiente_s() is None && final(self).vista_registros() == regs.update(
                    base + a,
                    match old(self).error_pendiente_s() {
                        Some(e) => e,
                        None => Value::nulo_s(),
                    },
                )
                &&& (opd == Some(OpCode::Lanzar) && base + a < MAX_REGISTERS && old(self).profundidad_try_s() > 0 && old(self).cima_try_s().catch_pc <= largo) ==> ({
                    let h = old(self).cima_try_s();
                    r == Ok::<Paso, String>(Paso::Sigue) && final(self).pc_s() == h.catch_pc && final(self).base_pointer_s() == h.base_pointer as int && final(self).profundidad_try_s()
                        == old(self).profundidad_try_s() - 1 && final(self).error_pendiente_s()
                        == Some(regs[base + a]) && final(self).vista_registros() == regs
                })
            }),
    {
        if self.pc >= chunk.code.len() {
            return Ok(Paso::Termina(Value::nulo()));
        }
        let instruccion = chunk.code[self.pc];
        let pc_op = self.pc;
        self.pc = self.pc + 1;
        let a = decodificar_a(instruccion) as usize;
        let b = decodificar_b(instruccion) as usize;
        let c = decodificar_c(instruccion) as usize;
        let bx = decodificar_bx(instruccion) as usize;
        let op = match OpCode::desde_byte(decodificar_op(instruccion)) {
            Some(op) => op,
            None => {
                match self.error_o_fatal(chunk, anfitrion, ErrorVm::OpcodeInvalido) {
                    Ok(()) => {
                        return Ok(Paso::Sigue);
                    },
                    Err(m) => {
                        return Err(m);
                    },
                }
            },
        };
        let paso: Result<(), ErrorVm> = match op {
            OpCode::CargarConstante => self.op_cargar_constante(chunk, a, bx),
            OpCode::Mover => self.op_mover(a, b),
            OpCode::Sumar => {
                let rb = self.base_pointer + b;
                let rc = self.base_pointer + c;
                proof {
                    if rb < self.registers@.len() {
                        crate::value::lema_entero_no_objeto(self.registers@[rb as int].0);
                    }
                    if rc < self.registers@.len() {
                        crate::value::lema_entero_no_objeto(self.registers@[rc as int].0);
                    }
                }
                if rb < self.registers.len() && rc < self.registers.len()
                    && self.registers[rb].es_objeto() && self.registers[rc].es_objeto() {
                    self.op_sumar_textos(a, b, c)
                } else {
                    self.op_aritmetica(anfitrion, op, pc_op, a, b, c)
                }
            },
            OpCode::Restar => self.op_aritmetica(anfitrion, op, pc_op, a, b, c),
            OpCode::Multiplicar => self.op_aritmetica(anfitrion, op, pc_op, a, b, c),
            OpCode::Dividir => self.op_aritmetica(anfitrion, op, pc_op, a, b, c),
            OpCode::Modulo => self.op_aritmetica(anfitrion, op, pc_op, a, b, c),
            OpCode::Potencia => self.op_aritmetica(anfitrion, op, pc_op, a, b, c),
            OpCode::Menor => self.op_aritmetica(anfitrion, op, pc_op, a, b, c),
            OpCode::MenorIgual => self.op_aritmetica(anfitrion, op, pc_op, a, b, c),
            OpCode::BitAnd => self.op_aritmetica(anfitrion, op, pc_op, a, b, c),
            OpCode::BitOr => self.op_aritmetica(anfitrion, op, pc_op, a, b, c),
            OpCode::BitXor => self.op_aritmetica(anfitrion, op, pc_op, a, b, c),
            OpCode::ShiftIzq => self.op_aritmetica(anfitrion, op, pc_op, a, b, c),
            OpCode::ShiftDer => self.op_aritmetica(anfitrion, op, pc_op, a, b, c),
            OpCode::Igual => self.op_igual(a, b, c),
            OpCode::Not => self.op_unaria_en(op, a, b),
            OpCode::Negativo => self.op_unaria_en(op, a, b),
            OpCode::BitNot => self.op_unaria_en(op, a, b),
            OpCode::Imprimir => {
                let ra = self.base_pointer + a;
                if ra >= self.registers.len() {
                    Err(ErrorVm::RegistroFueraDeRango)
                } else {
                    let v = self.registers[ra];
                    let t = self.texto_de_valor(anfitrion, v, FUEL_TEXTO);
                    anfitrion.imprimir(t.as_str());
                    Ok(())
                }
            },
            OpCode::Retornar => {
                let ra = self.base_pointer + a;
                if ra >= self.registers.len() {
                    Err(ErrorVm::RegistroFueraDeRango)
                } else {
                    let resultado = self.registers[ra];
                    match self.frames.pop() {
                        None => {
                            return Ok(Paso::Termina(resultado));
                        },
                        Some(marco) => {
                            if marco.pc > chunk.code.len() {
                                Err(ErrorVm::SaltoFueraDeRango)
                            } else {
                                self.pc = marco.pc;
                                self.base_pointer = marco.base_pointer;
                                if marco.return_reg != usize::MAX {
                                    if marco.return_reg < self.registers.len() {
                                        self.registers[marco.return_reg] = resultado;
                                    }
                                }
                                Ok(())
                            }
                        },
                    }
                }
            },
            OpCode::Saltar => {
                if chunk.code.len() - self.pc < bx {
                    Err(ErrorVm::SaltoFueraDeRango)
                } else {
                    self.pc = self.pc + bx;
                    Ok(())
                }
            },
            OpCode::SaltarAtras => {
                if bx > self.pc {
                    Err(ErrorVm::SaltoFueraDeRango)
                } else {
                    self.pc = self.pc - bx;
                    Ok(())
                }
            },
            OpCode::SaltarSiFalso => {
                let ra = self.base_pointer + a;
                if ra >= self.registers.len() {
                    Err(ErrorVm::RegistroFueraDeRango)
                } else if self.registers[ra].es_falsa() {
                    if chunk.code.len() - self.pc < bx {
                        Err(ErrorVm::SaltoFueraDeRango)
                    } else {
                        self.pc = self.pc + bx;
                        Ok(())
                    }
                } else {
                    Ok(())
                }
            },
            OpCode::Llamar => self.op_llamar(chunk, anfitrion, a, b, c),
            OpCode::ObtenerGlobal => self.op_obtener_global(chunk, a, bx),
            OpCode::DefinirGlobal => self.op_definir_global(chunk, a, bx),
            OpCode::CrearLista => self.op_crear_lista(a, b, c),
            OpCode::CrearDiccionario => self.op_crear_diccionario(a, b, c),
            OpCode::AccederIndice => self.op_acceder_indice(a, b, c),
            OpCode::AsignarIndice => self.op_asignar_indice(a, b, c),
            OpCode::AccederPropiedad => self.op_acceder_propiedad(chunk, pc_op, a, b, c),
            OpCode::AsignarPropiedad => self.op_asignar_propiedad(chunk, a, b, c),
            OpCode::CrearClase => self.op_crear_clase(chunk, a, b, c),
            OpCode::Metodo => self.op_metodo(chunk, a, b, c),
            OpCode::PushTry => {
                if chunk.code.len() - self.pc < bx {
                    Err(ErrorVm::SaltoFueraDeRango)
                } else if self.try_stack.len() >= usize::MAX {
                    Err(ErrorVm::MemoriaAgotada)
                } else {
                    let ghost pila_antes = self.try_stack@;
                    self.try_stack.push(
                        TryHandler {
                            catch_pc: self.pc + bx,
                            frame_count: self.frames.len(),
                            base_pointer: self.base_pointer,
                        },
                    );
                    proof {
                        assert forall|i: int|
                            0 <= i < self.try_stack@.len() implies (
                        #[trigger] self.try_stack@[i]).base_pointer <= MAX_REGISTERS by {
                            if i < pila_antes.len() {
                                assert(self.try_stack@[i] == pila_antes[i]);
                            }
                        }
                    }
                    Ok(())
                }
            },
            OpCode::PopTry => {
                let _ = self.try_stack.pop();
                Ok(())
            },
            OpCode::Lanzar => {
                let ra = self.base_pointer + a;
                if ra >= self.registers.len() {
                    Err(ErrorVm::RegistroFueraDeRango)
                } else {
                    let err = self.registers[ra];
                    if self.desenrollar(chunk, err) {
                        Ok(())
                    } else {
                        proof {
                            reveal_strlit("excepcion no capturada: ");
                        }
                        let mut m: String = "excepcion no capturada: ".to_owned();
                        let t = self.texto_de_valor(anfitrion, err, FUEL_TEXTO);
                        m.append(t.as_str());
                        return Err(m);
                    }
                }
            },
            OpCode::ObtenerError => {
                let ra = self.base_pointer + a;
                if ra >= self.registers.len() {
                    Err(ErrorVm::RegistroFueraDeRango)
                } else {
                    let mut sacado: Option<Value> = None;
                    core::mem::swap(&mut self.last_error, &mut sacado);
                    match sacado {
                        Some(e) => {
                            self.registers[ra] = e;
                        },
                        None => {
                            self.registers[ra] = Value::nulo();
                        },
                    }
                    Ok(())
                }
            },
            OpCode::Importar => self.op_importar(chunk, a, bx),
            OpCode::AsyncCall => {
                let ra = self.base_pointer + a;
                if ra >= self.registers.len() {
                    Err(ErrorVm::RegistroFueraDeRango)
                } else {
                    match self.alloc_object(
                        Obj::Promesa(Promesa { estado: EstadoPromesa::Resuelta(Value::nulo()) }),
                    ) {
                        Ok(v) => {
                            self.registers[ra] = v;
                            Ok(())
                        },
                        Err(e) => Err(e),
                    }
                }
            },
            OpCode::Await => {
                match self.op_await(a, b) {
                    Ok(None) => Ok(()),
                    Ok(Some(err)) => {
                        // A rejected promise throws its value.
                        if self.desenrollar(chunk, err) {
                            Ok(())
                        } else {
                            proof {
                                reveal_strlit("excepcion no capturada: ");
                            }
                            let mut m: String = "excepcion no capturada: ".to_owned();
                            let t = self.texto_de_valor(anfitrion, err, FUEL_TEXTO);
                            m.append(t.as_str());
                            return Err(m);
                        }
                    },
                    Err(e) => Err(e),
                }
            },
        };
        match paso {
            Ok(()) => {},
            Err(e) => {
                match self.error_o_fatal(chunk, anfitrion, e) {
                    Ok(()) => {},
                    Err(m) => {
                        return Err(m);
                    },
                }
            },
        }
        Ok(Paso::Sigue)
    }

    /// Bring a word returned by native code back into the value
    /// model: plain double bits holding an exact 32-bit integer become
    /// the integer tag the interpreter would have produced; everything
    /// else is kept bit for bit.
    pub fn normaliza_retorno(v: Value) -> (r: Value)
        ensures
            r == Value::normaliza_retorno_s(v),
    {
        if (v.0 & crate::value::QNAN) != crate::value::QNAN {
            match crate::numbits::entero_de_bits_doble(v.0) {
                Some(n) => Value::entero(n),
                None => v,
            }
        } else {
            v
        }
    }

    /// Unwind a runtime error into the nearest handler as a text
    /// object, or report it as fatal.  A pending promise is always
    /// fatal, as is running out of object memory for the error text.
    fn error_o_fatal<A: Anfitrion>(
        &mut self,
        chunk: &Chunk,
        anfitrion: &mut A,
        e: ErrorVm,
    ) -> (r: Result<(), String>)
        requires
            old(self).wf(),
        ensures
            final(self).wf(),
            r is Ok ==> final(self).pc_s() <= chunk.code@.len(),
            r is Err ==> final(self).pc_s() == old(self).pc_s(),
    {
        let fatal = match &e {
            ErrorVm::PromesaPendiente => true,
            _ => false,
        };
        let mensaje = e.texto();
        if fatal {
            return Err(mensaje);
        }
        if !self.object_table.espacio() {
            return Err(mensaje);
        }
        let texto_err = self.object_table.alojar(Obj::Texto(mensaje.clone()));
        if self.desenrollar(chunk, Value::from_handle(texto_err)) {
            Ok(())
        } else {
            Err(mensaje)
        }
    }

} // impl VM

/// A pushed frame with an in-range window keeps all windows in range.
proof fn lema_marcos_push(antes: Seq<CallFrame>, despues: Seq<CallFrame>)
    requires
        forall|i: int| 0 <= i < antes.len() ==> (#[trigger] antes[i]).base_pointer <= MAX_REGISTERS,
        despues.len() == antes.len() + 1,
        forall|i: int| 0 <= i < antes.len() ==> despues[i] == antes[i],
        despues[antes.len() as int].base_pointer <= MAX_REGISTERS,
    ensures
        forall|i: int|
            0 <= i < despues.len() ==> (#[trigger] despues[i]).base_pointer <= MAX_REGISTERS,
{
}

/// Look a key up in a plain (key, value) cache.
fn busca_usize(l: &Vec<(usize, usize)>, k: usize) -> (r: Option<usize>)
{
    let mut i: usize = 0;
    while i < l.len()
        decreases l@.len() - i,
    {
        if l[i].0 == k {
            return Some(l[i].1);
        }
        i = i + 1;
    }
    None
}

/// Bind a key in a plain (key, value) cache.
fn pone_usize(l: &mut Vec<(usize, usize)>, k: usize, v: usize) {
    let mut i: usize = 0;
    while i < l.len()
        decreases l@.len() - i,
    {
        if l[i].0 == k {
            l[i] = (k, v);
            return ;
        }
        i = i + 1;
    }
    if l.len() < usize::MAX {
        l.push((k, v));
    }
}

/// Saturating increment of a keyed counter; absent keys start at one.
fn incrementa_contador(l: &mut Vec<(usize, u32)>, k: usize) -> (r: u32) {
    let mut i: usize = 0;
    while i < l.len()
        decreases l@.len() - i,
    {
        if l[i].0 == k {
            let n = if l[i].1 == u32::MAX {
                u32::MAX
            } else {
                l[i].1 + 1
            };
            l[i] = (k, n);
            return n;
        }
        i = i + 1;
    }
    if l.len() < usize::MAX {
        l.push((k, 1));
    }
    1
}

/// Zero a keyed counter so a later retry can requalify.
fn reinicia_contador(l: &mut Vec<(usize, u32)>, k: usize) {
    let mut i: usize = 0;
    while i < l.len()
        decreases l@.len() - i,
    {
        if l[i].0 == k {
            l[i] = (k, 0);
            return ;
        }
        i = i + 1;
    }
}


/// What a property read resolved to.
enum AccionProp {
    Campo(Value, u32, usize),
    Directo(Value),
    Atar(Value),
    EnClase(u32),
    NoHay,
}



} // verus!
