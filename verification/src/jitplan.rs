//! Control-flow reconstruction for the native-code backend.
//!
//! Starting from a function's entry, a breadth-first walk follows
//! fallthroughs and both sides of conditional jumps; returns and
//! unconditional jumps end a block.  The discovered block starts come
//! back sorted and duplicate-free, ready to become basic blocks of the
//! target representation.  A companion scan reports whether every
//! reachable instruction is one the integer-specialized backend can
//! lower; anything else leaves the function to the interpreter.

use vstd::prelude::*;

use crate::chunk::{Chunk, OpCode};

verus! {

/// Strictly ascending, hence duplicate-free.
pub open spec fn ordenado_unico(s: Seq<usize>) -> bool {
    forall|i: int, j: int| 0 <= i < j < s.len() ==> s[i] < s[j]
}

/// Insert a value into a sorted list, keeping it sorted and
/// duplicate-free; reports whether the value was new.
fn inserta_ordenado(l: &mut Vec<usize>, v: usize) -> (r: bool)
    requires
        ordenado_unico(old(l)@),
        old(l)@.len() < usize::MAX,
    ensures
        ordenado_unico(final(l)@),
        final(l)@.contains(v),
        forall|x: usize| #[trigger] final(l)@.contains(x) <==> (old(l)@.contains(x) || x == v),
        r == !old(l)@.contains(v),
        final(l)@.len() <= old(l)@.len() + 1,
{
    let mut i: usize = 0;
    while i < l.len()
        invariant
            i <= l@.len(),
            l@ == old(l)@,
            ordenado_unico(l@),
            forall|j: int| 0 <= j < i ==> l@[j] < v,
        decreases l@.len() - i,
    {
        if l[i] == v {
            proof {
                assert(l@[i as int] == v);
            }
            return false;
        }
        if l[i] > v {
            let ghost antes = l@;
            l.insert(i, v);
            proof {
                lema_inserta(antes, i as int, v);
            }
            return true;
        }
        i = i + 1;
    }
    let ghost antes = l@;
    proof {
        assert(!antes.contains(v)) by {
            if antes.contains(v) {
                let j = choose|j: int| 0 <= j < antes.len() && antes[j] == v;
            }
        }
    }
    l.push(v);
    proof {
        assert forall|x: usize| #[trigger] l@.contains(x) implies (antes.contains(x) || x
            == v) by {
            let j = choose|j: int| 0 <= j < l@.len() && l@[j] == x;
            if j < antes.len() {
                assert(antes[j] == x);
            }
        }
        assert forall|x: usize| antes.contains(x) implies #[trigger] l@.contains(x) by {
            let j = choose|j: int| 0 <= j < antes.len() && antes[j] == x;
            assert(l@[j] == x);
        }
        assert(l@[l@.len() - 1] == v);
        assert forall|i2: int, j2: int| 0 <= i2 < j2 < l@.len() implies l@[i2] < l@[j2] by {
            if j2 < antes.len() {
                assert(l@[i2] == antes[i2] && l@[j2] == antes[j2]);
            } else {
                assert(l@[i2] == antes[i2]);
            }
        }
    }
    true
}

/// Inserting in the middle of a sorted list keeps it sorted; the
/// contents gain exactly the new value.
proof fn lema_inserta(l: Seq<usize>, i: int, v: usize)
    requires
        ordenado_unico(l),
        0 <= i <= l.len(),
        forall|j: int| 0 <= j < i ==> l[j] < v,
        forall|j: int| i <= j < l.len() ==> l[j] > v,
    ensures
        ordenado_unico(l.insert(i, v)),
        l.insert(i, v).contains(v),
        forall|x: usize| #[trigger] l.insert(i, v).contains(x) <==> (l.contains(x) || x == v),
        l.insert(i, v).len() == l.len() + 1,
{
    let li = l.insert(i, v);
    assert(li[i] == v);
    assert forall|a: int, b: int| 0 <= a < b < li.len() implies li[a] < li[b] by {
        if a < i {
            assert(li[a] == l[a]);
        } else if a > i {
            assert(li[a] == l[a - 1]);
        }
        if b < i {
            assert(li[b] == l[b]);
        } else if b > i {
            assert(li[b] == l[b - 1]);
        }
    }
    assert forall|x: usize| #[trigger] li.contains(x) implies (l.contains(x) || x == v) by {
        let j = choose|j: int| 0 <= j < li.len() && li[j] == x;
        if j < i {
            assert(l[j] == x);
        } else if j > i {
            assert(l[j - 1] == x);
        }
    }
    assert forall|x: usize| l.contains(x) implies #[trigger] li.contains(x) by {
        let j = choose|j: int| 0 <= j < l.len() && l[j] == x;
        if j < i {
            assert(li[j] == x);
        } else {
            assert(li[j + 1] == x);
        }
    }
}

/// Note a discovered block start: insert it into the sorted list and,
/// if new, queue it for its own walk.
fn agrega_objetivo(
    bloques: &mut Vec<usize>,
    cola: &mut Vec<usize>,
    v: usize,
    Ghost(limite): Ghost<nat>,
)
    requires
        ordenado_unico(old(bloques)@),
        forall|i: int|
            0 <= i < old(bloques)@.len() ==> (#[trigger] old(bloques)@[i]) as nat <= limite,
        forall|i: int| 0 <= i < old(cola)@.len() ==> (#[trigger] old(cola)@[i]) as nat <= limite,
        v as nat <= limite,
        old(bloques)@.len() < usize::MAX,
        old(cola)@.len() < usize::MAX,
    ensures
        final(bloques)@.len() < usize::MAX,
        final(cola)@.len() < usize::MAX,
        ordenado_unico(final(bloques)@),
        forall|i: int|
            0 <= i < final(bloques)@.len() ==> (#[trigger] final(bloques)@[i]) as nat <= limite,
        forall|i: int|
            0 <= i < final(cola)@.len() ==> (#[trigger] final(cola)@[i]) as nat <= limite,
        forall|x: usize| old(bloques)@.contains(x) ==> #[trigger] final(bloques)@.contains(x),
{
    if bloques.len() < usize::MAX - 1 && cola.len() < usize::MAX - 1 {
        let ghost antes = bloques@;
        let nuevo = inserta_ordenado(bloques, v);
        proof {
            assert forall|i: int|
                0 <= i < bloques@.len() implies (#[trigger] bloques@[i]) as nat <= limite by {
                assert(bloques@.contains(bloques@[i]));
                if antes.contains(bloques@[i]) {
                    let j = choose|j: int| 0 <= j < antes.len() && antes[j] == bloques@[i];
                }
            }
        }
        if nuevo {
            cola.push(v);
        }
    }
}

/// Discover the starts of the basic blocks reachable from an entry:
/// the entry itself, both sides of every conditional jump, and the
/// targets of unconditional jumps, sorted and without duplicates.
/// Every reported start lies within the code (one past the end
/// included, where a fallthrough ends the function).
pub fn descubrir_bloques(chunk: &Chunk, entrada: usize) -> (r: Vec<usize>)
    requires
        entrada <= chunk.code@.len(),
    ensures
        ordenado_unico(r@),
        r@.contains(entrada),
        forall|i: int| 0 <= i < r@.len() ==> (#[trigger] r@[i]) <= chunk.code@.len(),
{
    let mut bloques: Vec<usize> = Vec::new();
    let mut cola: Vec<usize> = Vec::new();
    let _ = inserta_ordenado(&mut bloques, entrada);
    cola.push(entrada);
    let mut presupuesto: usize = if chunk.code.len() < usize::MAX - 2 {
        chunk.code.len() + 2
    } else {
        chunk.code.len()
    };
    while cola.len() > 0 && presupuesto > 0
        invariant
            ordenado_unico(bloques@),
            bloques@.contains(entrada),
            forall|i: int| 0 <= i < bloques@.len() ==> (#[trigger] bloques@[i]) <= chunk.code@.len(),
            forall|i: int| 0 <= i < cola@.len() ==> (#[trigger] cola@[i]) <= chunk.code@.len(),
            bloques@.len() < usize::MAX,
            cola@.len() < usize::MAX,
        decreases presupuesto,
    {
        presupuesto = presupuesto - 1;
        let inicio = match cola.pop() {
            Some(p) => p,
            None => {
                break ;
            },
        };
        let mut pc = inicio;
        while pc < chunk.code.len()
            invariant
                ordenado_unico(bloques@),
                bloques@.contains(entrada),
                forall|i: int|
                    0 <= i < bloques@.len() ==> (#[trigger] bloques@[i]) <= chunk.code@.len(),
                forall|i: int| 0 <= i < cola@.len() ==> (#[trigger] cola@[i]) <= chunk.code@.len(),
                bloques@.len() < usize::MAX,
                cola@.len() < usize::MAX,
            decreases chunk.code@.len() - pc,
        {
            let instr = chunk.code[pc];
            let op = OpCode::desde_byte(crate::chunk::decodificar_op(instr));
            let bx = crate::chunk::decodificar_bx(instr) as usize;
            pc = pc + 1;
            match op {
                Some(OpCode::Saltar) => {
                    if chunk.code.len() - pc >= bx {
                        agrega_objetivo(&mut bloques, &mut cola, pc + bx, Ghost(chunk.code@.len()));
                    }
                    break ;
                },
                Some(OpCode::SaltarSiFalso) => {
                    if chunk.code.len() - pc >= bx {
                        agrega_objetivo(&mut bloques, &mut cola, pc + bx, Ghost(chunk.code@.len()));
                    }
                    agrega_objetivo(&mut bloques, &mut cola, pc, Ghost(chunk.code@.len()));
                    break ;
                },
                Some(OpCode::SaltarAtras) => {
                    if bx <= pc {
                        agrega_objetivo(&mut bloques, &mut cola, pc - bx, Ghost(chunk.code@.len()));
                    }
                    break ;
                },
                Some(OpCode::Retornar) => {
                    break ;
                },
                _ => {},
            }
        }
    }
    bloques
}

/// Block-ending instructions: jumps and returns.
pub open spec fn es_terminador(b: u8) -> bool {
    match OpCode::desde_byte_s(b) {
        Some(op) => op == OpCode::Saltar || op == OpCode::SaltarAtras || op
            == OpCode::SaltarSiFalso || op == OpCode::Retornar,
        None => false,
    }
}

/// Position of the first block-ending instruction at or after `pc`,
/// or the code length when the block runs off the end.
pub open spec fn primer_terminador(code: Seq<u32>, pc: int) -> int
    recommends
        0 <= pc <= code.len(),
    decreases code.len() - pc,
        when 0 <= pc <= code.len()
{
    if pc >= code.len() {
        code.len() as int
    } else if es_terminador(crate::chunk::campo_op(code[pc])) {
        pc
    } else {
        primer_terminador(code, pc + 1)
    }
}

/// Every in-bounds control successor of the block starting at `b` is
/// itself a recorded block start.
pub open spec fn bloque_cerrado(code: Seq<u32>, bs: Seq<usize>, b: usize) -> bool {
    let t = primer_terminador(code, b as int);
    if t >= code.len() {
        true
    } else {
        let instr = code[t];
        let bx = crate::chunk::campo_bx(instr) as int;
        match OpCode::desde_byte_s(crate::chunk::campo_op(instr)) {
            Some(OpCode::Saltar) => t + 1 + bx <= code.len() ==> bs.contains(
                (t + 1 + bx) as usize,
            ),
            Some(OpCode::SaltarSiFalso) => (t + 1 + bx <= code.len() ==> bs.contains(
                (t + 1 + bx) as usize,
            )) && bs.contains((t + 1) as usize),
            Some(OpCode::SaltarAtras) => bx <= t + 1 ==> bs.contains((t + 1 - bx) as usize),
            _ => true,
        }
    }
}

/// The set of block starts is closed: following any discovered block
/// to its terminator only ever reaches recorded starts.
pub open spec fn bloques_cerrados_s(code: Seq<u32>, bs: Seq<usize>) -> bool {
    forall|i: int| 0 <= i < bs.len() ==> bloque_cerrado(code, bs, #[trigger] bs[i])
}

/// A region free of terminators pushes the first terminator past it.
proof fn lema_terminador(code: Seq<u32>, b: int, pc: int)
    requires
        0 <= b <= pc <= code.len(),
        forall|j: int| b <= j < pc ==> !es_terminador(crate::chunk::campo_op(#[trigger] code[j])),
    ensures
        primer_terminador(code, b) == primer_terminador(code, pc),
    decreases pc - b,
{
    if b < pc {
        lema_terminador(code, b + 1, pc);
    }
}

/// Whether a list holds a value.
fn contiene(l: &Vec<usize>, v: usize) -> (r: bool)
    ensures
        r == l@.contains(v),
{
    let mut i: usize = 0;
    while i < l.len()
        invariant
            i <= l@.len(),
            forall|j: int| 0 <= j < i ==> l@[j] != v,
        decreases l@.len() - i,
    {
        if l[i] == v {
            proof {
                assert(l@[i as int] == v);
            }
            return true;
        }
        i = i + 1;
    }
    proof {
        assert(!l@.contains(v)) by {
            if l@.contains(v) {
                let j = choose|j: int| 0 <= j < l@.len() && l@[j] == v;
            }
        }
    }
    false
}

/// Certify that a set of block starts is closed under control flow: a
/// `true` answer is a proof of `bloques_cerrados_s`, so a backend may
/// lower exactly these blocks knowing every jump lands on one of them.
pub fn bloques_cerrados(chunk: &Chunk, bloques: &Vec<usize>) -> (r: bool)
    requires
        forall|i: int| 0 <= i < bloques@.len() ==> (#[trigger] bloques@[i]) <= chunk.code@.len(),
    ensures
        r ==> bloques_cerrados_s(chunk.code@, bloques@),
{
    let mut i: usize = 0;
    while i < bloques.len()
        invariant
            i <= bloques@.len(),
            forall|k: int|
                0 <= k < bloques@.len() ==> (#[trigger] bloques@[k]) <= chunk.code@.len(),
            forall|k: int|
                0 <= k < i ==> bloque_cerrado(chunk.code@, bloques@, #[trigger] bloques@[k]),
        decreases bloques@.len() - i,
    {
        let b = bloques[i];
        let mut pc = b;
        let mut cerrado: bool = false;
        let mut visto_fin: bool = false;
        while pc < chunk.code.len() && !visto_fin
            invariant
                b <= pc <= chunk.code@.len(),
                !visto_fin ==> forall|j: int|
                    b <= j < pc ==> !es_terminador(
                        crate::chunk::campo_op(#[trigger] chunk.code@[j]),
                    ),
                visto_fin ==> cerrado == bloque_cerrado(chunk.code@, bloques@, b),
            decreases chunk.code@.len() - pc, 1int - (if visto_fin {
                1int
            } else {
                0int
            }),
        {
            let instr = chunk.code[pc];
            let byte_op = crate::chunk::decodificar_op(instr);
            let bx = crate::chunk::decodificar_bx(instr) as usize;
            let op = OpCode::desde_byte(byte_op);
            let termina = match op {
                Some(OpCode::Saltar) => true,
                Some(OpCode::SaltarAtras) => true,
                Some(OpCode::SaltarSiFalso) => true,
                Some(OpCode::Retornar) => true,
                _ => false,
            };
            if termina {
                proof {
                    lema_terminador(chunk.code@, b as int, pc as int);
                }
                let objetivo_ok: bool = match op {
                    Some(OpCode::Saltar) => {
                        if chunk.code.len() - (pc + 1) >= bx {
                            contiene(bloques, pc + 1 + bx)
                        } else {
                            true
                        }
                    },
                    Some(OpCode::SaltarSiFalso) => {
                        let adelante = if chunk.code.len() - (pc + 1) >= bx {
                            contiene(bloques, pc + 1 + bx)
                        } else {
                            true
                        };
                        adelante && contiene(bloques, pc + 1)
                    },
                    Some(OpCode::SaltarAtras) => {
                        if bx <= pc + 1 {
                            contiene(bloques, pc + 1 - bx)
                        } else {
                            true
                        }
                    },
                    _ => true,
                };
                cerrado = objetivo_ok;
                visto_fin = true;
            } else {
                pc = pc + 1;
            }
        }
        if !visto_fin {
            proof {
                lema_terminador(chunk.code@, b as int, pc as int);
            }
            cerrado = true;
        }
        if !cerrado {
            return false;
        }
        i = i + 1;
    }
    true
}

/// The opcodes the integer-specialized backend can lower.
pub open spec fn op_soportado_s(b: u8) -> bool {
    match OpCode::desde_byte_s(b) {
        Some(op) => match op {
            OpCode::CargarConstante => true,
            OpCode::Mover => true,
            OpCode::Sumar => true,
            OpCode::Restar => true,
            OpCode::Multiplicar => true,
            OpCode::Dividir => true,
            OpCode::Modulo => true,
            OpCode::BitAnd => true,
            OpCode::BitOr => true,
            OpCode::BitXor => true,
            OpCode::ShiftIzq => true,
            OpCode::ShiftDer => true,
            OpCode::Menor => true,
            OpCode::MenorIgual => true,
            OpCode::Saltar => true,
            OpCode::SaltarAtras => true,
            OpCode::SaltarSiFalso => true,
            OpCode::Retornar => true,
            OpCode::ObtenerGlobal => true,
            OpCode::Llamar => true,
            _ => false,
        },
        None => false,
    }
}

/// Whether every instruction of a block region is one the
/// integer-specialized backend lowers; a region with anything else is
/// left to the interpreter.
pub fn region_soportada(chunk: &Chunk, desde: usize, hasta: usize) -> (r: bool)
    requires
        desde <= hasta <= chunk.code@.len(),
    ensures
        r == forall|i: int|
            desde <= i < hasta ==> op_soportado_s(crate::chunk::campo_op(#[trigger] chunk.code@[i])),
{
    let mut pc = desde;
    while pc < hasta
        invariant
            desde <= pc <= hasta,
            hasta <= chunk.code@.len(),
            forall|i: int|
                desde <= i < pc ==> op_soportado_s(
                    crate::chunk::campo_op(#[trigger] chunk.code@[i]),
                ),
        decreases hasta - pc,
    {
        let instr = chunk.code[pc];
        let soportada = match OpCode::desde_byte(crate::chunk::decodificar_op(instr)) {
            Some(op) => match op {
                OpCode::CargarConstante => true,
                OpCode::Mover => true,
                OpCode::Sumar => true,
                OpCode::Restar => true,
                OpCode::Multiplicar => true,
                OpCode::Dividir => true,
                OpCode::Modulo => true,
                OpCode::BitAnd => true,
                OpCode::BitOr => true,
                OpCode::BitXor => true,
                OpCode::ShiftIzq => true,
                OpCode::ShiftDer => true,
                OpCode::Menor => true,
                OpCode::MenorIgual => true,
                OpCode::Saltar => true,
                OpCode::SaltarAtras => true,
                OpCode::SaltarSiFalso => true,
                OpCode::Retornar => true,
                OpCode::ObtenerGlobal => true,
                OpCode::Llamar => true,
                _ => false,
            },
            None => false,
        };
        if !soportada {
            proof {
                assert(!op_soportado_s(crate::chunk::campo_op(chunk.code@[pc as int])));
            }
            return false;
        }
        pc = pc + 1;
    }
    true
}

} // verus!
