//! Heap objects and string-keyed association lists.
//!
//! The object table owns every heap object; values refer to them only
//! through generational handles.  Classes refer to their parent and
//! instances to their class by handle as well, so the whole heap graph
//! lives inside one table.  String-keyed maps (globals, dictionary
//! entries, class methods, instance fields) are association lists with
//! first-match lookup; insertion replaces the first matching entry, so
//! keys stay unique when they start unique.

use vstd::prelude::*;

use crate::value::Value;

verus! {

/// State of a promise; the machine resolves promises eagerly.
#[derive(Clone, Debug)]
pub enum EstadoPromesa {
    Pendiente,
    Resuelta(Value),
    Rechazada(Value),
}

#[derive(Clone, Debug)]
pub struct Promesa {
    pub estado: EstadoPromesa,
}

/// A (receiver, method) pair produced when a property lookup resolves
/// to a method; the next call injects the receiver as first argument.
#[derive(Clone, Debug)]
pub struct MetodoAtado {
    pub receptor: Value,
    pub metodo: Value,
}

/// A class: name, method map, and the handle of the optional parent
/// class; method lookup walks the parent chain.
#[derive(Clone, Debug)]
pub struct Clase {
    pub nombre: String,
    pub metodos: Vec<(String, Value)>,
    pub padre: Option<u32>,
}

/// An instance: the handle of its class and a field map; fields are
/// created by assignment, never declared.
#[derive(Clone, Debug)]
pub struct Instancia {
    pub clase: u32,
    pub campos: Vec<(String, Value)>,
}

/// A heap object.
#[derive(Clone, Debug)]
pub enum Obj {
    Texto(String),
    Lista(Vec<Value>),
    Diccionario(Vec<(String, Value)>),
    Clase(Clase),
    Instancia(Instancia),
    MetodoAtado(MetodoAtado),
    Promesa(Promesa),
}

/// First-match lookup in an association list.
pub open spec fn asoc_busca_s(l: Seq<(String, Value)>, k: Seq<char>) -> Option<Value>
    decreases l.len(),
{
    if l.len() == 0 {
        None
    } else if l[0].0@ == k {
        Some(l[0].1)
    } else {
        asoc_busca_s(l.drop_first(), k)
    }
}

/// Updating the first entry that holds a key changes exactly that
/// key's lookup.
proof fn lema_asoc_actualiza(l: Seq<(String, Value)>, i: int, v: Value, k2: Seq<char>)
    requires
        0 <= i < l.len(),
        forall|j: int| 0 <= j < i ==> l[j].0@ != l[i].0@,
    ensures
        asoc_busca_s(l.update(i, (l[i].0, v)), k2) == if k2 == l[i].0@ {
            Some(v)
        } else {
            asoc_busca_s(l, k2)
        },
    decreases i,
{
    let lu = l.update(i, (l[i].0, v));
    if i == 0 {
        assert(lu.drop_first() =~= l.drop_first());
    } else {
        assert(lu[0] == l[0]);
        assert(lu.drop_first() =~= l.drop_first().update(i - 1, (l[i].0, v)));
        assert(l.drop_first()[i - 1] == l[i]);
        lema_asoc_actualiza(l.drop_first(), i - 1, v, k2);
    }
}

/// Appending an entry changes only the lookup of keys that were absent.
proof fn lema_asoc_agrega(l: Seq<(String, Value)>, k: String, v: Value, k2: Seq<char>)
    ensures
        asoc_busca_s(l.push((k, v)), k2) == if asoc_busca_s(l, k2) is Some {
            asoc_busca_s(l, k2)
        } else if k2 == k@ {
            Some(v)
        } else {
            None::<Value>
        },
    decreases l.len(),
{
    if l.len() == 0 {
        assert(l.push((k, v)).drop_first() =~= Seq::<(String, Value)>::empty());
    } else {
        assert(l.push((k, v))[0] == l[0]);
        assert(l.push((k, v)).drop_first() =~= l.drop_first().push((k, v)));
        lema_asoc_agrega(l.drop_first(), k, v, k2);
    }
}

/// Look a key up in an association list.
pub fn asoc_busca(l: &Vec<(String, Value)>, k: &String) -> (r: Option<Value>)
    ensures
        r == asoc_busca_s(l@, k@),
{
    let mut i: usize = 0;
    proof {
        assert(l@.skip(0) =~= l@);
    }
    while i < l.len()
        invariant
            i <= l@.len(),
            asoc_busca_s(l@, k@) == asoc_busca_s(l@.skip(i as int), k@),
        decreases l@.len() - i,
    {
        proof {
            assert(l@.skip(i as int)[0] == l@[i as int]);
            assert(l@.skip(i as int).drop_first() =~= l@.skip(i + 1));
        }
        let par = &l[i];
        if par.0 == *k {
            return Some(par.1);
        }
        i = i + 1;
    }
    proof {
        assert(l@.skip(i as int) =~= Seq::<(String, Value)>::empty());
    }
    None
}

/// Position of the first entry holding a key.
pub fn asoc_indice(l: &Vec<(String, Value)>, k: &String) -> (r: Option<usize>)
    ensures
        match r {
            Some(i) => i < l@.len() && l@[i as int].0@ == k@ && asoc_busca_s(l@, k@) == Some(
                l@[i as int].1,
            ),
            None => asoc_busca_s(l@, k@) is None,
        },
{
    let mut i: usize = 0;
    proof {
        assert(l@.skip(0) =~= l@);
    }
    while i < l.len()
        invariant
            i <= l@.len(),
            asoc_busca_s(l@, k@) == asoc_busca_s(l@.skip(i as int), k@),
        decreases l@.len() - i,
    {
        proof {
            assert(l@.skip(i as int)[0] == l@[i as int]);
            assert(l@.skip(i as int).drop_first() =~= l@.skip(i + 1));
        }
        if l[i].0 == *k {
            return Some(i);
        }
        i = i + 1;
    }
    proof {
        assert(l@.skip(i as int) =~= Seq::<(String, Value)>::empty());
    }
    None
}

/// Bind a key: replace the first entry holding it, or append one.
/// Every other key reads as before.
pub fn asoc_pone(l: &mut Vec<(String, Value)>, k: String, v: Value)
    requires
        old(l)@.len() < usize::MAX,
    ensures
        forall|k2: Seq<char>|
            #[trigger] asoc_busca_s(final(l)@, k2) == if k2 == k@ {
                Some(v)
            } else {
                asoc_busca_s(old(l)@, k2)
            },
        final(l)@.len() <= old(l)@.len() + 1,
{
    let mut i: usize = 0;
    while i < l.len()
        invariant
            i <= l@.len(),
            l@ == old(l)@,
            forall|j: int| 0 <= j < i ==> l@[j].0@ != k@,
        decreases l@.len() - i,
    {
        if l[i].0 == k {
            let clave = l[i].0.clone();
            let ghost viejo = l@;
            l[i] = (clave, v);
            proof {
                assert(l@ =~= viejo.update(i as int, (viejo[i as int].0, v)));
                assert forall|k2: Seq<char>|
                    #[trigger] asoc_busca_s(l@, k2) == if k2 == k@ {
                        Some(v)
                    } else {
                        asoc_busca_s(viejo, k2)
                    } by {
                    lema_asoc_actualiza(viejo, i as int, v, k2);
                }
            }
            return ;
        }
        i = i + 1;
    }
    let ghost viejo = l@;
    proof {
        lema_asoc_ausente(viejo, k@);
    }
    l.push((k, v));
    proof {
        assert forall|k2: Seq<char>|
            #[trigger] asoc_busca_s(l@, k2) == if k2 == k@ {
                Some(v)
            } else {
                asoc_busca_s(viejo, k2)
            } by {
            lema_asoc_agrega(viejo, k, v, k2);
        }
    }
}

/// A key held by no entry reads as absent.
proof fn lema_asoc_ausente(l: Seq<(String, Value)>, k: Seq<char>)
    requires
        forall|j: int| 0 <= j < l.len() ==> l[j].0@ != k,
    ensures
        asoc_busca_s(l, k) is None,
    decreases l.len(),
{
    if l.len() > 0 {
        lema_asoc_ausente(l.drop_first(), k);
    }
}

} // verus!
