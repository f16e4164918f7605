//! The abstract syntax the bytecode compiler consumes.
//!
//! A front end (lexer, parser, analyzer) produces this tree; the
//! compiler below cares only about its shape.  Number literals arrive
//! either as 32-bit integers or as the raw bits of a double, so the
//! tree itself holds no floating-point value.

use vstd::prelude::*;

verus! {

/// Unary operators.
#[derive(Clone, Copy, PartialEq, Eq, Structural, Debug)]
pub enum OperadorUnario {
    Not,
    Negativo,
    BitNot,
}

/// Binary operators.
#[derive(Clone, Copy, PartialEq, Eq, Structural, Debug)]
pub enum OperadorBinario {
    Suma,
    Resta,
    Multiplicacion,
    Division,
    Modulo,
    Potencia,
    Menor,
    MenorIgual,
    Mayor,
    MayorIgual,
    Igual,
    NoIgual,
    Y,
    O,
    BitAnd,
    BitOr,
    BitXor,
    ShiftIzq,
    ShiftDer,
}

/// Literals; `Decimal` carries the bits of a double.
#[derive(Clone, Debug)]
pub enum Literal {
    Entero(i32),
    Decimal(u64),
    Texto(String),
    Booleano(bool),
    Nulo,
}

/// Expressions.
#[derive(Debug)]
pub enum Expresion {
    Literal(Literal),
    Identificador(String),
    Lista(Vec<Expresion>),
    Diccionario { claves: Vec<Expresion>, valores: Vec<Expresion> },
    AccesoIndice { objeto: Box<Expresion>, indice: Box<Expresion> },
    AccesoAtributo { objeto: Box<Expresion>, atributo: String },
    Llamada { func: Box<Expresion>, args: Vec<Expresion> },
    Binaria { izq: Box<Expresion>, op: OperadorBinario, der: Box<Expresion> },
    Unaria { op: OperadorUnario, exp: Box<Expresion> },
    Await(Box<Expresion>),
}

/// A function parameter.
#[derive(Clone, Debug)]
pub struct Parametro {
    pub nombre: String,
}

/// Statements.
#[derive(Debug)]
pub enum Sentencia {
    Imprimir(Vec<Expresion>),
    Asignacion { objetivo: Expresion, valor: Expresion },
    Expresion(Expresion),
    Funcion { nombre: String, params: Vec<Parametro>, cuerpo: Vec<Sentencia> },
    Clase { nombre: String, herencia: Vec<String>, cuerpo: Vec<Sentencia> },
    Importar { modulo: String, alias: Option<String> },
    TryCatch {
        cuerpo: Vec<Sentencia>,
        variable_error: Option<String>,
        captura: Vec<Sentencia>,
        finalmente: Option<Vec<Sentencia>>,
    },
    Lanzar(Expresion),
    Retornar(Option<Expresion>),
    Si { condicion: Expresion, entonces: Vec<Sentencia>, sino: Option<Vec<Sentencia>> },
    Mientras { condicion: Expresion, cuerpo: Vec<Sentencia> },
}

/// A whole program.
#[derive(Debug)]
pub struct Programa {
    pub sentencias: Vec<Sentencia>,
}

} // verus!
