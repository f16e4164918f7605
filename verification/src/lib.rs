//! Execution core of a register-based bytecode virtual machine with
//! NaN-boxed values, a generational object table, structured exception
//! handling, runtime type-feedback caches and a hotspot-driven JIT tier.
//!
//! The crate is organised leaf-first: `value` defines the 64-bit boxed
//! value representation, `chunk` the 32-bit instruction encoding,
//! `table` the heap, `compiler` lowers an AST to a chunk, and `vm`
//! drives the dispatch loop.  Native functions, printing of
//! floating-point numbers and the native-code backend reach the VM
//! through the `Anfitrion` trait so that embedders can supply them.

pub mod arith;
pub mod asoc;
pub mod ast;
pub mod chunk;
pub mod compiler;
pub mod cifras;
pub mod hotspot;
pub mod inline_cache;
pub mod jitplan;
pub mod numbits;
pub mod object;
pub mod resources;
pub mod specialization;
pub mod table;
pub mod value;
pub mod vm;

pub use value::Value;
