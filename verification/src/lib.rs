//! A compiler from a small imperative language to a netlist of parts wired
//! by pins.
//!
//! A program is a list of function definitions. Each function compiles to a
//! circuit: its parameters become input pins of the circuit, every operator
//! becomes a part, every call embeds a copy of the called function's circuit,
//! and every return becomes an output pin. The circuit of `main` is the
//! result.
//!
//! What the compiler does is first said as mathematics, in `lowering`, and
//! the translator is proved to compute just that. What holds of every
//! compiled circuit is proved in `laws` and `fan_in`.

pub mod ast;
pub mod builder;
pub mod circuit;
pub mod error;
pub mod fan_in;
pub mod laws;
pub mod literal;
pub mod lowering;
pub mod parts;
pub mod scope;
pub mod syntax;
pub mod translator;
