//! A compiler for a small expression language targeting x86-64 assembly,
//! with the value handling of the runtime it links against.
//!
//! The pipeline: an S-expression tree (`sexpr`) parses to an abstract
//! syntax tree (`ast`, `parser`); the depth analysis (`depth`) sizes each
//! activation record; the code generator (`compiler`) lowers expressions to
//! an instruction stream (`instr`) printed as assembly text (`emit`).  The
//! runtime side (`runtime`) decodes the program argument, prints and
//! compares tagged values (`values`), and renders error messages.  A
//! reference semantics (`semantics`) and instruction-shape laws (`laws`)
//! state what the emitted code and the runtime are held to.

pub mod ast;
pub mod compiler;
pub mod depth;
pub mod emit;
pub mod envmap;
pub mod instr;
pub mod laws;
pub mod numfmt;
pub mod parser;
pub mod runtime;
pub mod semantics;
pub mod sexpr;
pub mod values;
