//! A small virtual machine for a stack-based bytecode language, together with
//! a macro/template expansion engine that generates concrete byte-code
//! programs from parameterized templates, and a verifier that executes
//! generated programs to check structural invariants.
//!
//! Data flows one direction: template + arguments are expanded into a flat
//! byte program, the stack machine interprets that program over a pair of
//! stacks of byte strings, and the verifier reports pass/fail per the
//! language's truthiness rule.

pub mod digest;
pub mod errors;
pub mod expand;
pub mod machine;
pub mod num;
pub mod protocols;
pub mod runtime;
pub mod script;
pub mod templates;
pub mod types;
pub mod verify;
