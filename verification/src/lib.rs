//! A pull parser and emitter for the git fast-import wire format, together
//! with the validation routines (reference-name format, data-section
//! framing) that guard both.
//!
//! The parser consumes one command at a time from a stream held in memory;
//! blob payloads are read separately, in counted or delimited framing,
//! through a reader opened from the parsed blob. The emitters serialize the
//! data model back to the wire format, preferring the delimited form for
//! `data` sections only when it is safe, and every emitted byte is pinned
//! by a spec-level rendering function.

pub mod ast;
pub mod bytes;
pub mod command;
pub mod commit;
pub mod data;
pub mod dump;
pub mod input;
pub mod keywords;
pub mod num;
pub mod parser;
pub mod pool;
pub mod pretty;
pub mod quote;
pub mod refs;
