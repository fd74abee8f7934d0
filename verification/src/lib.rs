//! Template formatting: literal text and value slots are compiled into the
//! cheapest shape that reproduces the template's output, and rendered lazily
//! into a sink.

pub mod str;
pub mod utils;
pub mod writable;
pub mod write;
pub mod number;
pub mod ansi;
pub mod value;
pub mod template;
pub mod render;
pub mod stage1;
pub mod stage2;
pub mod compile;
pub mod laws;
pub mod write_to;
pub mod terminal;
