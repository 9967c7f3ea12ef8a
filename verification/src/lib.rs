//! Core of a reverse-engineering sandbox: a breakpoint table shared between a
//! controller and a hooked target, the software breakpoints armed through it,
//! image and symbol resolution over plain bytes, and a disassembly stream that
//! steps over junk bytes hidden behind opaque short branches.

pub mod address;
pub mod assembly;
pub mod breakpoint;
pub mod cfo;
pub mod dump;
pub mod image;
pub mod label;
pub mod location;
pub mod module;
pub mod output;
pub mod project;
pub mod raw;
pub mod source;
pub mod table;
pub mod text;
pub mod window;
