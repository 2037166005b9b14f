//! Compile-time front end that partitions a JSX template into a static
//! element-construction program and a minimal, positionally indexed list of
//! runtime-patchable dynamic parts.

pub mod ast;
pub mod attr_name;
pub mod diag;
pub mod emit;
pub mod esbuild;
pub mod extract;
pub mod hashes;
pub mod jsx;
pub mod laws;
pub mod marker;
pub mod snapshot;
pub mod strutil;
pub mod style;
pub mod target;
pub mod text;
pub mod worklet;
