//! Partial message types mirroring esbuild's plugin diagnostics, which the
//! surrounding toolchain exchanges with its host bundler.

use vstd::prelude::*;

verus! {

#[derive(PartialEq, Clone, Debug)]
pub struct PartialLocation {
    pub file: Option<String>,
    pub namespace: Option<String>,
    pub line: Option<u32>,
    pub column: Option<u32>,
    pub length: Option<u32>,
    pub line_text: Option<String>,
    pub suggestion: Option<String>,
}

#[derive(PartialEq, Clone, Debug)]
pub struct PartialNote {
    pub text: Option<String>,
    pub location: Option<PartialLocation>,
}

#[derive(PartialEq, Clone, Debug)]
pub struct PartialMessage {
    pub id: Option<String>,
    pub plugin_name: Option<String>,
    pub text: Option<String>,
    pub location: Option<PartialLocation>,
    pub notes: Option<Vec<PartialNote>>,
    pub detail: Option<String>,
}

} // verus!
