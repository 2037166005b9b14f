//! Compile targets and modes.

use vstd::prelude::*;

verus! {

/// Which runtime the emitted snapshot must run under.
#[derive(Clone, Copy, PartialEq, Eq, Structural, Debug)]
#[allow(non_camel_case_types)]
pub enum TransformTarget {
    LEPUS,
    JS,
    MIXED,
}

/// What the surrounding toolchain is compiling for.
#[derive(Clone, Copy, PartialEq, Eq, Structural, Debug)]
pub enum TransformMode {
    Production,
    Development,
    Test,
}

} // verus!
