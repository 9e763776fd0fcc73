//! Kinds of entries of the formal state log that the library itself names.

use vstd::prelude::*;

verus! {

/// Source of a button event (real hardware or a test injection).
#[derive(Debug, Clone, Copy, PartialEq, Eq, Structural)]
pub enum ButtonSource {
    Hardware,
    TestInjectionA,
    TestInjectionB,
}

} // verus!
