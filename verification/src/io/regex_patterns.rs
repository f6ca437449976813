//! Patterns of the text formats.

use vstd::prelude::*;

verus! {

/// A stretch of whitespace.
pub const WHITESPACE: &'static str = "\\s+";

/// The synchronisation code and the upper-case digits that follow it.
pub const E225_HEADER: &'static str = "E225[0-9A-F]+";

} // verus!
