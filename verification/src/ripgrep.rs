//! The native (ripgrep-based) search's own rule for binary files.
use vstd::prelude::*;
use crate::search::{has_ext, has_ext_exec, native_binary_exts};

verus! {

/// Whether a file is skipped as binary by its name: the native search also
/// skips compiled Java and Python files.
pub fn is_binary(name: &str) -> (r: bool)
    ensures
        r == has_ext(name@, native_binary_exts()),
{
    has_ext_exec(name, true)
}

} // verus!
