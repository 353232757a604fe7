//! Small helpers shared by the lifecycle layer.

use vstd::prelude::*;
use vstd::string::StringSliceAdditionalSpecFns;
use vstd::string::StringExecFns;

verus! {

/// The null handle that a failed native open or allocation returns.
pub fn is_null(handle: u64) -> (r: bool)
    ensures
        r == (handle == 0),
{
    handle == 0
}

/// The string's byte form holds an embedded NUL, so it cannot take the
/// native (NUL-terminated) string representation.
pub open spec fn has_nul(s: &str) -> bool {
    exists|i: int| 0 <= i < s.spec_bytes().len() && s.spec_bytes()[i] == 0
}

/// Checks a string for an embedded NUL byte.
pub fn str_has_nul(s: &str) -> (r: bool)
    ensures
        r == has_nul(s),
{
    let b = s.as_bytes();
    let mut i: usize = 0;
    while i < b.len()
        invariant
            i <= b@.len(),
            b@ =~= s.spec_bytes(),
            forall|j: int| 0 <= j < i ==> s.spec_bytes()[j] != 0,
        decreases b@.len() - i,
    {
        if b[i] == 0 {
            return true;
        }
        i = i + 1;
    }
    false
}

/// The conventional file name of the bitstream for a kernel `name` under an
/// execution `mode` tag: `<name>_<mode>.xclbin`. Which mode applies is the
/// caller's configuration, passed in rather than read from the environment.
pub fn xclbin_path_for(name: &str, mode: &str) -> (r: String)
    ensures
        r@ == name@ + "_"@ + mode@ + ".xclbin"@,
{
    let s = name.to_owned();
    let s = s.concat("_");
    let s = s.concat(mode);
    let s = s.concat(".xclbin");
    s
}

} // verus!
