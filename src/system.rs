//! Facts about the machine the launcher runs on.

use vstd::layout::size_of;
use vstd::prelude::*;
use vstd::string::StringExecFns;

verus! {

/// The architecture name of this build: "x64" where pointers take eight
/// bytes, "x86" elsewhere.
pub fn arch() -> (r: String)
    ensures
        size_of::<usize>() == 8 ==> r@ == "x64"@,
        size_of::<usize>() != 8 ==> r@ == "x86"@,
{
    let pointer_size = core::mem::size_of::<usize>();
    if pointer_size == 8 {
        String::from_str("x64")
    } else {
        String::from_str("x86")
    }
}

} // verus!
