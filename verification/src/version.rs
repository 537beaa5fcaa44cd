//! The host's version identity.
use vstd::prelude::*;

verus! {

/// The version of the host. A shared library is accepted only if the version
/// it declares is this string, character for character.
pub const VERSION: &'static str = "0.1.0";

/// Whether a library that declares `declared` as its target may be used by
/// this host: the two strings must be equal.
pub fn is_compatible(declared: &str) -> (r: bool)
    ensures
        r == (declared@ == VERSION@),
{
    let ours: String = VERSION.to_owned();
    let theirs: String = declared.to_owned();
    ours == theirs
}

} // verus!
