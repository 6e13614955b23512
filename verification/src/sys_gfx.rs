//! Backend identification as the low-level binding layer reports it.

use vstd::prelude::*;

verus! {

/// Which rendering backend the low-level bindings were built against.
#[derive(Debug, PartialEq, Eq, Structural)]
pub enum SgApi {
    Direct3D11,
    Metal,
    OpenGL33,
}

/// The rendering backend this build targets.
pub fn sg_api() -> (r: SgApi)
    ensures
        r == SgApi::OpenGL33,
{
    SgApi::OpenGL33
}

} // verus!
