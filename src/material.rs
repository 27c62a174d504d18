use vstd::prelude::*;

verus! {

/// The material of a surface that absorbs every ray that reaches it.
///
/// It never scatters, so a path that ends on it contributes no light.
pub struct DefaultMaterial;

} // verus!
