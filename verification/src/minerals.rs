use vstd::prelude::*;

verus! {

/// The mineral phases whose grain orientations are modeled. Each grain
/// orientation record carries one Euler-angle triple per phase.
#[derive(Clone, Copy, PartialEq, Eq, Structural, Debug)]
pub enum Mineral {
    Olivine,
    Enstatite,
}

} // verus!
