use vstd::prelude::*;

verus! {

/// The crystal axis of a pole figure. A rotation matrix's rows are the A-,
/// B- and C-axis unit vectors of one grain in the sample reference frame.
#[derive(Clone, Copy, PartialEq, Eq, Structural, Debug)]
pub enum CrystalAxes {
    AAxis,
    BAxis,
    CAxis,
}

} // verus!
