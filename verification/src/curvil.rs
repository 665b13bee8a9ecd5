//! Curvilinear internal coordinates, represented only by the indices into
//! the geometry (1-based, as the report prints them).

use vstd::prelude::*;

verus! {

/// An inputted curvilinear internal coordinate.
#[derive(Clone, Copy, Debug, PartialEq, Eq, Structural)]
pub enum Curvil {
    Bond(usize, usize),
    Angle(usize, usize, usize),
    Torsion(usize, usize, usize, usize),
    /// a linear bend
    Linear(usize, usize, usize),
}

} // verus!
