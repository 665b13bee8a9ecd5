//! Sextic distortion coefficients, in MHz.

use vstd::prelude::*;

use crate::dec::Dec;
use crate::delta::dec_or_zero;
use crate::delta::unwrap_dec;

verus! {

/// Sextic distortion coefficients.  Which fields are present depends on
/// the Hamiltonian reduction the report used and on whether the molecule is
/// linear.
#[derive(Clone, Copy, Debug, PartialEq, Eq, Structural)]
pub struct Phi {
    // a reduction
    pub big_phi_j: Option<Dec>,
    pub big_phi_k: Option<Dec>,
    pub big_phi_jk: Option<Dec>,
    pub big_phi_kj: Option<Dec>,
    pub phi_j: Option<Dec>,
    pub phi_jk: Option<Dec>,
    pub phi_k: Option<Dec>,
    // s reduction
    pub h_j: Option<Dec>,
    pub h_jk: Option<Dec>,
    pub h_kj: Option<Dec>,
    pub h_k: Option<Dec>,
    pub h1: Option<Dec>,
    pub h2: Option<Dec>,
    pub h3: Option<Dec>,
    // linear molecules
    pub he: Option<Dec>,
}

/// The record with every coefficient absent.
pub open spec fn spec_phi_empty() -> Phi {
    Phi {
        big_phi_j: None,
        big_phi_k: None,
        big_phi_jk: None,
        big_phi_kj: None,
        phi_j: None,
        phi_jk: None,
        phi_k: None,
        h_j: None,
        h_jk: None,
        h_kj: None,
        h_k: None,
        h1: None,
        h2: None,
        h3: None,
        he: None,
    }
}

impl Phi {
    pub fn empty() -> (r: Phi)
        ensures
            r == spec_phi_empty(),
    {
        Phi {
            big_phi_j: None,
            big_phi_k: None,
            big_phi_jk: None,
            big_phi_kj: None,
            phi_j: None,
            phi_jk: None,
            phi_k: None,
            h_j: None,
            h_jk: None,
            h_kj: None,
            h_k: None,
            h1: None,
            h2: None,
            h3: None,
            he: None,
        }
    }

    /// return the unwrapped fields of `self` as a single vector
    pub fn to_vec(&self) -> (r: Vec<Dec>)
        ensures
            r@ == seq![
                dec_or_zero(self.big_phi_j),
                dec_or_zero(self.big_phi_k),
                dec_or_zero(self.big_phi_jk),
                dec_or_zero(self.big_phi_kj),
                dec_or_zero(self.phi_j),
                dec_or_zero(self.phi_jk),
                dec_or_zero(self.phi_k),
                dec_or_zero(self.h_j),
                dec_or_zero(self.h_jk),
                dec_or_zero(self.h_kj),
                dec_or_zero(self.h_k),
                dec_or_zero(self.h1),
                dec_or_zero(self.h2),
                dec_or_zero(self.h3),
                dec_or_zero(self.he),
            ],
    {
        let r = vec![
            unwrap_dec(self.big_phi_j),
            unwrap_dec(self.big_phi_k),
            unwrap_dec(self.big_phi_jk),
            unwrap_dec(self.big_phi_kj),
            unwrap_dec(self.phi_j),
            unwrap_dec(self.phi_jk),
            unwrap_dec(self.phi_k),
            unwrap_dec(self.h_j),
            unwrap_dec(self.h_jk),
            unwrap_dec(self.h_kj),
            unwrap_dec(self.h_k),
            unwrap_dec(self.h1),
            unwrap_dec(self.h2),
            unwrap_dec(self.h3),
            unwrap_dec(self.he),
        ];
        r
    }
}

} // verus!
