//! Quartic distortion coefficients, in MHz.

use vstd::prelude::*;

use crate::dec::Dec;

verus! {

/// A `Dec` option collapsed to zero where absent, as the flat vector form
/// reports it.
pub open spec fn dec_or_zero(o: Option<Dec>) -> Dec {
    match o {
        Some(d) => d,
        None => Dec { mant: 0, scale: 0 },
    }
}

/// Quartic distortion coefficients.  Which fields are present depends on
/// the Hamiltonian reduction the report used and on whether the molecule is
/// linear.
#[derive(Clone, Copy, Debug, PartialEq, Eq, Structural)]
pub struct Delta {
    /// these constants are in the A-reduced Watson Hamiltonian
    pub big_delta_j: Option<Dec>,
    pub big_delta_k: Option<Dec>,
    pub big_delta_jk: Option<Dec>,
    pub delta_j: Option<Dec>,
    pub delta_k: Option<Dec>,
    /// these constants are in the S-reduced Watson Hamiltonian
    pub d_j: Option<Dec>,
    pub d_jk: Option<Dec>,
    pub d_k: Option<Dec>,
    pub d1: Option<Dec>,
    pub d2: Option<Dec>,
    /// linear molecules only
    pub de: Option<Dec>,
}

/// The record with every coefficient absent.
pub open spec fn spec_delta_empty() -> Delta {
    Delta {
        big_delta_j: None,
        big_delta_k: None,
        big_delta_jk: None,
        delta_j: None,
        delta_k: None,
        d_j: None,
        d_jk: None,
        d_k: None,
        d1: None,
        d2: None,
        de: None,
    }
}

impl Delta {
    pub fn empty() -> (r: Delta)
        ensures
            r == spec_delta_empty(),
    {
        Delta {
            big_delta_j: None,
            big_delta_k: None,
            big_delta_jk: None,
            delta_j: None,
            delta_k: None,
            d_j: None,
            d_jk: None,
            d_k: None,
            d1: None,
            d2: None,
            de: None,
        }
    }

    /// return the unwrapped fields of `self` as a single vector
    pub fn to_vec(&self) -> (r: Vec<Dec>)
        ensures
            r@ == seq![
                dec_or_zero(self.big_delta_j),
                dec_or_zero(self.big_delta_k),
                dec_or_zero(self.big_delta_jk),
                dec_or_zero(self.delta_j),
                dec_or_zero(self.delta_k),
                dec_or_zero(self.d_j),
                dec_or_zero(self.d_jk),
                dec_or_zero(self.d_k),
                dec_or_zero(self.d1),
                dec_or_zero(self.d2),
                dec_or_zero(self.de),
            ],
    {
        let r = vec![
            unwrap_dec(self.big_delta_j),
            unwrap_dec(self.big_delta_k),
            unwrap_dec(self.big_delta_jk),
            unwrap_dec(self.delta_j),
            unwrap_dec(self.delta_k),
            unwrap_dec(self.d_j),
            unwrap_dec(self.d_jk),
            unwrap_dec(self.d_k),
            unwrap_dec(self.d1),
            unwrap_dec(self.d2),
            unwrap_dec(self.de),
        ];
        r
    }
}

/// The coefficient, or zero where it is absent.
pub fn unwrap_dec(o: Option<Dec>) -> (r: Dec)
    ensures
        r == dec_or_zero(o),
{
    match o {
        Some(d) => d,
        None => Dec { mant: 0, scale: 0 },
    }
}

} // verus!
