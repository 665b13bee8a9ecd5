//! The result record that a parse of one report produces, and the errors
//! that abort a parse.

use vstd::prelude::*;

use crate::coriolis::Coriol;
use crate::curvil::Curvil;
use crate::dec::Dec;
use crate::delta::spec_delta_empty;
use crate::delta::Delta;
use crate::phi::spec_phi_empty;
use crate::phi::Phi;
use crate::symmetry::Irrep;

verus! {

/// A structural fault that makes the whole report unusable: these abort
/// the parse, unlike unreadable numeric fields, which become sentinels.
#[derive(Clone, Copy, Debug, PartialEq, Eq, Structural)]
pub enum ParseError {
    /// a line of a section lacks a field that the format requires
    MalformedLine,
    /// a geometry line names an isotope mass with no table entry
    UnknownIsotope,
    /// an internal-coordinate line names an unrecognized coordinate type
    UnknownCurvilType,
    /// a distortion-constant line names a constant outside both reductions
    UnknownDistortionConstant,
}

/// One atom of the geometry: an atomic number and Cartesian coordinates.
#[derive(Clone, Copy, Debug, PartialEq, Eq, Structural)]
pub struct Atom {
    pub num: usize,
    pub x: Dec,
    pub y: Dec,
    pub z: Dec,
}

/// The mathematical content of a [`Summary`].
#[verifier::ext_equal]
pub ghost struct SummaryV {
    pub harm: Seq<Dec>,
    pub fund: Seq<Dec>,
    pub corr: Seq<Dec>,
    pub geom: Seq<Atom>,
    pub irreps: Seq<Irrep>,
    pub lxm: Seq<Seq<Dec>>,
    pub rots: Seq<Seq<Dec>>,
    pub rot_equil: Seq<Dec>,
    pub deltas: Delta,
    pub phis: Phi,
    pub fermi: Seq<(usize, Seq<(usize, usize)>)>,
    pub coriolis: Seq<((usize, usize), Seq<usize>)>,
    pub zpt: Dec,
    pub curvils: Seq<Curvil>,
    pub ralpha: Seq<Dec>,
    pub requil: Seq<Dec>,
}

/// The record extracted from one report.
#[derive(Clone, Debug, PartialEq)]
pub struct Summary {
    /// harmonic vibrational frequencies
    pub harm: Vec<Dec>,
    /// partially resonance-corrected anharmonic vibrational frequencies
    pub fund: Vec<Dec>,
    /// fully resonance-corrected anharmonic vibrational frequencies
    pub corr: Vec<Dec>,
    /// molecular geometry used in the other calculations
    pub geom: Vec<Atom>,
    /// symmetries of the vibrational modes
    pub irreps: Vec<Irrep>,
    /// normal coordinate matrix corresponding to the harmonic vibrational
    /// frequencies in `harm`
    pub lxm: Vec<Vec<Dec>>,
    /// vibrationally-averaged and singly-vibrationally-excited rotational
    /// constants
    pub rots: Vec<Vec<Dec>>,
    /// equilibrium rotational constants
    pub rot_equil: Vec<Dec>,
    /// quartic distortion coefficients
    pub deltas: Delta,
    /// sextic distortion coefficients
    pub phis: Phi,
    /// inputted type-1 and -2 fermi resonances: each mode paired with its
    /// equivalences, in insertion order, one entry per mode
    pub fermi: Vec<(usize, Vec<(usize, usize)>)>,
    /// inputted coriolis resonances: a map of mode pairs to axes
    pub coriolis: Coriol,
    /// zero-point vibrational energy
    pub zpt: Dec,
    /// inputted curvilinear internal coordinates
    pub curvils: Vec<Curvil>,
    /// R(ALPHA) values of the curvilinear coordinates in `curvils`
    pub ralpha: Vec<Dec>,
    /// R(EQUIL) values of the curvilinear coordinates in `curvils`
    pub requil: Vec<Dec>,
}

impl View for Summary {
    type V = SummaryV;

    open spec fn view(&self) -> SummaryV {
        SummaryV {
            harm: self.harm@,
            fund: self.fund@,
            corr: self.corr@,
            geom: self.geom@,
            irreps: self.irreps@,
            lxm: Seq::new(self.lxm@.len(), |i: int| self.lxm@[i]@),
            rots: Seq::new(self.rots@.len(), |i: int| self.rots@[i]@),
            rot_equil: self.rot_equil@,
            deltas: self.deltas,
            phis: self.phis,
            fermi: Seq::new(self.fermi@.len(), |i: int| (self.fermi@[i].0, self.fermi@[i].1@)),
            coriolis: self.coriolis@,
            zpt: self.zpt,
            curvils: self.curvils@,
            ralpha: self.ralpha@,
            requil: self.requil@,
        }
    }
}

/// The record before any line has been handled.
pub open spec fn spec_summary_empty() -> SummaryV {
    SummaryV {
        harm: Seq::empty(),
        fund: Seq::empty(),
        corr: Seq::empty(),
        geom: Seq::empty(),
        irreps: Seq::empty(),
        lxm: Seq::empty(),
        rots: Seq::empty(),
        rot_equil: Seq::empty(),
        deltas: spec_delta_empty(),
        phis: spec_phi_empty(),
        fermi: Seq::empty(),
        coriolis: Seq::empty(),
        zpt: Dec { mant: 0, scale: 0 },
        curvils: Seq::empty(),
        ralpha: Seq::empty(),
        requil: Seq::empty(),
    }
}

impl Summary {
    /// An empty record, ready for the scan to fill.
    pub fn empty() -> (r: Summary)
        ensures
            r@ == spec_summary_empty(),
    {
        let r = Summary {
            harm: Vec::new(),
            fund: Vec::new(),
            corr: Vec::new(),
            geom: Vec::new(),
            irreps: Vec::new(),
            lxm: Vec::new(),
            rots: Vec::new(),
            rot_equil: Vec::new(),
            deltas: Delta::empty(),
            phis: Phi::empty(),
            fermi: Vec::new(),
            coriolis: Coriol::empty(),
            zpt: Dec { mant: 0, scale: 0 },
            curvils: Vec::new(),
            ralpha: Vec::new(),
            requil: Vec::new(),
        };
        proof {
            assert(r@ =~~= spec_summary_empty());
        }
        r
    }
}

/// Index of `key` among the fermi entries, or the length if absent.
pub open spec fn fermi_find(s: Seq<(usize, Seq<(usize, usize)>)>, key: usize) -> int
    decreases s.len(),
{
    if s.len() == 0 {
        0
    } else if s[0].0 == key {
        0
    } else {
        1 + fermi_find(s.drop_first(), key)
    }
}

pub proof fn lemma_fermi_find(s: Seq<(usize, Seq<(usize, usize)>)>, key: usize)
    ensures
        0 <= fermi_find(s, key) <= s.len(),
        forall|j: int| 0 <= j < fermi_find(s, key) ==> s[j].0 != key,
        fermi_find(s, key) < s.len() ==> s[fermi_find(s, key)].0 == key,
    decreases s.len(),
{
    if s.len() > 0 && s[0].0 != key {
        lemma_fermi_find(s.drop_first(), key);
        assert forall|j: int| 0 <= j < fermi_find(s, key) implies s[j].0 != key by {
            if j > 0 {
                assert(s.drop_first()[j - 1] == s[j]);
            }
        }
        if fermi_find(s, key) < s.len() {
            assert(s.drop_first()[fermi_find(s, key) - 1] == s[fermi_find(s, key)]);
        }
    }
}

/// The fermi entries after appending `pair` under `key`.
pub open spec fn spec_fermi_insert(
    s: Seq<(usize, Seq<(usize, usize)>)>,
    key: usize,
    pair: (usize, usize),
) -> Seq<(usize, Seq<(usize, usize)>)> {
    let i = fermi_find(s, key);
    if i < s.len() {
        s.update(i, (key, s[i].1.push(pair)))
    } else {
        s.push((key, seq![pair]))
    }
}

/// Append a fermi equivalence `pair` to the entry of mode `key`.
pub fn fermi_insert(m: &mut Vec<(usize, Vec<(usize, usize)>)>, key: usize, pair: (usize, usize))
    ensures
        Seq::new(final(m)@.len(), |i: int| (final(m)@[i].0, final(m)@[i].1@))
            == spec_fermi_insert(
            Seq::new(old(m)@.len(), |i: int| (old(m)@[i].0, old(m)@[i].1@)),
            key,
            pair,
        ),
{
    let ghost s = Seq::new(old(m)@.len(), |i: int| (old(m)@[i].0, old(m)@[i].1@));
    proof {
        lemma_fermi_find(s, key);
    }
    let n = m.len();
    let mut i: usize = 0;
    while i < n
        invariant
            n == m@.len(),
            0 <= i <= n,
            *m == *old(m),
            s == Seq::new(m@.len(), |j: int| (m@[j].0, m@[j].1@)),
            forall|j: int| 0 <= j < i ==> m@[j].0 != key,
        decreases n - i,
    {
        if m[i].0 == key {
            proof {
                assert(s[i as int].0 == key);
                assert(fermi_find(s, key) == i) by {
                    lemma_fermi_find(s, key);
                    if fermi_find(s, key) < i {
                        assert(s[fermi_find(s, key)].0 != key);
                    }
                    if fermi_find(s, key) > i {
                        assert(s[i as int].0 != key);
                    }
                }
            }
            let mut entry = m.remove(i);
            entry.1.push(pair);
            m.insert(i, entry);
            proof {
                assert(Seq::new(m@.len(), |j: int| (m@[j].0, m@[j].1@)) =~~= spec_fermi_insert(
                    s,
                    key,
                    pair,
                ));
            }
            return ;
        }
        i += 1;
    }
    proof {
        assert(fermi_find(s, key) == s.len()) by {
            lemma_fermi_find(s, key);
            if fermi_find(s, key) < s.len() {
                assert(s[fermi_find(s, key)].0 != key);
            }
        }
    }
    let mut pairs: Vec<(usize, usize)> = Vec::new();
    pairs.push(pair);
    m.push((key, pairs));
    proof {
        assert(Seq::new(m@.len(), |j: int| (m@[j].0, m@[j].1@)) =~~= spec_fermi_insert(
            s,
            key,
            pair,
        ));
    }
}

/// Which of the three rotational constants a reduced per-state row carries
/// on the given axis (0 = A, 1 = B, 2 = C): a linear row holds only B, a
/// symmetric-top row only A and C; axes a row does not determine are
/// absent, never zero.
pub open spec fn spec_rot_axis(rot: Seq<Dec>, axis: int) -> Option<Dec> {
    if rot.len() == 1 {
        if axis == 1 {
            Some(rot[0])
        } else {
            None
        }
    } else if rot.len() == 2 {
        if axis == 0 {
            Some(rot[0])
        } else if axis == 2 {
            Some(rot[1])
        } else {
            None
        }
    } else {
        if 0 <= axis < rot.len() {
            Some(rot[axis])
        } else {
            None
        }
    }
}

/// Read one axis of a per-state (or equilibrium) rotational-constant row,
/// collapsing the non-applicable axes of linear and symmetric-top rows to
/// `None`.
pub fn rot_const_for_axis(rot: &Vec<Dec>, axis: usize) -> (r: Option<Dec>)
    requires
        axis < 3,
    ensures
        r == spec_rot_axis(rot@, axis as int),
{
    if rot.len() == 1 {
        if axis == 1 {
            Some(rot[0])
        } else {
            None
        }
    } else if rot.len() == 2 {
        if axis == 0 {
            Some(rot[0])
        } else if axis == 2 {
            Some(rot[1])
        } else {
            None
        }
    } else {
        if axis < rot.len() {
            Some(rot[axis])
        } else {
            None
        }
    }
}

} // verus!
