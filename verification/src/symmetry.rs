//! Mode-symmetry labels and the classification fallback.
//!
//! Point-group detection and per-displacement classification are done by
//! an outside collaborator working at a numeric tolerance.  The library
//! owns the retry policy: a fixed ladder of coarsening tolerances is
//! tried in order, the first successful classification wins, and when the
//! whole ladder fails the totally symmetric label [`Irrep::A`] is assigned
//! rather than surfacing an error.

use vstd::prelude::*;

use crate::summary::Summary;
use crate::summary::SummaryV;

verus! {

/// An irreducible representation: the symmetry species of one mode.
#[derive(Clone, Copy, Debug, PartialEq, Eq, Structural)]
pub enum Irrep {
    A,
    B,
    Ap,
    App,
    A1,
    A2,
    B1,
    B2,
    Ag,
    B1g,
    B2g,
    B3g,
    Au,
    B1u,
    B2u,
    B3u,
    E,
}

/// The negated powers of ten at which classification is attempted, finest
/// first: `10^-4` up to (and including) `10^-1`, after which the
/// fallback label is assigned.
pub fn tolerance_exponents() -> (v: Vec<u32>)
    ensures
        v@ == seq![4u32, 3u32, 2u32, 1u32],
{
    let v = vec![4u32, 3u32, 2u32, 1u32];
    proof {
        assert(v@ =~= seq![4u32, 3u32, 2u32, 1u32]);
    }
    v
}

/// The first successful attempt, or the totally symmetric fallback when
/// every attempt failed.
pub open spec fn spec_resolve(attempts: Seq<Option<Irrep>>) -> Irrep
    decreases attempts.len(),
{
    if attempts.len() == 0 {
        Irrep::A
    } else if attempts[0] is Some {
        attempts[0]->0
    } else {
        spec_resolve(attempts.drop_first())
    }
}

/// Pick the label from a ladder of classification attempts: the first
/// success wins; a ladder of failures yields the default [`Irrep::A`].
pub fn resolve_irrep(attempts: &Vec<Option<Irrep>>) -> (r: Irrep)
    ensures
        r == spec_resolve(attempts@),
{
    let n = attempts.len();
    let mut i: usize = 0;
    proof {
        assert(attempts@.skip(0) =~= attempts@);
    }
    while i < n
        invariant
            n == attempts@.len(),
            0 <= i <= n,
            spec_resolve(attempts@) == spec_resolve(attempts@.skip(i as int)),
        decreases n - i,
    {
        proof {
            assert(attempts@.skip(i as int)[0] == attempts@[i as int]);
            assert(attempts@.skip(i as int).drop_first() =~= attempts@.skip(i + 1));
        }
        match attempts[i] {
            Some(ir) => {
                return ir;
            },
            None => {},
        }
        i += 1;
    }
    proof {
        assert(attempts@.skip(n as int).len() == 0);
    }
    Irrep::A
}

/// The labels that a table of attempts resolves to, one per mode.
pub open spec fn spec_assigned(attempts: Seq<Seq<Option<Irrep>>>) -> Seq<Irrep> {
    Seq::new(attempts.len(), |i: int| spec_resolve(attempts[i]))
}

impl Summary {
    /// Fill `irreps` from the classification attempts made for each
    /// surviving normal mode, one ladder of attempts per mode, resolving
    /// each ladder to its first success or to the fallback label.
    pub fn compute_irreps(&mut self, attempts: &Vec<Vec<Option<Irrep>>>)
        ensures
            final(self)@ == (SummaryV {
                irreps: spec_assigned(
                    Seq::new(attempts@.len(), |i: int| attempts@[i]@),
                ),
                ..old(self)@
            }),
    {
        let ghost table = Seq::new(attempts@.len(), |i: int| attempts@[i]@);
        let mut labels: Vec<Irrep> = Vec::new();
        let n = attempts.len();
        let mut i: usize = 0;
        while i < n
            invariant
                n == attempts@.len(),
                0 <= i <= n,
                table == Seq::new(attempts@.len(), |j: int| attempts@[j]@),
                labels@ == spec_assigned(table).take(i as int),
            decreases n - i,
        {
            let ir = resolve_irrep(&attempts[i]);
            labels.push(ir);
            proof {
                assert(labels@ =~= spec_assigned(table).take(i + 1));
            }
            i += 1;
        }
        proof {
            assert(spec_assigned(table).take(n as int) =~= spec_assigned(table));
        }
        self.irreps = labels;
        proof {
            assert(self@ =~~= (SummaryV { irreps: spec_assigned(table), ..old(self)@ }));
        }
    }
}

} // verus!
