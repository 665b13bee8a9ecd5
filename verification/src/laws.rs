//! The general properties of the extraction, stated and proved over the
//! spec functions that the public contracts use.

use vstd::prelude::*;

use crate::dec::Dec;
use crate::machine::all_zero;
use crate::machine::first_one;
use crate::machine::lemma_first_one;
use crate::machine::dedup_upto;
use crate::machine::min_len;
use crate::machine::seen_before;
use crate::machine::singly_excited;
use crate::machine::spec_dedup;
use crate::machine::spec_flush;
use crate::machine::spec_parse;
use crate::machine::write_slot;
use crate::machine::ParserV;
use crate::summary::spec_rot_axis;
use crate::summary::ParseError;
use crate::summary::SummaryV;
use crate::symmetry::spec_assigned;
use crate::symmetry::spec_resolve;
use crate::symmetry::Irrep;

verus! {

/// Parsing is a pure function of the line sequence: two scans of the same
/// report yield the same record (or the same fault), bit for bit.
pub proof fn lemma_parse_deterministic(
    lines: Seq<Seq<char>>,
    r1: Result<SummaryV, ParseError>,
    r2: Result<SummaryV, ParseError>,
)
    requires
        r1 == spec_parse(lines),
        r2 == spec_parse(lines),
    ensures
        r1 == r2,
{
}

/// How many of the first `n` gathered matrix frequencies are new: not
/// value-equal to any earlier one.
pub open spec fn distinct_count(freqs: Seq<Dec>, n: int) -> int
    decreases n,
{
    if n <= 0 {
        0
    } else {
        distinct_count(freqs, n - 1) + if seen_before(freqs, n - 1) {
            0int
        } else {
            1
        }
    }
}

proof fn lemma_dedup_upto_len(freqs: Seq<Dec>, vecs: Seq<Seq<Dec>>, n: int)
    ensures
        dedup_upto(freqs, vecs, n).len() == distinct_count(freqs, n),
    decreases n,
{
    if n > 0 {
        lemma_dedup_upto_len(freqs, vecs, n - 1);
    }
}

/// Degenerate deduplication: the surviving normal-mode vectors are as many
/// as the *unique* frequency values among the paired entries, not as many
/// as the raw entries.
pub proof fn lemma_dedup_counts_unique(freqs: Seq<Dec>, vecs: Seq<Seq<Dec>>)
    ensures
        spec_dedup(freqs, vecs).len() == distinct_count(
            freqs,
            min_len(freqs.len() as int, vecs.len() as int),
        ),
{
    lemma_dedup_upto_len(freqs, vecs, min_len(freqs.len() as int, vecs.len() as int));
}

/// Combination-band exclusion: a gathered state with two quantum numbers
/// equal to one writes nothing into the corrected-frequency table.
pub proof fn lemma_combination_state_discarded(p: ParserV, i: int, j: int)
    requires
        0 <= i < j < p.vib_states.len(),
        p.vib_states[i] == 1,
        p.vib_states[j] == 1,
    ensures
        spec_flush(p).sum.corr == p.sum.corr,
        spec_flush(p).sum.zpt == p.sum.zpt,
{
    assert(!all_zero(p.vib_states));
    assert(!singly_excited(p.vib_states)) by {
        if singly_excited(p.vib_states) {
            let k = choose|k: int|
                0 <= k < p.vib_states.len() && p.vib_states[k] == 1 && (forall|m: int|
                    0 <= m < p.vib_states.len() && m != k ==> p.vib_states[m] == 0);
            if k != i {
                assert(p.vib_states[i] == 0);
            } else {
                assert(p.vib_states[j] == 0);
            }
        }
    }
}

/// Zero-point capture: flushing an all-zero state records the zero-point
/// energy and touches nothing else; flushing any other state leaves the
/// zero-point energy alone.
pub proof fn lemma_zero_point_capture(p: ParserV)
    ensures
        all_zero(p.vib_states) ==> spec_flush(p) == (ParserV {
            sum: SummaryV { zpt: p.cur_zpt, ..p.sum },
            ..p
        }),
        !all_zero(p.vib_states) ==> spec_flush(p).sum.zpt == p.sum.zpt,
{
}

/// Rotational reduction: a one-value row (linear molecule) carries only
/// the B axis and a two-value row (symmetric top) only A and C; the other
/// axes are absent, never zero.
pub proof fn lemma_rot_reduction(rot: Seq<Dec>)
    ensures
        rot.len() == 1 ==> spec_rot_axis(rot, 0) is None && spec_rot_axis(rot, 1) == Some(rot[0])
            && spec_rot_axis(rot, 2) is None,
        rot.len() == 2 ==> spec_rot_axis(rot, 0) == Some(rot[0]) && spec_rot_axis(rot, 1) is None
            && spec_rot_axis(rot, 2) == Some(rot[1]),
{
}

/// Index alignment: flushing a singly excited state writes the corrected
/// frequency into exactly the slot of the excited mode, the same position
/// that indexes the harmonic table.
pub proof fn lemma_singly_state_written(p: ParserV, i: int)
    requires
        0 <= i < p.vib_states.len(),
        p.vib_states[i] == 1,
        forall|j: int| 0 <= j < p.vib_states.len() && j != i ==> p.vib_states[j] == 0,
    ensures
        spec_flush(p).sum.corr == write_slot(p.sum.corr, i, p.cur_freq),
        spec_flush(p).sum.corr.len() > i,
        spec_flush(p).sum.corr[i] == p.cur_freq,
{
    assert(!all_zero(p.vib_states));
    assert(singly_excited(p.vib_states));
    lemma_first_one(p.vib_states);
    assert(first_one(p.vib_states) == i) by {
        if first_one(p.vib_states) < i {
            assert(p.vib_states[first_one(p.vib_states)] == 0);
        }
        if first_one(p.vib_states) > i {
            assert(p.vib_states[i] != 1);
        }
    }
}

proof fn lemma_resolve_all_none(s: Seq<Option<Irrep>>)
    requires
        forall|j: int| 0 <= j < s.len() ==> s[j] is None,
    ensures
        spec_resolve(s) == Irrep::A,
    decreases s.len(),
{
    if s.len() > 0 {
        assert forall|j: int| 0 <= j < s.drop_first().len() implies s.drop_first()[j] is None by {
            assert(s.drop_first()[j] == s[j + 1]);
        }
        lemma_resolve_all_none(s.drop_first());
    }
}

/// Symmetry fallback: when every classification attempt of every mode
/// fails, the label table is still full length, every entry the totally
/// symmetric default.
pub proof fn lemma_fallback_when_all_fail(attempts: Seq<Seq<Option<Irrep>>>)
    requires
        forall|i: int, j: int|
            0 <= i < attempts.len() && 0 <= j < attempts[i].len() ==> attempts[i][j] is None,
    ensures
        spec_assigned(attempts).len() == attempts.len(),
        forall|i: int| 0 <= i < attempts.len() ==> spec_assigned(attempts)[i] == Irrep::A,
{
    assert forall|i: int| 0 <= i < attempts.len() implies spec_assigned(attempts)[i]
        == Irrep::A by {
        lemma_resolve_all_none(attempts[i]);
    }
}

} // verus!
