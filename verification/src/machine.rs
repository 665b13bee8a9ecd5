//! The line classifier and section state machine.
//!
//! The report is read once, top to bottom.  For each line, in priority
//! order: a pending skip counter eats the line; otherwise section markers
//! are matched (so a new section header can interrupt a section whose own
//! terminator never came); otherwise the line goes to the active section's
//! handler.  [`spec_step`] is the whole transition relation; the runtime
//! scanner is proved to follow it line by line, and [`Summary::new`] to
//! return exactly [`spec_parse`] of its input.

use vstd::prelude::*;

use crate::dec::spec_add;
use crate::dec::spec_div_million;
use crate::dec::spec_mul_mhz;
use crate::dec::spec_parse_dec;
use crate::dec::spec_parse_usize;
use crate::dec::vabs_le;
use crate::dec::veq;
use crate::dec::vle;
use crate::dec::vlt;
use crate::dec::Dec;
use crate::patterns;
use crate::patterns::spec_delta_marker;
use crate::patterns::spec_header_line;
use crate::patterns::spec_phi_marker;
use crate::patterns::spec_weight;
use crate::summary::spec_fermi_insert;
use crate::summary::spec_summary_empty;
use crate::summary::Atom;
use crate::summary::ParseError;
use crate::summary::Summary;
use crate::summary::SummaryV;
use crate::coriolis::spec_coriol_insert;
use crate::curvil::Curvil;
use crate::delta::Delta;
use crate::phi::Phi;
use crate::text::all_digits;
use crate::text::all_ws;
use crate::text::has_digit;
use crate::text::has_prefix;
use crate::text::has_prefix_ci;
use crate::text::has_substr;
use crate::text::split_ws;

verus! {

/// The active section of the scan.  `Idle` is the initial state and the
/// state reached whenever a section's terminator is recognized.
#[derive(Clone, Copy, Debug, PartialEq, Eq, Structural)]
pub enum State {
    Fund,
    Corr,
    Geom,
    Lxm,
    RotA,
    RotS,
    Fermi1,
    Fermi2,
    Coriolis,
    Curvil,
    Coords,
    Idle,
}

impl State {
    /// Whether a fermi resonance list (of either order) is active.
    pub fn is_fermi(&self) -> (r: bool)
        ensures
            r == (*self == State::Fermi1 || *self == State::Fermi2),
    {
        matches!(self, State::Fermi1 | State::Fermi2)
    }

    /// Whether the vibrationally-averaged coordinates section is active.
    pub fn is_coords(&self) -> (r: bool)
        ensures
            r == (*self == State::Coords),
    {
        matches!(self, State::Coords)
    }

    /// Whether the curvilinear-coordinates section is active.
    pub fn is_curvil(&self) -> (r: bool)
        ensures
            r == (*self == State::Curvil),
    {
        matches!(self, Self::Curvil)
    }
}

/// The whole state of the scan between two lines.
pub struct Parser {
    pub state: State,
    pub skip: usize,
    pub sum: Summary,
    /// quantum numbers gathered across the physical lines of one state
    pub vib_states: Vec<usize>,
    pub cur_zpt: Dec,
    pub cur_freq: Dec,
    /// frequencies read off the normal-mode matrix, for degenerate-mode
    /// pairing
    pub lxm_freqs: Vec<Dec>,
    /// block of the normal-mode matrix
    pub block: usize,
    pub rot_good: bool,
    /// state descriptors gathered for the rotational table
    pub rot_states: Vec<Vec<char>>,
}

/// The mathematical content of a [`Parser`].
#[verifier::ext_equal]
pub ghost struct ParserV {
    pub state: State,
    pub skip: int,
    pub sum: SummaryV,
    pub vib_states: Seq<usize>,
    pub cur_zpt: Dec,
    pub cur_freq: Dec,
    pub lxm_freqs: Seq<Dec>,
    pub block: int,
    pub rot_good: bool,
    pub rot_states: Seq<Seq<char>>,
}

impl View for Parser {
    type V = ParserV;

    open spec fn view(&self) -> ParserV {
        ParserV {
            state: self.state,
            skip: self.skip as int,
            sum: self.sum@,
            vib_states: self.vib_states@,
            cur_zpt: self.cur_zpt,
            cur_freq: self.cur_freq,
            lxm_freqs: self.lxm_freqs@,
            block: self.block as int,
            rot_good: self.rot_good,
            rot_states: Seq::new(self.rot_states@.len(), |i: int| self.rot_states@[i]@),
        }
    }
}

/// The scan before the first line.
pub open spec fn spec_init() -> ParserV {
    ParserV {
        state: State::Idle,
        skip: 0,
        sum: spec_summary_empty(),
        vib_states: Seq::empty(),
        cur_zpt: Dec { mant: 0, scale: 0 },
        cur_freq: Dec { mant: 0, scale: 0 },
        lxm_freqs: Seq::empty(),
        block: 0,
        rot_good: false,
        rot_states: Seq::empty(),
    }
}

/// The rotation/translation threshold: matrix frequencies at or below
/// `30.0` are discarded.
pub open spec fn rotrans_thresh() -> Dec {
    Dec { mant: 300, scale: 1 }
}

/// Parse a row of quantum numbers; `None` if any token is not a number.
pub open spec fn spec_parse_usizes(f: Seq<Seq<char>>) -> Option<Seq<usize>>
    decreases f.len(),
{
    if f.len() == 0 {
        Some(Seq::empty())
    } else {
        match spec_parse_usizes(f.drop_last()) {
            None => None,
            Some(pre) => match spec_parse_usize(f.last()) {
                None => None,
                Some(u) => Some(pre.push(u)),
            },
        }
    }
}

/// The matrix frequencies a non-row line carries: each token parsed, kept
/// when strictly above the rotation/translation threshold (the sentinel for
/// an unreadable token is far above it, so such a token is kept too).
pub open spec fn spec_lxm_freqs(f: Seq<Seq<char>>) -> Seq<Dec>
    decreases f.len(),
{
    if f.len() == 0 {
        Seq::empty()
    } else {
        let pre = spec_lxm_freqs(f.drop_last());
        let d = spec_parse_dec(f.last());
        if vlt(rotrans_thresh(), d) {
            pre.push(d)
        } else {
            pre
        }
    }
}

/// Grow a sequence of rows with empty rows up to index `idx`, then append
/// `d` to row `idx`.
pub open spec fn lxm_put(lxm: Seq<Seq<Dec>>, idx: int, d: Dec) -> Seq<Seq<Dec>>
    recommends
        idx >= 0,
{
    let g = if lxm.len() <= idx {
        lxm + Seq::new((idx + 1 - lxm.len()) as nat, |i: int| Seq::<Dec>::empty())
    } else {
        lxm
    };
    g.update(idx, g[idx].push(d))
}

/// Append the displacements of one matrix row: token `c + 1` goes to mode
/// `10 * block + c`.
pub open spec fn spec_lxm_row(lxm: Seq<Seq<Dec>>, block: int, f: Seq<Seq<char>>, c: int) -> Seq<
    Seq<Dec>,
>
    recommends
        0 <= c,
    decreases f.len() - c,
{
    if c + 1 >= f.len() || c < 0 {
        lxm
    } else {
        spec_lxm_row(lxm_put(lxm, 10 * block + c, spec_parse_dec(f[c + 1])), block, f, c + 1)
    }
}

/// Zero-fill a frequency sequence up to slot `idx`, then write `d` there.
pub open spec fn write_slot(s: Seq<Dec>, idx: int, d: Dec) -> Seq<Dec>
    recommends
        idx >= 0,
{
    let g = if s.len() <= idx {
        s + Seq::new((idx + 1 - s.len()) as nat, |i: int| Dec { mant: 0, scale: 0 })
    } else {
        s
    };
    g.update(idx, d)
}

/// Every quantum number of the gathered state is zero.
pub open spec fn all_zero(v: Seq<usize>) -> bool {
    forall|i: int| 0 <= i < v.len() ==> v[i] == 0
}

/// Exactly one quantum number is one and every other is zero: the state is
/// singly excited.
pub open spec fn singly_excited(v: Seq<usize>) -> bool {
    exists|i: int|
        0 <= i < v.len() && v[i] == 1 && (forall|j: int| 0 <= j < v.len() && j != i ==> v[j] == 0)
}

/// Index of the first quantum number equal to one.
pub open spec fn first_one(v: Seq<usize>) -> int
    decreases v.len(),
{
    if v.len() == 0 {
        0
    } else if v[0] == 1 {
        0
    } else {
        1 + first_one(v.drop_first())
    }
}

pub proof fn lemma_first_one(v: Seq<usize>)
    ensures
        0 <= first_one(v) <= v.len(),
        forall|j: int| 0 <= j < first_one(v) ==> v[j] != 1,
        first_one(v) < v.len() ==> v[first_one(v)] == 1,
    decreases v.len(),
{
    if v.len() > 0 && v[0] != 1 {
        lemma_first_one(v.drop_first());
        assert forall|j: int| 0 <= j < first_one(v) implies v[j] != 1 by {
            if j > 0 {
                assert(v.drop_first()[j - 1] == v[j]);
            }
        }
        if first_one(v) < v.len() {
            assert(v.drop_first()[first_one(v) - 1] == v[first_one(v)]);
        }
    }
}

/// Flush the gathered state: an all-zero state records the zero-point
/// energy; a singly excited state writes the corrected frequency into the
/// slot of its excited mode; any other state is a combination or overtone
/// and is discarded.
pub open spec fn spec_flush(p: ParserV) -> ParserV {
    if all_zero(p.vib_states) {
        ParserV { sum: SummaryV { zpt: p.cur_zpt, ..p.sum }, ..p }
    } else if singly_excited(p.vib_states) {
        ParserV {
            sum: SummaryV {
                corr: write_slot(p.sum.corr, first_one(p.vib_states), p.cur_freq),
                ..p.sum
            },
            ..p
        }
    } else {
        p
    }
}

/// How many descriptors equal the given token.
pub open spec fn count_tok(rs: Seq<Seq<char>>, t: Seq<char>) -> int
    decreases rs.len(),
{
    if rs.len() == 0 {
        0
    } else {
        count_tok(rs.drop_last(), t) + if rs.last() == t {
            1int
        } else {
            0
        }
    }
}

/// A rotational row whose gathered descriptors show a doubly-excited or
/// combination state is skipped.
pub open spec fn rot_skip(rs: Seq<Seq<char>>) -> bool {
    (exists|i: int| 0 <= i < rs.len() && rs[i] == patterns::two_tok()) || count_tok(
        rs,
        patterns::one_tok(),
    ) >= 2
}

/// Stable insertion into a non-increasing sequence (by value).
pub open spec fn insert_desc(s: Seq<Dec>, d: Dec) -> Seq<Dec>
    decreases s.len(),
{
    if s.len() == 0 {
        seq![d]
    } else if vle(d, s[0]) {
        seq![s[0]] + insert_desc(s.drop_first(), d)
    } else {
        seq![d] + s
    }
}

/// Stable insertion into a sequence non-increasing by magnitude.
pub open spec fn insert_abs_desc(s: Seq<Dec>, d: Dec) -> Seq<Dec>
    decreases s.len(),
{
    if s.len() == 0 {
        seq![d]
    } else if vabs_le(d, s[0]) {
        seq![s[0]] + insert_abs_desc(s.drop_first(), d)
    } else {
        seq![d] + s
    }
}

/// The three values of a rotational row sorted descending, stably.
pub open spec fn sort3_desc(a: Dec, b: Dec, c: Dec) -> Seq<Dec> {
    insert_desc(insert_desc(insert_desc(Seq::empty(), a), b), c)
}

/// The three values sorted by magnitude descending, stably.
pub open spec fn sort3_abs_desc(a: Dec, b: Dec, c: Dec) -> Seq<Dec> {
    insert_abs_desc(insert_abs_desc(insert_abs_desc(Seq::empty(), a), b), c)
}

/// The parse-able tokens at positions `i`, `i + 2`, `i + 4`, ... of an
/// internal-coordinate line.
pub open spec fn ids_from(f: Seq<Seq<char>>, i: int) -> Seq<usize>
    decreases f.len() - i,
{
    if i < 0 || i >= f.len() {
        Seq::empty()
    } else {
        let cur = match spec_parse_usize(f[i]) {
            Some(u) => seq![u],
            None => Seq::<usize>::empty(),
        };
        if i + 2 <= f.len() {
            cur + ids_from(f, i + 2)
        } else {
            cur
        }
    }
}

/// One step of the parenthesis-aware tokenizer of the internal-coordinate
/// section: parentheses become spaces and the blanks inside a
/// parenthesized atom label are dropped, so a two-character label stays
/// one token.
pub open spec fn paren_step(acc: (Seq<char>, bool), c: char) -> (Seq<char>, bool) {
    if c == '(' {
        (acc.0.push(' '), true)
    } else if c == ')' {
        (acc.0.push(' '), false)
    } else if acc.1 && c == ' ' {
        acc
    } else {
        (acc.0.push(c), acc.1)
    }
}

pub open spec fn paren_fold(l: Seq<char>) -> (Seq<char>, bool)
    decreases l.len(),
{
    if l.len() == 0 {
        (Seq::empty(), false)
    } else {
        paren_step(paren_fold(l.drop_last()), l.last())
    }
}

/// The internal-coordinate line with parenthesized labels fused.
pub open spec fn paren_clean(l: Seq<char>) -> Seq<char> {
    paren_fold(l).0
}

// --- the section handlers ---

pub open spec fn spec_geom(p: ParserV, l: Seq<char>) -> Result<ParserV, ParseError> {
    let f = split_ws(l);
    if f.len() == 0 {
        Ok(ParserV { state: State::Idle, ..p })
    } else if f.len() < 5 {
        Err(ParseError::MalformedLine)
    } else {
        match spec_weight(f[4]) {
            None => Err(ParseError::UnknownIsotope),
            Some(z) => Ok(
                ParserV {
                    sum: SummaryV {
                        geom: p.sum.geom.push(
                            Atom {
                                num: z,
                                x: spec_parse_dec(f[1]),
                                y: spec_parse_dec(f[2]),
                                z: spec_parse_dec(f[3]),
                            },
                        ),
                        ..p.sum
                    },
                    ..p
                },
            ),
        }
    }
}

pub open spec fn spec_lxm(p: ParserV, l: Seq<char>) -> Result<ParserV, ParseError> {
    let f = split_ws(l);
    if f.len() == 0 {
        Ok(ParserV { skip: 1, ..p })
    } else if spec_header_line(l) {
        if p.block + 1 > usize::MAX as int {
            Err(ParseError::MalformedLine)
        } else {
            Ok(ParserV { block: p.block + 1, ..p })
        }
    } else if has_substr(l, patterns::dash_run()) {
        Ok(p)
    } else if has_substr(l, patterns::lx_marker()) {
        Ok(ParserV { state: State::Idle, ..p })
    } else if all_digits(f[0]) {
        if 10 * p.block + f.len() > usize::MAX as int {
            Err(ParseError::MalformedLine)
        } else {
            Ok(ParserV { sum: SummaryV { lxm: spec_lxm_row(p.sum.lxm, p.block, f, 0), ..p.sum }, ..p })
        }
    } else {
        Ok(ParserV { lxm_freqs: p.lxm_freqs + spec_lxm_freqs(f), ..p })
    }
}

pub open spec fn spec_fund(p: ParserV, l: Seq<char>) -> Result<ParserV, ParseError> {
    let f = split_ws(l);
    if f.len() < 3 {
        Err(ParseError::MalformedLine)
    } else {
        Ok(
            ParserV {
                sum: SummaryV {
                    harm: p.sum.harm.push(spec_parse_dec(f[1])),
                    fund: p.sum.fund.push(spec_parse_dec(f[2])),
                    ..p.sum
                },
                ..p
            },
        )
    }
}

pub open spec fn spec_corr_vs(p: ParserV, l: Seq<char>) -> Result<ParserV, ParseError> {
    let f = split_ws(l);
    if f.len() < 6 {
        Err(ParseError::MalformedLine)
    } else {
        match spec_parse_usizes(f.subrange(6, f.len() as int)) {
            None => Err(ParseError::MalformedLine),
            Some(v) => Ok(
                ParserV {
                    vib_states: v,
                    cur_zpt: spec_parse_dec(f[1]),
                    cur_freq: spec_parse_dec(f[2]),
                    ..p
                },
            ),
        }
    }
}

pub open spec fn spec_corr_vt(p: ParserV, l: Seq<char>) -> Result<ParserV, ParseError> {
    let f = split_ws(l);
    let rest = if f.len() <= 3 {
        Seq::<Seq<char>>::empty()
    } else {
        f.subrange(3, f.len() as int)
    };
    match spec_parse_usizes(rest) {
        None => Err(ParseError::MalformedLine),
        Some(v) => Ok(ParserV { vib_states: p.vib_states + v, ..p }),
    }
}

pub open spec fn spec_corr_other(p: ParserV, l: Seq<char>) -> Result<ParserV, ParseError> {
    let f = split_ws(l);
    match spec_parse_usizes(f) {
        None => Err(ParseError::MalformedLine),
        Some(v) => Ok(ParserV { vib_states: p.vib_states + v, ..p }),
    }
}

pub open spec fn spec_rot_header(p: ParserV, l: Seq<char>) -> ParserV {
    let f = split_ws(l);
    let rest = if f.len() <= 2 {
        Seq::<Seq<char>>::empty()
    } else {
        f.subrange(2, f.len() as int)
    };
    ParserV { rot_states: p.rot_states + rest, ..p }
}

pub open spec fn spec_rota(p: ParserV, l: Seq<char>) -> ParserV {
    if rot_skip(p.rot_states) {
        p
    } else {
        let p2 = ParserV { rot_states: Seq::empty(), state: State::Idle, ..p };
        let f = split_ws(l);
        if f.len() != 3 {
            p2
        } else {
            let v0 = spec_mul_mhz(spec_parse_dec(f[0]));
            let v1 = spec_mul_mhz(spec_parse_dec(f[1]));
            let v2 = spec_mul_mhz(spec_parse_dec(f[2]));
            ParserV {
                sum: SummaryV { rots: p2.sum.rots.push(sort3_desc(v0, v1, v2)), ..p2.sum },
                ..p2
            }
        }
    }
}

pub open spec fn spec_rots(p: ParserV, l: Seq<char>) -> Result<ParserV, ParseError> {
    if rot_skip(p.rot_states) {
        Ok(p)
    } else {
        let p2 = ParserV { rot_states: Seq::empty(), state: State::Idle, ..p };
        let f = split_ws(l);
        if f.len() != 3 {
            Ok(p2)
        } else if p.sum.rot_equil.len() == 0 {
            Err(ParseError::MalformedLine)
        } else {
            let v0 = spec_mul_mhz(spec_parse_dec(f[0]));
            let v1 = spec_mul_mhz(spec_parse_dec(f[1]));
            let v2 = spec_mul_mhz(spec_parse_dec(f[2]));
            let s = sort3_abs_desc(v0, v1, v2);
            let one = spec_add(s[0], p.sum.rot_equil[0]);
            Ok(
                ParserV {
                    sum: SummaryV { rots: p2.sum.rots.push(seq![one]), ..p2.sum },
                    ..p2
                },
            )
        }
    }
}

pub open spec fn spec_be(p: ParserV, l: Seq<char>) -> Result<ParserV, ParseError> {
    let f = split_ws(l);
    if f.len() < 3 {
        Err(ParseError::MalformedLine)
    } else {
        Ok(
            ParserV {
                sum: SummaryV {
                    rot_equil: p.sum.rot_equil.push(spec_mul_mhz(spec_parse_dec(f[2]))),
                    ..p.sum
                },
                ..p
            },
        )
    }
}

pub open spec fn spec_delta_line(p: ParserV, l: Seq<char>) -> Result<ParserV, ParseError> {
    let sp = split_ws(l);
    if sp.len() > 3 {
        if sp.len() < 5 {
            Err(ParseError::MalformedLine)
        } else {
            let v = Some(spec_parse_dec(sp[4]));
            let d = p.sum.deltas;
            if sp[0] == patterns::delta_uc_tok() && sp[1] == patterns::j_uc_tok() {
                Ok(ParserV { sum: SummaryV { deltas: Delta { big_delta_j: v, ..d }, ..p.sum }, ..p })
            } else if sp[0] == patterns::delta_uc_tok() && sp[1] == patterns::k_uc_tok() {
                Ok(ParserV { sum: SummaryV { deltas: Delta { big_delta_k: v, ..d }, ..p.sum }, ..p })
            } else if sp[0] == patterns::delta_uc_tok() && sp[1] == patterns::jk_uc_tok() {
                Ok(ParserV { sum: SummaryV { deltas: Delta { big_delta_jk: v, ..d }, ..p.sum }, ..p })
            } else if sp[0] == patterns::delta_lc_tok() && sp[1] == patterns::j_uc_tok() {
                Ok(ParserV { sum: SummaryV { deltas: Delta { delta_j: v, ..d }, ..p.sum }, ..p })
            } else if sp[0] == patterns::delta_lc_tok() && sp[1] == patterns::k_uc_tok() {
                Ok(ParserV { sum: SummaryV { deltas: Delta { delta_k: v, ..d }, ..p.sum }, ..p })
            } else if sp[0] == patterns::d_uc_tok() && sp[1] == patterns::j_uc_tok() {
                Ok(ParserV { sum: SummaryV { deltas: Delta { d_j: v, ..d }, ..p.sum }, ..p })
            } else if sp[0] == patterns::d_uc_tok() && sp[1] == patterns::jk_uc_tok() {
                Ok(ParserV { sum: SummaryV { deltas: Delta { d_jk: v, ..d }, ..p.sum }, ..p })
            } else if sp[0] == patterns::d_uc_tok() && sp[1] == patterns::k_uc_tok() {
                Ok(ParserV { sum: SummaryV { deltas: Delta { d_k: v, ..d }, ..p.sum }, ..p })
            } else if sp[0] == patterns::d_lc_tok() && sp[1] == patterns::one_tok() {
                Ok(ParserV { sum: SummaryV { deltas: Delta { d1: v, ..d }, ..p.sum }, ..p })
            } else if sp[0] == patterns::d_lc_tok() && sp[1] == patterns::two_tok() {
                Ok(ParserV { sum: SummaryV { deltas: Delta { d2: v, ..d }, ..p.sum }, ..p })
            } else {
                Err(ParseError::UnknownDistortionConstant)
            }
        }
    } else if sp.len() < 3 {
        Err(ParseError::MalformedLine)
    } else {
        Ok(
            ParserV {
                sum: SummaryV {
                    deltas: Delta { de: Some(spec_parse_dec(sp[2])), ..p.sum.deltas },
                    ..p.sum
                },
                ..p
            },
        )
    }
}

pub open spec fn spec_phi_line(p: ParserV, l: Seq<char>) -> Result<ParserV, ParseError> {
    let sp = split_ws(l);
    if sp.len() > 3 {
        if sp.len() < 5 {
            Err(ParseError::MalformedLine)
        } else {
            // the report prints sextic constants in Hz; the record holds MHz
            let v = Some(spec_div_million(spec_parse_dec(sp[4])));
            let ph = p.sum.phis;
            if sp[0] == patterns::phi_uc_tok() && sp[1] == patterns::j_uc_tok() {
                Ok(ParserV { sum: SummaryV { phis: Phi { big_phi_j: v, ..ph }, ..p.sum }, ..p })
            } else if sp[0] == patterns::phi_uc_tok() && sp[1] == patterns::k_uc_tok() {
                Ok(ParserV { sum: SummaryV { phis: Phi { big_phi_k: v, ..ph }, ..p.sum }, ..p })
            } else if sp[0] == patterns::phi_uc_tok() && sp[1] == patterns::jk_uc_tok() {
                Ok(ParserV { sum: SummaryV { phis: Phi { big_phi_jk: v, ..ph }, ..p.sum }, ..p })
            } else if sp[0] == patterns::phi_uc_tok() && sp[1] == patterns::kj_uc_tok() {
                Ok(ParserV { sum: SummaryV { phis: Phi { big_phi_kj: v, ..ph }, ..p.sum }, ..p })
            } else if sp[0] == patterns::phi_lc_tok() && sp[1] == patterns::j_lc_tok() {
                Ok(ParserV { sum: SummaryV { phis: Phi { phi_j: v, ..ph }, ..p.sum }, ..p })
            } else if sp[0] == patterns::phi_lc_tok() && sp[1] == patterns::jk_lc_tok() {
                Ok(ParserV { sum: SummaryV { phis: Phi { phi_jk: v, ..ph }, ..p.sum }, ..p })
            } else if sp[0] == patterns::phi_lc_tok() && sp[1] == patterns::k_lc_tok() {
                Ok(ParserV { sum: SummaryV { phis: Phi { phi_k: v, ..ph }, ..p.sum }, ..p })
            } else if sp[0] == patterns::h_uc_tok() && sp[1] == patterns::j_uc_tok() {
                Ok(ParserV { sum: SummaryV { phis: Phi { h_j: v, ..ph }, ..p.sum }, ..p })
            } else if sp[0] == patterns::h_uc_tok() && sp[1] == patterns::jk_uc_tok() {
                Ok(ParserV { sum: SummaryV { phis: Phi { h_jk: v, ..ph }, ..p.sum }, ..p })
            } else if sp[0] == patterns::h_uc_tok() && sp[1] == patterns::kj_uc_tok() {
                Ok(ParserV { sum: SummaryV { phis: Phi { h_kj: v, ..ph }, ..p.sum }, ..p })
            } else if sp[0] == patterns::h_uc_tok() && sp[1] == patterns::k_uc_tok() {
                Ok(ParserV { sum: SummaryV { phis: Phi { h_k: v, ..ph }, ..p.sum }, ..p })
            } else if sp[0] == patterns::h_lc_tok() && sp[1] == patterns::one_tok() {
                Ok(ParserV { sum: SummaryV { phis: Phi { h1: v, ..ph }, ..p.sum }, ..p })
            } else if sp[0] == patterns::h_lc_tok() && sp[1] == patterns::two_tok() {
                Ok(ParserV { sum: SummaryV { phis: Phi { h2: v, ..ph }, ..p.sum }, ..p })
            } else if sp[0] == patterns::h_lc_tok() && sp[1] == patterns::three_tok() {
                Ok(ParserV { sum: SummaryV { phis: Phi { h3: v, ..ph }, ..p.sum }, ..p })
            } else {
                Err(ParseError::UnknownDistortionConstant)
            }
        }
    } else if sp.len() < 3 {
        Err(ParseError::MalformedLine)
    } else {
        Ok(
            ParserV {
                sum: SummaryV {
                    phis: Phi {
                        he: Some(spec_div_million(spec_parse_dec(sp[2]))),
                        ..p.sum.phis
                    },
                    ..p.sum
                },
                ..p
            },
        )
    }
}

pub open spec fn spec_fermi_head(p: ParserV, l: Seq<char>) -> Result<ParserV, ParseError> {
    let f = split_ws(l);
    if f.len() < 3 {
        Err(ParseError::MalformedLine)
    } else if f[2] == patterns::one_tok() {
        Ok(ParserV { state: State::Fermi1, skip: 2, ..p })
    } else if f[2] == patterns::two_tok() {
        Ok(ParserV { state: State::Fermi2, skip: 3, ..p })
    } else {
        Ok(p)
    }
}

pub open spec fn spec_fermi_line(p: ParserV, l: Seq<char>) -> Result<ParserV, ParseError> {
    let f = split_ws(l);
    if p.state == State::Fermi1 {
        if f.len() < 2 {
            Err(ParseError::MalformedLine)
        } else {
            match (spec_parse_usize(f[0]), spec_parse_usize(f[1])) {
                (Some(a), Some(b)) => Ok(
                    ParserV {
                        sum: SummaryV { fermi: spec_fermi_insert(p.sum.fermi, b, (a, a)), ..p.sum },
                        ..p
                    },
                ),
                _ => Err(ParseError::MalformedLine),
            }
        }
    } else {
        if f.len() < 4 {
            Err(ParseError::MalformedLine)
        } else {
            // token 1 is the `+` joining the two contributing modes
            match (spec_parse_usize(f[0]), spec_parse_usize(f[2]), spec_parse_usize(f[3])) {
                (Some(a), Some(b), Some(c)) => Ok(
                    ParserV {
                        sum: SummaryV { fermi: spec_fermi_insert(p.sum.fermi, c, (a, b)), ..p.sum },
                        ..p
                    },
                ),
                _ => Err(ParseError::MalformedLine),
            }
        }
    }
}

pub open spec fn spec_coriol_line(p: ParserV, l: Seq<char>) -> Result<ParserV, ParseError> {
    let f = split_ws(l);
    if f.len() < 3 {
        Err(ParseError::MalformedLine)
    } else {
        match (spec_parse_usize(f[0]), spec_parse_usize(f[1]), spec_parse_usize(f[2])) {
            (Some(a), Some(b), Some(axis)) => Ok(
                ParserV {
                    sum: SummaryV {
                        coriolis: spec_coriol_insert(p.sum.coriolis, (a, b), axis),
                        ..p.sum
                    },
                    ..p
                },
            ),
            _ => Err(ParseError::MalformedLine),
        }
    }
}

pub open spec fn spec_coords_line(p: ParserV, l: Seq<char>) -> Result<ParserV, ParseError> {
    let f = split_ws(l);
    if f.len() < 2 {
        Err(ParseError::MalformedLine)
    } else {
        // a linear bend carries one extra label token
        let off: int = if f[1] == patterns::linear_tok() {
            1
        } else {
            0
        };
        if f.len() < 5 + off {
            Err(ParseError::MalformedLine)
        } else {
            Ok(
                ParserV {
                    sum: SummaryV {
                        requil: p.sum.requil.push(spec_parse_dec(f[2 + off])),
                        ralpha: p.sum.ralpha.push(spec_parse_dec(f[4 + off])),
                        ..p.sum
                    },
                    ..p
                },
            )
        }
    }
}

pub open spec fn spec_curvil_line(p: ParserV, l: Seq<char>) -> Result<ParserV, ParseError> {
    if all_ws(l) || has_prefix(l, patterns::optdl_marker()) {
        Ok(ParserV { state: State::Idle, ..p })
    } else {
        let nf = split_ws(paren_clean(l));
        if nf.len() < 2 {
            Err(ParseError::MalformedLine)
        } else {
            let ids = ids_from(nf, 3);
            if nf[1] == patterns::bond_tok() {
                if ids.len() < 2 {
                    Err(ParseError::MalformedLine)
                } else {
                    Ok(
                        ParserV {
                            sum: SummaryV {
                                curvils: p.sum.curvils.push(Curvil::Bond(ids[0], ids[1])),
                                ..p.sum
                            },
                            ..p
                        },
                    )
                }
            } else if nf[1] == patterns::angle_tok() {
                if ids.len() < 3 {
                    Err(ParseError::MalformedLine)
                } else {
                    Ok(
                        ParserV {
                            sum: SummaryV {
                                curvils: p.sum.curvils.push(Curvil::Angle(ids[0], ids[1], ids[2])),
                                ..p.sum
                            },
                            ..p
                        },
                    )
                }
            } else if nf[1] == patterns::torsion_tok() {
                if ids.len() < 4 {
                    Err(ParseError::MalformedLine)
                } else {
                    Ok(
                        ParserV {
                            sum: SummaryV {
                                curvils: p.sum.curvils.push(
                                    Curvil::Torsion(ids[0], ids[1], ids[2], ids[3]),
                                ),
                                ..p.sum
                            },
                            ..p
                        },
                    )
                }
            } else if nf[1] == patterns::linear_tok() {
                // the label is two words, so the index fields sit one
                // position earlier
                let ids2 = ids_from(nf, 2);
                if ids2.len() < 3 {
                    Err(ParseError::MalformedLine)
                } else {
                    Ok(
                        ParserV {
                            sum: SummaryV {
                                curvils: p.sum.curvils.push(
                                    Curvil::Linear(ids2[0], ids2[1], ids2[2]),
                                ),
                                ..p.sum
                            },
                            ..p
                        },
                    )
                }
            } else {
                Err(ParseError::UnknownCurvilType)
            }
        }
    }
}

/// The whole transition relation: what one line does to the scan.
pub open spec fn spec_step(p: ParserV, l: Seq<char>) -> Result<ParserV, ParseError> {
    if p.skip > 0 {
        Ok(ParserV { skip: p.skip - 1, ..p })
    } else if has_substr(l, patterns::geom_marker()) {
        Ok(ParserV { skip: 2, state: State::Geom, ..p })
    } else if p.state == State::Geom {
        spec_geom(p, l)
    } else if has_substr(l, patterns::lxm_marker()) {
        // for degenerate modes the matrix is printed twice: reset
        Ok(
            ParserV {
                skip: 2,
                state: State::Lxm,
                block: 0,
                lxm_freqs: Seq::empty(),
                sum: SummaryV { lxm: Seq::empty(), ..p.sum },
                ..p
            },
        )
    } else if p.state == State::Lxm {
        spec_lxm(p, l)
    } else if has_substr(l, patterns::band_marker()) {
        Ok(ParserV { skip: 3, state: State::Fund, ..p })
    } else if has_substr(l, patterns::dunham_marker()) || has_substr(
        l,
        patterns::vib_energy_marker(),
    ) {
        Ok(ParserV { state: State::Idle, ..p })
    } else if p.state == State::Fund && has_digit(l) {
        spec_fund(p, l)
    } else if has_substr(l, patterns::state_no_marker()) && !has_substr(
        l,
        patterns::spectrum_marker(),
    ) {
        Ok(ParserV { skip: 2, state: State::Corr, ..p })
    } else if p.state == State::Corr && has_substr(l, patterns::star_run()) {
        Ok(ParserV { state: State::Idle, ..p })
    } else if p.state == State::Corr && has_substr(l, patterns::nondeg_vs_marker()) {
        spec_corr_vs(p, l)
    } else if p.state == State::Corr && has_substr(l, patterns::degen_vt_marker()) {
        spec_corr_vt(p, l)
    } else if p.state == State::Corr && has_substr(l, patterns::degen_vl_marker()) {
        // nothing: the count was handled on the matching degenerate line
        Ok(p)
    } else if p.state == State::Corr && has_substr(l, patterns::bracket_marker()) {
        Ok(ParserV { state: State::Idle, ..p })
    } else if p.state == State::Corr && l.len() > 0 {
        spec_corr_other(p, l)
    } else if p.state == State::Corr && l.len() == 0 && p.vib_states.len() > 0 {
        Ok(spec_flush(p))
    } else if has_substr(l, patterns::rot_states_marker()) {
        Ok(spec_rot_header(p, l))
    } else if has_substr(l, patterns::rot_analysis_marker()) {
        Ok(ParserV { state: State::RotA, rot_good: true, ..p })
    } else if p.rot_good && has_substr(l, patterns::bza_marker()) {
        Ok(ParserV { state: State::RotA, ..p })
    } else if p.rot_good && p.sum.deltas.de is Some && has_substr(l, patterns::bzs_marker()) {
        Ok(ParserV { state: State::RotS, ..p })
    } else if has_substr(l, patterns::coords_marker()) {
        Ok(
            ParserV {
                state: State::Coords,
                skip: 12 + if p.sum.rot_equil.len() == 1 {
                    1int
                } else {
                    0
                },
                ..p
            },
        )
    } else if p.state == State::RotA && p.rot_good {
        Ok(spec_rota(p, l))
    } else if p.state == State::RotS && p.rot_good {
        spec_rots(p, l)
    } else if has_substr(l, patterns::be_marker()) {
        spec_be(p, l)
    } else if spec_delta_marker(l) {
        spec_delta_line(p, l)
    } else if spec_phi_marker(l) {
        spec_phi_line(p, l)
    } else if has_prefix_ci(l, patterns::fermi_marker_lc()) {
        spec_fermi_head(p, l)
    } else if (p.state == State::Fermi1 || p.state == State::Fermi2) && all_ws(l) {
        Ok(ParserV { state: State::Idle, ..p })
    } else if p.state == State::Fermi1 || p.state == State::Fermi2 {
        spec_fermi_line(p, l)
    } else if has_prefix_ci(l, patterns::coriol_marker_lc()) {
        Ok(ParserV { state: State::Coriolis, skip: 2, ..p })
    } else if p.state == State::Coriolis && all_ws(l) {
        Ok(ParserV { state: State::Idle, ..p })
    } else if p.state == State::Coriolis {
        spec_coriol_line(p, l)
    } else if p.state == State::Coords && all_ws(l) {
        Ok(ParserV { state: State::Idle, ..p })
    } else if p.state == State::Coords {
        spec_coords_line(p, l)
    } else if has_prefix(l, patterns::curvil_marker()) {
        Ok(ParserV { state: State::Curvil, skip: 4, ..p })
    } else if p.state == State::Curvil {
        spec_curvil_line(p, l)
    } else {
        Ok(p)
    }
}

/// The scan folded over a prefix of the report.
pub open spec fn spec_run(lines: Seq<Seq<char>>) -> Result<ParserV, ParseError>
    decreases lines.len(),
{
    if lines.len() == 0 {
        Ok(spec_init())
    } else {
        match spec_run(lines.drop_last()) {
            Err(e) => Err(e),
            Ok(p) => spec_step(p, lines.last()),
        }
    }
}

/// A matrix frequency at position `i` repeats an earlier one.
pub open spec fn seen_before(freqs: Seq<Dec>, i: int) -> bool {
    exists|j: int| 0 <= j < i && veq(freqs[j], freqs[i])
}

/// Pair the gathered matrix frequencies with the mode vectors in encounter
/// order and keep each vector whose frequency was not seen before.
pub open spec fn dedup_upto(freqs: Seq<Dec>, vecs: Seq<Seq<Dec>>, n: int) -> Seq<Seq<Dec>>
    decreases n,
{
    if n <= 0 {
        Seq::empty()
    } else {
        let pre = dedup_upto(freqs, vecs, n - 1);
        if seen_before(freqs, n - 1) {
            pre
        } else {
            pre.push(vecs[n - 1])
        }
    }
}

pub open spec fn min_len(a: int, b: int) -> int {
    if a <= b {
        a
    } else {
        b
    }
}

/// The degenerate-mode deduplication of the normal-mode vectors.
pub open spec fn spec_dedup(freqs: Seq<Dec>, vecs: Seq<Seq<Dec>>) -> Seq<Seq<Dec>> {
    dedup_upto(freqs, vecs, min_len(freqs.len() as int, vecs.len() as int))
}

/// After the scan: deduplicate the normal-mode vectors against the
/// gathered matrix frequencies.
pub open spec fn spec_finalize(p: ParserV) -> SummaryV {
    SummaryV { lxm: spec_dedup(p.lxm_freqs, p.sum.lxm), ..p.sum }
}

/// What a whole report denotes: the record, or the structural fault that
/// aborts the parse.
pub open spec fn spec_parse(lines: Seq<Seq<char>>) -> Result<SummaryV, ParseError> {
    match spec_run(lines) {
        Ok(p) => Ok(spec_finalize(p)),
        Err(e) => Err(e),
    }
}

/// The bounds the scan maintains on its gathered values: matrix
/// frequencies are freshly parsed, equilibrium rotational constants are in
/// MHz.
pub open spec fn wf_parser(p: ParserV) -> bool {
    (forall|i: int|
        0 <= i < p.lxm_freqs.len() ==> crate::dec::parse_bounded(#[trigger] p.lxm_freqs[i]))
        && (forall|i: int|
        0 <= i < p.sum.rot_equil.len() ==> crate::dec::mhz_bounded(#[trigger] p.sum.rot_equil[i]))
}

/// Once a prefix of the report aborts the scan, the whole report does,
/// with the same fault.
pub proof fn lemma_run_extend_err(lines: Seq<Seq<char>>, k: int)
    requires
        0 <= k <= lines.len(),
        spec_run(lines.take(k)) is Err,
    ensures
        spec_run(lines) == spec_run(lines.take(k)),
    decreases lines.len() - k,
{
    if k == lines.len() {
        assert(lines.take(k) =~= lines);
    } else {
        assert(lines.take(k + 1).drop_last() =~= lines.take(k));
        lemma_run_extend_err(lines, k + 1);
    }
}

} // verus!
