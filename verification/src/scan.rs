//! The runtime scanner: executable counterparts of the section handlers
//! of [`crate::machine`], each proved to follow its spec function exactly.

use vstd::prelude::*;

use crate::dec::dec_le;
use crate::dec::dec_lt;
use crate::dec::dec_veq;
use crate::dec::dec_abs_le;
use crate::dec::lemma_parse_dec_bounded;
use crate::dec::mhz_bounded;
use crate::dec::parse_bounded;
use crate::dec::parse_dec;
use crate::dec::parse_usize_tok;
use crate::dec::spec_parse_dec;
use crate::dec::spec_parse_usize;
use crate::dec::vabs_le;
use crate::dec::veq;
use crate::dec::vle;
use crate::dec::vlt;
use crate::dec::Dec;
use crate::machine::dedup_upto;
use crate::machine::first_one;
use crate::machine::lemma_first_one;
use crate::machine::ids_from;
use crate::machine::insert_abs_desc;
use crate::machine::insert_desc;
use crate::machine::lxm_put;
use crate::machine::min_len;
use crate::machine::paren_clean;
use crate::machine::paren_fold;
use crate::machine::rot_skip;
use crate::machine::rotrans_thresh;
use crate::machine::count_tok;
use crate::machine::seen_before;
use crate::machine::spec_dedup;
use crate::machine::spec_lxm_freqs;
use crate::machine::spec_lxm_row;
use crate::machine::spec_parse_usizes;
use crate::machine::write_slot;
use crate::machine::spec_be;
use crate::machine::spec_coords_line;
use crate::machine::spec_corr_other;
use crate::machine::spec_corr_vs;
use crate::machine::spec_corr_vt;
use crate::machine::spec_curvil_line;
use crate::machine::spec_delta_line;
use crate::machine::spec_fermi_head;
use crate::machine::spec_fermi_line;
use crate::machine::spec_phi_line;
use crate::machine::spec_coriol_line;
use crate::machine::spec_fund;
use crate::machine::spec_geom;
use crate::machine::spec_lxm;
use crate::machine::spec_rot_header;
use crate::machine::spec_rota;
use crate::machine::spec_rots;
use crate::machine::spec_parse;
use crate::machine::spec_run;
use crate::machine::spec_step;
use crate::summary::Summary;
use crate::machine::wf_parser;
use crate::machine::Parser;
use crate::machine::ParserV;
use crate::machine::State;
use crate::summary::Atom;
use crate::summary::ParseError;
use crate::summary::SummaryV;
use crate::curvil::Curvil;
use crate::patterns;
use crate::text::chars_eq;
use crate::text::split_ws;

verus! {

/// The rows of a matrix accumulator, as sequences.
pub open spec fn rows_view(v: Seq<Vec<Dec>>) -> Seq<Seq<Dec>> {
    Seq::new(v.len(), |i: int| v[i]@)
}

/// The tokens of a line, as sequences.
pub open spec fn toks_view(v: Seq<Vec<char>>) -> Seq<Seq<char>> {
    Seq::new(v.len(), |i: int| v[i]@)
}

/// Split a line and hand its tokens over with their sequence view pinned.
pub fn tokens_of(l: &Vec<char>) -> (f: Vec<Vec<char>>)
    ensures
        toks_view(f@) == split_ws(l@),
{
    let f = crate::text::split_ws_vec(l);
    proof {
        assert(toks_view(f@) =~~= f.deep_view());
    }
    f
}

/// A row whose token at position `j` is not a number makes the whole row
/// unreadable.
proof fn lemma_usizes_fail(s: Seq<Seq<char>>, j: int)
    requires
        0 <= j < s.len(),
        spec_parse_usize(s[j]) is None,
    ensures
        spec_parse_usizes(s) is None,
    decreases s.len(),
{
    if s.len() > 0 {
        if j == s.len() - 1 {
        } else {
            assert(s.drop_last()[j] == s[j]);
            lemma_usizes_fail(s.drop_last(), j);
        }
    }
}

/// Parse the tokens from position `from` on as a row of quantum numbers.
pub fn parse_usizes_from(f: &Vec<Vec<char>>, from: usize) -> (r: Option<Vec<usize>>)
    requires
        from <= f@.len(),
    ensures
        match r {
            Some(v) => spec_parse_usizes(toks_view(f@).subrange(from as int, f@.len() as int))
                == Some(v@),
            None => spec_parse_usizes(toks_view(f@).subrange(from as int, f@.len() as int))
                is None,
        },
{
    let ghost s = toks_view(f@).subrange(from as int, f@.len() as int);
    let n = f.len();
    let mut out: Vec<usize> = Vec::new();
    let mut i: usize = from;
    while i < n
        invariant
            from <= i <= n,
            n == f@.len(),
            s == toks_view(f@).subrange(from as int, f@.len() as int),
            spec_parse_usizes(s.take(i - from)) == Some(out@),
        decreases n - i,
    {
        proof {
            assert(s.take(i - from + 1).drop_last() =~= s.take(i - from));
            assert(s.take(i - from + 1).last() == s[i - from]);
            assert(s[i - from] == f@[i as int]@);
        }
        match parse_usize_tok(&f[i]) {
            Some(u) => {
                out.push(u);
            },
            None => {
                proof {
                    lemma_usizes_fail(s, i - from);
                }
                return None;
            },
        }
        i += 1;
    }
    proof {
        assert(s.take(s.len() as int) =~= s);
    }
    Some(out)
}

/// Grow the matrix with empty rows up to `idx`, then append `d` to row
/// `idx`.
fn lxm_put_exec(lxm: &mut Vec<Vec<Dec>>, idx: usize, d: Dec)
    requires
        idx < usize::MAX,
    ensures
        rows_view(final(lxm)@) == lxm_put(rows_view(old(lxm)@), idx as int, d),
{
    if lxm.len() <= idx {
        while lxm.len() <= idx
            invariant
                idx < usize::MAX,
                old(lxm)@.len() <= lxm@.len() <= idx + 1,
                rows_view(lxm@) =~~= rows_view(old(lxm)@) + Seq::new(
                    (lxm@.len() - old(lxm)@.len()) as nat,
                    |i: int| Seq::<Dec>::empty(),
                ),
            decreases idx + 1 - lxm@.len(),
        {
            let ghost before = lxm@;
            let row: Vec<Dec> = Vec::new();
            lxm.push(row);
            proof {
                assert(rows_view(lxm@) =~~= rows_view(before).push(Seq::<Dec>::empty()));
                assert(rows_view(before).push(Seq::<Dec>::empty()) =~~= rows_view(old(lxm)@)
                    + Seq::new(
                    (lxm@.len() - old(lxm)@.len()) as nat,
                    |i: int| Seq::<Dec>::empty(),
                ));
            }
        }
    }
    let mut row = lxm.remove(idx);
    row.push(d);
    lxm.insert(idx, row);
    proof {
        assert(rows_view(lxm@) =~~= lxm_put(rows_view(old(lxm)@), idx as int, d));
    }
}

/// Append the displacements of one matrix row.
pub fn lxm_row_exec(lxm: &mut Vec<Vec<Dec>>, block: usize, f: &Vec<Vec<char>>)
    requires
        f@.len() >= 1,
        10 * (block as int) + f@.len() <= usize::MAX as int,
    ensures
        rows_view(final(lxm)@) == spec_lxm_row(
            rows_view(old(lxm)@),
            block as int,
            toks_view(f@),
            0,
        ),
{
    let ghost fs = toks_view(f@);
    let ghost orig = rows_view(old(lxm)@);
    let n = f.len();
    let mut c: usize = 0;
    while c + 1 < n
        invariant
            0 <= c,
            c + 1 <= n,
            n == f@.len(),
            fs == toks_view(f@),
            10 * (block as int) + n <= usize::MAX as int,
            spec_lxm_row(orig, block as int, fs, 0) == spec_lxm_row(
                rows_view(lxm@),
                block as int,
                fs,
                c as int,
            ),
        decreases n - c,
    {
        let d = parse_dec(&f[c + 1]);
        proof {
            assert(fs[c + 1] == f@[c + 1]@);
        }
        let idx = 10 * block + c;
        lxm_put_exec(lxm, idx, d);
        c += 1;
    }
    proof {
        assert(spec_lxm_row(rows_view(lxm@), block as int, fs, c as int) == rows_view(lxm@));
    }
}

/// The frequencies a non-row matrix line carries are all freshly parsed,
/// so within the parse bounds.
proof fn lemma_lxm_freqs_bounded(f: Seq<Seq<char>>)
    ensures
        forall|i: int|
            0 <= i < spec_lxm_freqs(f).len() ==> #[trigger] parse_bounded(spec_lxm_freqs(f)[i]),
    decreases f.len(),
{
    if f.len() > 0 {
        lemma_lxm_freqs_bounded(f.drop_last());
        lemma_parse_dec_bounded(f.last());
        let pre = spec_lxm_freqs(f.drop_last());
        let d = spec_parse_dec(f.last());
        assert forall|i: int|
            0 <= i < spec_lxm_freqs(f).len() implies #[trigger] parse_bounded(
            spec_lxm_freqs(f)[i],
        ) by {
            if vlt(rotrans_thresh(), d) {
                if i < pre.len() {
                    assert(spec_lxm_freqs(f)[i] == pre[i]);
                } else {
                    assert(spec_lxm_freqs(f)[i] == d);
                }
            } else {
                assert(spec_lxm_freqs(f)[i] == pre[i]);
            }
        }
    }
}

/// Gather the matrix frequencies of a non-row line, discarding values at
/// or below the rotation/translation threshold.
pub fn lxm_freqs_exec(out: &mut Vec<Dec>, f: &Vec<Vec<char>>)
    ensures
        final(out)@ == old(out)@ + spec_lxm_freqs(toks_view(f@)),
{
    let ghost fs = toks_view(f@);
    let thr = Dec { mant: 300, scale: 1 };
    let n = f.len();
    let mut i: usize = 0;
    while i < n
        invariant
            0 <= i <= n,
            n == f@.len(),
            fs == toks_view(f@),
            thr == rotrans_thresh(),
            out@ == old(out)@ + spec_lxm_freqs(fs.take(i as int)),
        decreases n - i,
    {
        proof {
            assert(fs.take(i + 1).drop_last() =~= fs.take(i as int));
            assert(fs.take(i + 1).last() == fs[i as int]);
            assert(fs[i as int] == f@[i as int]@);
        }
        let d = parse_dec(&f[i]);
        if dec_lt(&thr, &d) {
            out.push(d);
        }
        i += 1;
    }
    proof {
        assert(fs.take(fs.len() as int) =~= fs);
    }
}

proof fn lemma_insert_desc_split(s: Seq<Dec>, d: Dec, i: int)
    requires
        0 <= i <= s.len(),
        forall|j: int| 0 <= j < i ==> vle(d, s[j]),
        i < s.len() ==> !vle(d, s[i]),
    ensures
        insert_desc(s, d) == s.take(i) + seq![d] + s.skip(i),
    decreases s.len(),
{
    if s.len() == 0 {
        assert(insert_desc(s, d) =~= s.take(0) + seq![d] + s.skip(0));
    } else if i == 0 {
        assert(insert_desc(s, d) =~= s.take(0) + seq![d] + s.skip(0));
    } else {
        assert(vle(d, s[0]));
        lemma_insert_desc_split(s.drop_first(), d, i - 1);
        assert(s.drop_first().take(i - 1) =~= s.take(i).drop_first());
        assert(s.drop_first().skip(i - 1) =~= s.skip(i));
        assert(seq![s[0]] + insert_desc(s.drop_first(), d) =~= s.take(i) + seq![d] + s.skip(i));
    }
}

proof fn lemma_insert_abs_desc_split(s: Seq<Dec>, d: Dec, i: int)
    requires
        0 <= i <= s.len(),
        forall|j: int| 0 <= j < i ==> vabs_le(d, s[j]),
        i < s.len() ==> !vabs_le(d, s[i]),
    ensures
        insert_abs_desc(s, d) == s.take(i) + seq![d] + s.skip(i),
    decreases s.len(),
{
    if s.len() == 0 {
        assert(insert_abs_desc(s, d) =~= s.take(0) + seq![d] + s.skip(0));
    } else if i == 0 {
        assert(insert_abs_desc(s, d) =~= s.take(0) + seq![d] + s.skip(0));
    } else {
        assert(vabs_le(d, s[0]));
        lemma_insert_abs_desc_split(s.drop_first(), d, i - 1);
        assert(s.drop_first().take(i - 1) =~= s.take(i).drop_first());
        assert(s.drop_first().skip(i - 1) =~= s.skip(i));
        assert(seq![s[0]] + insert_abs_desc(s.drop_first(), d) =~= s.take(i) + seq![d] + s.skip(
            i,
        ));
    }
}

/// Stable insertion keeping the vector non-increasing by value.
fn insert_desc_vec(v: &mut Vec<Dec>, d: Dec)
    requires
        forall|j: int| 0 <= j < old(v)@.len() ==> mhz_bounded(old(v)@[j]),
        mhz_bounded(d),
    ensures
        final(v)@ == insert_desc(old(v)@, d),
        forall|j: int| 0 <= j < final(v)@.len() ==> mhz_bounded(final(v)@[j]),
{
    let n = v.len();
    let mut i: usize = 0;
    while i < n
        invariant
            0 <= i <= n,
            n == v@.len(),
            *v == *old(v),
            forall|j: int| 0 <= j < old(v)@.len() ==> mhz_bounded(old(v)@[j]),
            mhz_bounded(d),
            forall|j: int| 0 <= j < i ==> vle(d, v@[j]),
        decreases n - i,
    {
        if !dec_le(&d, &v[i]) {
            proof {
                lemma_insert_desc_split(v@, d, i as int);
            }
            v.insert(i, d);
            proof {
                assert(v@ =~= old(v)@.take(i as int) + seq![d] + old(v)@.skip(i as int));
            }
            return ;
        }
        i += 1;
    }
    proof {
        lemma_insert_desc_split(v@, d, n as int);
    }
    v.push(d);
    proof {
        assert(v@ =~= old(v)@.take(n as int) + seq![d] + old(v)@.skip(n as int));
    }
}

/// Stable insertion keeping the vector non-increasing by magnitude.
fn insert_abs_desc_vec(v: &mut Vec<Dec>, d: Dec)
    requires
        forall|j: int| 0 <= j < old(v)@.len() ==> mhz_bounded(old(v)@[j]),
        mhz_bounded(d),
    ensures
        final(v)@ == insert_abs_desc(old(v)@, d),
        forall|j: int| 0 <= j < final(v)@.len() ==> mhz_bounded(final(v)@[j]),
{
    let n = v.len();
    let mut i: usize = 0;
    while i < n
        invariant
            0 <= i <= n,
            n == v@.len(),
            *v == *old(v),
            forall|j: int| 0 <= j < old(v)@.len() ==> mhz_bounded(old(v)@[j]),
            mhz_bounded(d),
            forall|j: int| 0 <= j < i ==> vabs_le(d, v@[j]),
        decreases n - i,
    {
        if !dec_abs_le(&d, &v[i]) {
            proof {
                lemma_insert_abs_desc_split(v@, d, i as int);
            }
            v.insert(i, d);
            proof {
                assert(v@ =~= old(v)@.take(i as int) + seq![d] + old(v)@.skip(i as int));
            }
            return ;
        }
        i += 1;
    }
    proof {
        lemma_insert_abs_desc_split(v@, d, n as int);
    }
    v.push(d);
    proof {
        assert(v@ =~= old(v)@.take(n as int) + seq![d] + old(v)@.skip(n as int));
    }
}

/// The three values of a rotational row, sorted descending.
pub fn sort3_desc_exec(a: Dec, b: Dec, c: Dec) -> (r: Vec<Dec>)
    requires
        mhz_bounded(a),
        mhz_bounded(b),
        mhz_bounded(c),
    ensures
        r@ == crate::machine::sort3_desc(a, b, c),
{
    let mut v: Vec<Dec> = Vec::new();
    insert_desc_vec(&mut v, a);
    insert_desc_vec(&mut v, b);
    insert_desc_vec(&mut v, c);
    v
}

/// The three values sorted by magnitude descending.
pub fn sort3_abs_desc_exec(a: Dec, b: Dec, c: Dec) -> (r: Vec<Dec>)
    requires
        mhz_bounded(a),
        mhz_bounded(b),
        mhz_bounded(c),
    ensures
        r@ == crate::machine::sort3_abs_desc(a, b, c),
        forall|j: int| 0 <= j < r@.len() ==> mhz_bounded(r@[j]),
{
    let mut v: Vec<Dec> = Vec::new();
    insert_abs_desc_vec(&mut v, a);
    insert_abs_desc_vec(&mut v, b);
    insert_abs_desc_vec(&mut v, c);
    v
}

/// Whether every gathered quantum number is zero.
pub fn all_zero_exec(v: &Vec<usize>) -> (r: bool)
    ensures
        r == crate::machine::all_zero(v@),
{
    let n = v.len();
    let mut i: usize = 0;
    while i < n
        invariant
            0 <= i <= n,
            n == v@.len(),
            forall|j: int| 0 <= j < i ==> v@[j] == 0,
        decreases n - i,
    {
        if v[i] != 0 {
            return false;
        }
        i += 1;
    }
    true
}

/// First position whose quantum number is one, or the length.
fn find_one(v: &Vec<usize>) -> (r: usize)
    ensures
        0 <= r <= v@.len(),
        forall|j: int| 0 <= j < r ==> v@[j] != 1,
        r < v@.len() ==> v@[r as int] == 1,
{
    let n = v.len();
    let mut i: usize = 0;
    while i < n
        invariant
            0 <= i <= n,
            n == v@.len(),
            forall|j: int| 0 <= j < i ==> v@[j] != 1,
        decreases n - i,
    {
        if v[i] == 1 {
            return i;
        }
        i += 1;
    }
    i
}

/// Whether the gathered state is singly excited, and at which position.
pub fn singly_excited_exec(v: &Vec<usize>) -> (r: Option<usize>)
    ensures
        match r {
            Some(i) => crate::machine::singly_excited(v@) && i == first_one(v@) && i < v@.len(),
            None => !crate::machine::singly_excited(v@),
        },
{
    proof {
        lemma_first_one(v@);
    }
    let n = v.len();
    let fo = find_one(v);
    if fo == n {
        proof {
            assert(!crate::machine::singly_excited(v@)) by {
                if crate::machine::singly_excited(v@) {
                    let i = choose|i: int|
                        0 <= i < v@.len() && v@[i] == 1 && (forall|j: int|
                            0 <= j < v@.len() && j != i ==> v@[j] == 0);
                    assert(v@[i] != 1);
                }
            }
        }
        return None;
    }
    proof {
        assert(v@[fo as int] == 1);
        assert(fo as int == first_one(v@)) by {
            if first_one(v@) < fo {
                assert(v@[first_one(v@)] != 1);
            }
        }
    }
    let mut j: usize = 0;
    while j < n
        invariant
            0 <= j <= n,
            n == v@.len(),
            fo < n,
            v@[fo as int] == 1,
            fo as int == first_one(v@),
            forall|k: int| 0 <= k < j && k != fo ==> v@[k] == 0,
        decreases n - j,
    {
        if j != fo && v[j] != 0 {
            proof {
                assert(!crate::machine::singly_excited(v@)) by {
                    if crate::machine::singly_excited(v@) {
                        let i = choose|i: int|
                            0 <= i < v@.len() && v@[i] == 1 && (forall|k: int|
                                0 <= k < v@.len() && k != i ==> v@[k] == 0);
                        if i == fo {
                            assert(v@[j as int] == 0);
                        } else {
                            assert(v@[fo as int] == 0);
                        }
                    }
                }
            }
            return None;
        }
        j += 1;
    }
    proof {
        assert(crate::machine::singly_excited(v@)) by {
            assert(v@[fo as int] == 1 && (forall|k: int|
                0 <= k < v@.len() && k != fo ==> v@[k] == 0));
        }
    }
    Some(fo)
}

/// Zero-fill the corrected-frequency slots up to `idx`, then write `d`.
pub fn write_slot_exec(s: &mut Vec<Dec>, idx: usize, d: Dec)
    requires
        idx < usize::MAX,
    ensures
        final(s)@ == write_slot(old(s)@, idx as int, d),
{
    if s.len() <= idx {
        while s.len() <= idx
            invariant
                idx < usize::MAX,
                old(s)@.len() <= s@.len() <= idx + 1,
                s@ =~= old(s)@ + Seq::new(
                    (s@.len() - old(s)@.len()) as nat,
                    |i: int| Dec { mant: 0, scale: 0 },
                ),
            decreases idx + 1 - s@.len(),
        {
            s.push(Dec { mant: 0, scale: 0 });
            proof {
                assert(s@ =~= old(s)@ + Seq::new(
                    (s@.len() - old(s)@.len()) as nat,
                    |i: int| Dec { mant: 0, scale: 0 },
                ));
            }
        }
    }
    let mut row = s.remove(idx);
    row = d;
    s.insert(idx, row);
    proof {
        assert(s@ =~= write_slot(old(s)@, idx as int, d));
    }
}

/// Whether the gathered rotational descriptors show a combination or
/// doubly-excited state.
pub fn rot_skip_exec(rs: &Vec<Vec<char>>) -> (r: bool)
    ensures
        r == rot_skip(toks_view(rs@)),
{
    let ghost s = toks_view(rs@);
    let one = patterns::one_tok_vec();
    let two = patterns::two_tok_vec();
    let n = rs.len();
    let mut ones: usize = 0;
    let mut i: usize = 0;
    while i < n
        invariant
            0 <= i <= n,
            n == rs@.len(),
            s == toks_view(rs@),
            one@ == patterns::one_tok(),
            two@ == patterns::two_tok(),
            forall|j: int| 0 <= j < i ==> s[j] != patterns::two_tok(),
            ones <= i,
            ones == count_tok(s.take(i as int), patterns::one_tok()),
            ones < 2,
        decreases n - i,
    {
        proof {
            assert(s.take(i + 1).drop_last() =~= s.take(i as int));
            assert(s.take(i + 1).last() == s[i as int]);
            assert(s[i as int] == rs@[i as int]@);
        }
        if chars_eq(&rs[i], &two) {
            proof {
                assert(s[i as int] == patterns::two_tok());
            }
            return true;
        }
        if chars_eq(&rs[i], &one) {
            ones += 1;
            if ones >= 2 {
                proof {
                    lemma_count_tok_grow(s, i + 1);
                }
                return true;
            }
        }
        i += 1;
    }
    proof {
        assert(s.take(n as int) =~= s);
        assert(!rot_skip(s)) by {
            if exists|j: int| 0 <= j < s.len() && s[j] == patterns::two_tok() {
                let j = choose|j: int| 0 <= j < s.len() && s[j] == patterns::two_tok();
                assert(s[j] != patterns::two_tok());
            }
        }
    }
    false
}

/// A prefix never counts more occurrences than the whole.
proof fn lemma_count_tok_grow(s: Seq<Seq<char>>, i: int)
    requires
        0 <= i <= s.len(),
    ensures
        count_tok(s.take(i), patterns::one_tok()) <= count_tok(s, patterns::one_tok()),
    decreases s.len() - i,
{
    if i == s.len() {
        assert(s.take(i) =~= s);
    } else {
        assert(s.take(i + 1).drop_last() =~= s.take(i));
        lemma_count_tok_grow(s, i + 1);
    }
}

/// Fuse parenthesized atom labels of an internal-coordinate line.
pub fn paren_clean_exec(l: &Vec<char>) -> (r: Vec<char>)
    ensures
        r@ == paren_clean(l@),
{
    let n = l.len();
    let mut out: Vec<char> = Vec::new();
    let mut inp: bool = false;
    let mut i: usize = 0;
    while i < n
        invariant
            0 <= i <= n,
            n == l@.len(),
            (out@, inp) == paren_fold(l@.take(i as int)),
        decreases n - i,
    {
        proof {
            assert(l@.take(i + 1).drop_last() =~= l@.take(i as int));
            assert(l@.take(i + 1).last() == l@[i as int]);
        }
        let c = l[i];
        if c == '(' {
            out.push(' ');
            inp = true;
        } else if c == ')' {
            out.push(' ');
            inp = false;
        } else if inp && c == ' ' {
        } else {
            out.push(c);
        }
        i += 1;
    }
    proof {
        assert(l@.take(n as int) =~= l@);
    }
    out
}

/// The parse-able tokens at every other position from `start` on.
pub fn ids_from_exec(f: &Vec<Vec<char>>, start: usize) -> (r: Vec<usize>)
    ensures
        r@ == ids_from(toks_view(f@), start as int),
{
    let ghost fs = toks_view(f@);
    let n = f.len();
    let mut out: Vec<usize> = Vec::new();
    let mut i: usize = start;
    while i < n
        invariant
            start <= i,
            n == f@.len(),
            fs == toks_view(f@),
            ids_from(fs, start as int) == out@ + ids_from(fs, i as int),
        decreases n - i,
    {
        proof {
            assert(fs[i as int] == f@[i as int]@);
        }
        match parse_usize_tok(&f[i]) {
            Some(u) => {
                out.push(u);
            },
            None => {},
        }
        proof {
            if i + 2 <= fs.len() {
                assert(ids_from(fs, i as int) == (match spec_parse_usize(fs[i as int]) {
                    Some(u) => seq![u],
                    None => Seq::<usize>::empty(),
                }) + ids_from(fs, i + 2));
            } else {
                assert(ids_from(fs, i as int) =~~= (match spec_parse_usize(fs[i as int]) {
                    Some(u) => seq![u],
                    None => Seq::<usize>::empty(),
                }) + ids_from(fs, n as int));
            }
            if i + 2 <= n {
                assert(ids_from(fs, start as int) =~= out@ + ids_from(fs, i + 2));
            } else {
                assert(ids_from(fs, start as int) =~= out@ + ids_from(fs, n as int));
            }
        }
        if n - i >= 2 {
            i += 2;
        } else {
            i = n;
        }
    }
    proof {
        assert(ids_from(fs, i as int) =~= Seq::<usize>::empty());
        assert(out@ =~= out@ + ids_from(fs, i as int));
    }
    out
}

/// Copy one mode vector.
fn copy_row(v: &Vec<Dec>) -> (r: Vec<Dec>)
    ensures
        r@ == v@,
{
    let n = v.len();
    let mut out: Vec<Dec> = Vec::new();
    let mut i: usize = 0;
    while i < n
        invariant
            0 <= i <= n,
            n == v@.len(),
            out@ == v@.take(i as int),
        decreases n - i,
    {
        out.push(v[i]);
        proof {
            assert(out@ =~= v@.take(i + 1));
        }
        i += 1;
    }
    proof {
        assert(v@.take(n as int) =~= v@);
    }
    out
}

/// Deduplicate the normal-mode vectors against the gathered frequencies:
/// a vector whose frequency repeats an earlier one is dropped.
pub fn dedup_exec(freqs: &Vec<Dec>, vecs: &Vec<Vec<Dec>>) -> (r: Vec<Vec<Dec>>)
    requires
        forall|i: int| 0 <= i < freqs@.len() ==> parse_bounded(freqs@[i]),
    ensures
        rows_view(r@) == spec_dedup(freqs@, rows_view(vecs@)),
{
    let ghost vv = rows_view(vecs@);
    let n = if freqs.len() <= vecs.len() {
        freqs.len()
    } else {
        vecs.len()
    };
    proof {
        assert(n as int == min_len(freqs@.len() as int, vv.len() as int));
    }
    let mut out: Vec<Vec<Dec>> = Vec::new();
    let mut i: usize = 0;
    while i < n
        invariant
            0 <= i <= n,
            n <= freqs@.len(),
            n <= vecs@.len(),
            vv == rows_view(vecs@),
            forall|k: int| 0 <= k < freqs@.len() ==> parse_bounded(freqs@[k]),
            rows_view(out@) == dedup_upto(freqs@, vv, i as int),
        decreases n - i,
    {
        let mut seen: bool = false;
        let mut j: usize = 0;
        while j < i
            invariant
                0 <= j <= i < freqs@.len(),
                forall|k: int| 0 <= k < freqs@.len() ==> parse_bounded(freqs@[k]),
                seen == exists|k: int| 0 <= k < j && veq(freqs@[k], freqs@[i as int]),
            decreases i - j,
        {
            if !seen && dec_veq(&freqs[j], &freqs[i]) {
                seen = true;
            }
            j += 1;
        }
        proof {
            assert(seen == seen_before(freqs@, i as int));
        }
        if !seen {
            let row = copy_row(&vecs[i]);
            out.push(row);
            proof {
                assert(rows_view(out@) =~~= dedup_upto(freqs@, vv, i + 1));
            }
        } else {
            proof {
                assert(rows_view(out@) =~~= dedup_upto(freqs@, vv, i + 1));
            }
        }
        i += 1;
    }
    out
}

/// Copy one gathered token.
fn copy_chars(v: &Vec<char>) -> (r: Vec<char>)
    ensures
        r@ == v@,
{
    let n = v.len();
    let mut out: Vec<char> = Vec::new();
    let mut i: usize = 0;
    while i < n
        invariant
            0 <= i <= n,
            n == v@.len(),
            out@ == v@.take(i as int),
        decreases n - i,
    {
        out.push(v[i]);
        proof {
            assert(out@ =~= v@.take(i + 1));
        }
        i += 1;
    }
    proof {
        assert(v@.take(n as int) =~= v@);
    }
    out
}

fn geom_exec(p: &mut Parser, l: &Vec<char>) -> (r: Result<(), ParseError>)
    ensures
        match r {
            Ok(()) => spec_geom(old(p)@, l@) == Ok::<ParserV, ParseError>(final(p)@) && final(p)@.lxm_freqs == old(p)@.lxm_freqs && final(p)@.sum.rot_equil == old(p)@.sum.rot_equil,
            Err(e) => spec_geom(old(p)@, l@) == Err::<ParserV, ParseError>(e),
        },
{
    let f = tokens_of(l);
    let ghost fs = split_ws(l@);
    if f.len() == 0 {
        p.state = State::Idle;
        proof {
            assert(p@ =~~= (ParserV { state: State::Idle, ..old(p)@ }));
        }
        return Ok(());
    }
    if f.len() < 5 {
        return Err(ParseError::MalformedLine);
    }
    proof {
        assert(fs[4] == f@[4]@);
        assert(fs[1] == f@[1]@);
        assert(fs[2] == f@[2]@);
        assert(fs[3] == f@[3]@);
    }
    match patterns::weight_of(&f[4]) {
        None => Err(ParseError::UnknownIsotope),
        Some(num) => {
            let x = parse_dec(&f[1]);
            let y = parse_dec(&f[2]);
            let z = parse_dec(&f[3]);
            p.sum.geom.push(Atom { num, x, y, z });
            proof {
                assert(p@ =~~= (ParserV {
                    sum: SummaryV {
                        geom: old(p)@.sum.geom.push(
                            Atom {
                                num: num,
                                x: spec_parse_dec(fs[1]),
                                y: spec_parse_dec(fs[2]),
                                z: spec_parse_dec(fs[3]),
                            },
                        ),
                        ..old(p)@.sum
                    },
                    ..old(p)@
                }));
            }
            Ok(())
        },
    }
}

fn lxm_exec(p: &mut Parser, l: &Vec<char>) -> (r: Result<(), ParseError>)
    requires
        wf_parser(old(p)@),
    ensures
        match r {
            Ok(()) => spec_lxm(old(p)@, l@) == Ok::<ParserV, ParseError>(final(p)@) && wf_parser(
                final(p)@,
            ),
            Err(e) => spec_lxm(old(p)@, l@) == Err::<ParserV, ParseError>(e),
        },
{
    let f = tokens_of(l);
    let ghost fs = split_ws(l@);
    if f.len() == 0 {
        p.skip = 1;
        proof {
            assert(p@ =~~= (ParserV { skip: 1, ..old(p)@ }));
        }
        return Ok(());
    }
    if patterns::header_line(l) {
        if p.block == usize::MAX {
            return Err(ParseError::MalformedLine);
        }
        p.block = p.block + 1;
        proof {
            assert(p@ =~~= (ParserV { block: old(p)@.block + 1, ..old(p)@ }));
        }
        return Ok(());
    }
    let dashes = patterns::dash_run_vec();
    if crate::text::contains_sub(l, &dashes) {
        proof {
            assert(p@ =~~= old(p)@);
        }
        return Ok(());
    }
    let lx = patterns::lx_marker_vec();
    if crate::text::contains_sub(l, &lx) {
        p.state = State::Idle;
        proof {
            assert(p@ =~~= (ParserV { state: State::Idle, ..old(p)@ }));
        }
        return Ok(());
    }
    proof {
        assert(fs[0] == f@[0]@);
    }
    if crate::text::token_all_digits(&f[0]) {
        let max: usize = usize::MAX;
        if p.block > max / 10 {
            proof {
                assert(10 * old(p)@.block + fs.len() > usize::MAX as int);
            }
            return Err(ParseError::MalformedLine);
        }
        let base = 10 * p.block;
        if f.len() > max - base {
            return Err(ParseError::MalformedLine);
        }
        let b = p.block;
        lxm_row_exec(&mut p.sum.lxm, b, &f);
        proof {
            assert(p@.sum.lxm =~= rows_view(p.sum.lxm@));
            assert(old(p)@.sum.lxm =~= rows_view(old(p).sum.lxm@));
            assert(p@ =~~= (ParserV {
                sum: SummaryV {
                    lxm: spec_lxm_row(old(p)@.sum.lxm, old(p)@.block, fs, 0),
                    ..old(p)@.sum
                },
                ..old(p)@
            }));
        }
        return Ok(());
    }
    lxm_freqs_exec(&mut p.lxm_freqs, &f);
    proof {
        lemma_lxm_freqs_bounded(fs);
        assert(p@ =~~= (ParserV { lxm_freqs: old(p)@.lxm_freqs + spec_lxm_freqs(fs), ..old(p)@ }));
        assert forall|i: int| 0 <= i < p@.lxm_freqs.len() implies parse_bounded(
            #[trigger] p@.lxm_freqs[i],
        ) by {
            if i < old(p)@.lxm_freqs.len() {
                assert(p@.lxm_freqs[i] == old(p)@.lxm_freqs[i]);
            } else {
                assert(p@.lxm_freqs[i] == spec_lxm_freqs(fs)[i - old(p)@.lxm_freqs.len()]);
            }
        }
    }
    Ok(())
}

fn fund_exec(p: &mut Parser, l: &Vec<char>) -> (r: Result<(), ParseError>)
    ensures
        match r {
            Ok(()) => spec_fund(old(p)@, l@) == Ok::<ParserV, ParseError>(final(p)@) && final(p)@.lxm_freqs == old(p)@.lxm_freqs && final(p)@.sum.rot_equil == old(p)@.sum.rot_equil,
            Err(e) => spec_fund(old(p)@, l@) == Err::<ParserV, ParseError>(e),
        },
{
    let f = tokens_of(l);
    let ghost fs = split_ws(l@);
    if f.len() < 3 {
        return Err(ParseError::MalformedLine);
    }
    proof {
        assert(fs[1] == f@[1]@);
        assert(fs[2] == f@[2]@);
    }
    let h = parse_dec(&f[1]);
    let fu = parse_dec(&f[2]);
    p.sum.harm.push(h);
    p.sum.fund.push(fu);
    proof {
        assert(p@ =~~= (ParserV {
            sum: SummaryV {
                harm: old(p)@.sum.harm.push(spec_parse_dec(fs[1])),
                fund: old(p)@.sum.fund.push(spec_parse_dec(fs[2])),
                ..old(p)@.sum
            },
            ..old(p)@
        }));
    }
    Ok(())
}

fn corr_vs_exec(p: &mut Parser, l: &Vec<char>) -> (r: Result<(), ParseError>)
    ensures
        match r {
            Ok(()) => spec_corr_vs(old(p)@, l@) == Ok::<ParserV, ParseError>(final(p)@) && final(p)@.lxm_freqs == old(p)@.lxm_freqs && final(p)@.sum.rot_equil == old(p)@.sum.rot_equil,
            Err(e) => spec_corr_vs(old(p)@, l@) == Err::<ParserV, ParseError>(e),
        },
{
    let f = tokens_of(l);
    let ghost fs = split_ws(l@);
    if f.len() < 6 {
        return Err(ParseError::MalformedLine);
    }
    proof {
        assert(fs.subrange(6, fs.len() as int) =~= toks_view(f@).subrange(6, f@.len() as int));
        assert(fs[1] == f@[1]@);
        assert(fs[2] == f@[2]@);
    }
    match parse_usizes_from(&f, 6) {
        None => Err(ParseError::MalformedLine),
        Some(v) => {
            p.vib_states = v;
            p.cur_zpt = parse_dec(&f[1]);
            p.cur_freq = parse_dec(&f[2]);
            proof {
                assert(spec_corr_vs(old(p)@, l@) == Ok::<ParserV, ParseError>(p@));
            }
            Ok(())
        },
    }
}

fn corr_extend_exec(p: &mut Parser, l: &Vec<char>, from3: bool) -> (r: Result<(), ParseError>)
    ensures
        match r {
            Ok(()) => (if from3 {
                spec_corr_vt(old(p)@, l@)
            } else {
                spec_corr_other(old(p)@, l@)
            }) == Ok::<ParserV, ParseError>(final(p)@) && final(p)@.lxm_freqs == old(
                p,
            )@.lxm_freqs && final(p)@.sum.rot_equil == old(p)@.sum.rot_equil,
            Err(e) => (if from3 {
                spec_corr_vt(old(p)@, l@)
            } else {
                spec_corr_other(old(p)@, l@)
            }) == Err::<ParserV, ParseError>(e),
        },
{
    let f = tokens_of(l);
    let ghost fs = split_ws(l@);
    let start: usize = if from3 {
        if f.len() < 3 {
            f.len()
        } else {
            3
        }
    } else {
        0
    };
    proof {
        if from3 {
            if fs.len() <= 3 {
                assert(fs.subrange(start as int, fs.len() as int) =~= Seq::<Seq<char>>::empty());
            }
        } else {
            assert(fs.subrange(0, fs.len() as int) =~= fs);
        }
    }
    match parse_usizes_from(&f, start) {
        None => Err(ParseError::MalformedLine),
        Some(v) => {
            let mut i: usize = 0;
            let n = v.len();
            while i < n
                invariant
                    0 <= i <= n,
                    n == v@.len(),
                    p.vib_states@ == old(p).vib_states@ + v@.take(i as int),
                    p.state == old(p).state,
                    p.skip == old(p).skip,
                    p.sum == old(p).sum,
                    p.cur_zpt == old(p).cur_zpt,
                    p.cur_freq == old(p).cur_freq,
                    p.lxm_freqs == old(p).lxm_freqs,
                    p.block == old(p).block,
                    p.rot_good == old(p).rot_good,
                    p.rot_states == old(p).rot_states,
                decreases n - i,
            {
                p.vib_states.push(v[i]);
                proof {
                    assert(p.vib_states@ =~= old(p).vib_states@ + v@.take(i + 1));
                }
                i += 1;
            }
            proof {
                assert(v@.take(n as int) =~= v@);
                assert(p@ =~~= (ParserV { vib_states: old(p)@.vib_states + v@, ..old(p)@ }));
            }
            Ok(())
        },
    }
}

fn rot_header_exec(p: &mut Parser, l: &Vec<char>)
    ensures
        final(p)@ == spec_rot_header(old(p)@, l@),
        final(p)@.lxm_freqs == old(p)@.lxm_freqs,
        final(p)@.sum.rot_equil == old(p)@.sum.rot_equil,
{
    let f = tokens_of(l);
    let ghost fs = split_ws(l@);
    let start: usize = if f.len() < 2 {
        f.len()
    } else {
        2
    };
    proof {
        if fs.len() <= 2 {
            assert(fs.subrange(start as int, fs.len() as int) =~= Seq::<Seq<char>>::empty());
        }
    }
    let n = f.len();
    let mut i: usize = start;
    while i < n
        invariant
            start <= i <= n,
            n == f@.len(),
            fs == toks_view(f@),
            Seq::new(p.rot_states@.len(), |k: int| p.rot_states@[k]@) == Seq::new(
                old(p).rot_states@.len(),
                |k: int| old(p).rot_states@[k]@,
            ) + fs.subrange(start as int, i as int),
            p.state == old(p).state,
            p.skip == old(p).skip,
            p.sum == old(p).sum,
            p.vib_states == old(p).vib_states,
            p.cur_zpt == old(p).cur_zpt,
            p.cur_freq == old(p).cur_freq,
            p.lxm_freqs == old(p).lxm_freqs,
            p.block == old(p).block,
            p.rot_good == old(p).rot_good,
        decreases n - i,
    {
        let ghost before = p.rot_states@;
        let t = copy_chars(&f[i]);
        p.rot_states.push(t);
        proof {
            assert(fs[i as int] == f@[i as int]@);
            assert(Seq::new(p.rot_states@.len(), |k: int| p.rot_states@[k]@) =~~= Seq::new(
                before.len(),
                |k: int| before[k]@,
            ).push(fs[i as int]));
            assert(Seq::new(before.len(), |k: int| before[k]@).push(fs[i as int]) =~~= Seq::new(
                old(p).rot_states@.len(),
                |k: int| old(p).rot_states@[k]@,
            ) + fs.subrange(start as int, i + 1));
        }
        i += 1;
    }
    proof {
        assert(fs.subrange(start as int, n as int) == fs.subrange(start as int, fs.len() as int));
        assert(p@ =~~= (ParserV {
            rot_states: old(p)@.rot_states + (if fs.len() <= 2 {
                Seq::<Seq<char>>::empty()
            } else {
                fs.subrange(2, fs.len() as int)
            }),
            ..old(p)@
        }));
    }
}

fn rota_exec(p: &mut Parser, l: &Vec<char>)
    ensures
        final(p)@ == spec_rota(old(p)@, l@),
        final(p)@.lxm_freqs == old(p)@.lxm_freqs,
        final(p)@.sum.rot_equil == old(p)@.sum.rot_equil,
{
    if rot_skip_exec(&p.rot_states) {
        proof {
            assert(p@ =~~= old(p)@);
        }
        return ;
    }
    p.rot_states = Vec::new();
    p.state = State::Idle;
    let f = tokens_of(l);
    let ghost fs = split_ws(l@);
    if f.len() != 3 {
        proof {
            assert(p@ =~~= (ParserV {
                rot_states: Seq::empty(),
                state: State::Idle,
                ..old(p)@
            }));
        }
        return ;
    }
    proof {
        assert(fs[0] == f@[0]@);
        assert(fs[1] == f@[1]@);
        assert(fs[2] == f@[2]@);
        lemma_parse_dec_bounded(fs[0]);
        lemma_parse_dec_bounded(fs[1]);
        lemma_parse_dec_bounded(fs[2]);
    }
    let d0 = parse_dec(&f[0]);
    let d1 = parse_dec(&f[1]);
    let d2 = parse_dec(&f[2]);
    let v0 = crate::dec::dec_mul_mhz(&d0);
    let v1 = crate::dec::dec_mul_mhz(&d1);
    let v2 = crate::dec::dec_mul_mhz(&d2);
    let row = sort3_desc_exec(v0, v1, v2);
    p.sum.rots.push(row);
    proof {
        let p2 = ParserV { rot_states: Seq::empty(), state: State::Idle, ..old(p)@ };
        assert(p@ =~~= (ParserV {
            sum: SummaryV {
                rots: p2.sum.rots.push(
                    crate::machine::sort3_desc(
                        crate::dec::spec_mul_mhz(spec_parse_dec(fs[0])),
                        crate::dec::spec_mul_mhz(spec_parse_dec(fs[1])),
                        crate::dec::spec_mul_mhz(spec_parse_dec(fs[2])),
                    ),
                ),
                ..p2.sum
            },
            ..p2
        }));
    }
}

fn rots_exec(p: &mut Parser, l: &Vec<char>) -> (r: Result<(), ParseError>)
    requires
        wf_parser(old(p)@),
    ensures
        match r {
            Ok(()) => spec_rots(old(p)@, l@) == Ok::<ParserV, ParseError>(final(p)@) && final(p)@.lxm_freqs == old(p)@.lxm_freqs && final(p)@.sum.rot_equil == old(p)@.sum.rot_equil,
            Err(e) => spec_rots(old(p)@, l@) == Err::<ParserV, ParseError>(e),
        },
{
    if rot_skip_exec(&p.rot_states) {
        proof {
            assert(p@ =~~= old(p)@);
        }
        return Ok(());
    }
    p.rot_states = Vec::new();
    p.state = State::Idle;
    let f = tokens_of(l);
    let ghost fs = split_ws(l@);
    if f.len() != 3 {
        proof {
            assert(p@ =~~= (ParserV {
                rot_states: Seq::empty(),
                state: State::Idle,
                ..old(p)@
            }));
        }
        return Ok(());
    }
    if p.sum.rot_equil.len() == 0 {
        return Err(ParseError::MalformedLine);
    }
    proof {
        assert(fs[0] == f@[0]@);
        assert(fs[1] == f@[1]@);
        assert(fs[2] == f@[2]@);
    }
    let d0 = parse_dec(&f[0]);
    let d1 = parse_dec(&f[1]);
    let d2 = parse_dec(&f[2]);
    let v0 = crate::dec::dec_mul_mhz(&d0);
    let v1 = crate::dec::dec_mul_mhz(&d1);
    let v2 = crate::dec::dec_mul_mhz(&d2);
    let s = sort3_abs_desc_exec(v0, v1, v2);
    proof {
        assert(old(p)@.sum.rot_equil[0] == old(p).sum.rot_equil@[0]);
    }
    let one = crate::dec::dec_add(&s[0], &p.sum.rot_equil[0]);
    let mut row: Vec<Dec> = Vec::new();
    row.push(one);
    p.sum.rots.push(row);
    proof {
        let p2 = ParserV { rot_states: Seq::empty(), state: State::Idle, ..old(p)@ };
        let ss = crate::machine::sort3_abs_desc(
            crate::dec::spec_mul_mhz(spec_parse_dec(fs[0])),
            crate::dec::spec_mul_mhz(spec_parse_dec(fs[1])),
            crate::dec::spec_mul_mhz(spec_parse_dec(fs[2])),
        );
        assert(p@ =~~= (ParserV {
            sum: SummaryV {
                rots: p2.sum.rots.push(
                    seq![crate::dec::spec_add(ss[0], old(p)@.sum.rot_equil[0])],
                ),
                ..p2.sum
            },
            ..p2
        }));
    }
    Ok(())
}

fn be_exec(p: &mut Parser, l: &Vec<char>) -> (r: Result<(), ParseError>)
    requires
        wf_parser(old(p)@),
    ensures
        match r {
            Ok(()) => spec_be(old(p)@, l@) == Ok::<ParserV, ParseError>(final(p)@) && wf_parser(
                final(p)@,
            ),
            Err(e) => spec_be(old(p)@, l@) == Err::<ParserV, ParseError>(e),
        },
{
    let f = tokens_of(l);
    let ghost fs = split_ws(l@);
    if f.len() < 3 {
        return Err(ParseError::MalformedLine);
    }
    proof {
        assert(fs[2] == f@[2]@);
    }
    let d = parse_dec(&f[2]);
    let v = crate::dec::dec_mul_mhz(&d);
    p.sum.rot_equil.push(v);
    proof {
        assert(p@ =~~= (ParserV {
            sum: SummaryV {
                rot_equil: old(p)@.sum.rot_equil.push(
                    crate::dec::spec_mul_mhz(spec_parse_dec(fs[2])),
                ),
                ..old(p)@.sum
            },
            ..old(p)@
        }));
        assert forall|i: int| 0 <= i < p@.sum.rot_equil.len() implies mhz_bounded(
            #[trigger] p@.sum.rot_equil[i],
        ) by {
            if i < old(p)@.sum.rot_equil.len() {
                assert(p@.sum.rot_equil[i] == old(p)@.sum.rot_equil[i]);
            } else {
                assert(p@.sum.rot_equil[i] == v);
            }
        }
    }
    Ok(())
}

fn fermi_head_exec(p: &mut Parser, l: &Vec<char>) -> (r: Result<(), ParseError>)
    ensures
        match r {
            Ok(()) => spec_fermi_head(old(p)@, l@) == Ok::<ParserV, ParseError>(final(p)@) && final(p)@.lxm_freqs == old(p)@.lxm_freqs && final(p)@.sum.rot_equil == old(p)@.sum.rot_equil,
            Err(e) => spec_fermi_head(old(p)@, l@) == Err::<ParserV, ParseError>(e),
        },
{
    let f = tokens_of(l);
    let ghost fs = split_ws(l@);
    if f.len() < 3 {
        return Err(ParseError::MalformedLine);
    }
    proof {
        assert(fs[2] == f@[2]@);
    }
    let one = patterns::one_tok_vec();
    let two = patterns::two_tok_vec();
    if chars_eq(&f[2], &one) {
        p.state = State::Fermi1;
        p.skip = 2;
        proof {
            assert(p@ =~~= (ParserV { state: State::Fermi1, skip: 2, ..old(p)@ }));
        }
        Ok(())
    } else if chars_eq(&f[2], &two) {
        p.state = State::Fermi2;
        p.skip = 3;
        proof {
            assert(p@ =~~= (ParserV { state: State::Fermi2, skip: 3, ..old(p)@ }));
        }
        Ok(())
    } else {
        proof {
            assert(p@ =~~= old(p)@);
        }
        Ok(())
    }
}

fn fermi_line_exec(p: &mut Parser, l: &Vec<char>) -> (r: Result<(), ParseError>)
    ensures
        match r {
            Ok(()) => spec_fermi_line(old(p)@, l@) == Ok::<ParserV, ParseError>(final(p)@) && final(p)@.lxm_freqs == old(p)@.lxm_freqs && final(p)@.sum.rot_equil == old(p)@.sum.rot_equil,
            Err(e) => spec_fermi_line(old(p)@, l@) == Err::<ParserV, ParseError>(e),
        },
{
    let f = tokens_of(l);
    let ghost fs = split_ws(l@);
    if p.state == State::Fermi1 {
        if f.len() < 2 {
            return Err(ParseError::MalformedLine);
        }
        proof {
            assert(fs[0] == f@[0]@);
            assert(fs[1] == f@[1]@);
        }
        let a = parse_usize_tok(&f[0]);
        let b = parse_usize_tok(&f[1]);
        match (a, b) {
            (Some(a), Some(b)) => {
                crate::summary::fermi_insert(&mut p.sum.fermi, b, (a, a));
                proof {
                    assert(p@ =~~= (ParserV {
                        sum: SummaryV {
                            fermi: crate::summary::spec_fermi_insert(
                                old(p)@.sum.fermi,
                                b,
                                (a, a),
                            ),
                            ..old(p)@.sum
                        },
                        ..old(p)@
                    }));
                }
                Ok(())
            },
            _ => Err(ParseError::MalformedLine),
        }
    } else {
        if f.len() < 4 {
            return Err(ParseError::MalformedLine);
        }
        proof {
            assert(fs[0] == f@[0]@);
            assert(fs[2] == f@[2]@);
            assert(fs[3] == f@[3]@);
        }
        let a = parse_usize_tok(&f[0]);
        let b = parse_usize_tok(&f[2]);
        let c = parse_usize_tok(&f[3]);
        match (a, b, c) {
            (Some(a), Some(b), Some(c)) => {
                crate::summary::fermi_insert(&mut p.sum.fermi, c, (a, b));
                proof {
                    assert(p@ =~~= (ParserV {
                        sum: SummaryV {
                            fermi: crate::summary::spec_fermi_insert(
                                old(p)@.sum.fermi,
                                c,
                                (a, b),
                            ),
                            ..old(p)@.sum
                        },
                        ..old(p)@
                    }));
                }
                Ok(())
            },
            _ => Err(ParseError::MalformedLine),
        }
    }
}

fn coriol_line_exec(p: &mut Parser, l: &Vec<char>) -> (r: Result<(), ParseError>)
    ensures
        match r {
            Ok(()) => spec_coriol_line(old(p)@, l@) == Ok::<ParserV, ParseError>(final(p)@)
                && final(p)@.lxm_freqs == old(p)@.lxm_freqs && final(p)@.sum.rot_equil == old(
                p,
            )@.sum.rot_equil,
            Err(e) => spec_coriol_line(old(p)@, l@) == Err::<ParserV, ParseError>(e),
        },
{
    let f = tokens_of(l);
    let ghost fs = split_ws(l@);
    if f.len() < 3 {
        return Err(ParseError::MalformedLine);
    }
    proof {
        assert(fs[0] == f@[0]@);
        assert(fs[1] == f@[1]@);
        assert(fs[2] == f@[2]@);
    }
    let a = parse_usize_tok(&f[0]);
    let b = parse_usize_tok(&f[1]);
    let axis = parse_usize_tok(&f[2]);
    match (a, b, axis) {
        (Some(a), Some(b), Some(axis)) => {
            p.sum.coriolis.insert((a, b), axis);
            proof {
                assert(p@ =~~= (ParserV {
                    sum: SummaryV {
                        coriolis: crate::coriolis::spec_coriol_insert(
                            old(p)@.sum.coriolis,
                            (a, b),
                            axis,
                        ),
                        ..old(p)@.sum
                    },
                    ..old(p)@
                }));
            }
            Ok(())
        },
        _ => Err(ParseError::MalformedLine),
    }
}

fn coords_exec(p: &mut Parser, l: &Vec<char>) -> (r: Result<(), ParseError>)
    ensures
        match r {
            Ok(()) => spec_coords_line(old(p)@, l@) == Ok::<ParserV, ParseError>(final(p)@)
                && final(p)@.lxm_freqs == old(p)@.lxm_freqs && final(p)@.sum.rot_equil == old(
                p,
            )@.sum.rot_equil,
            Err(e) => spec_coords_line(old(p)@, l@) == Err::<ParserV, ParseError>(e),
        },
{
    let f = tokens_of(l);
    let ghost fs = split_ws(l@);
    if f.len() < 2 {
        return Err(ParseError::MalformedLine);
    }
    proof {
        assert(fs[1] == f@[1]@);
    }
    let lin = patterns::linear_tok_vec();
    let off: usize = if chars_eq(&f[1], &lin) {
        1
    } else {
        0
    };
    if f.len() < 5 + off {
        return Err(ParseError::MalformedLine);
    }
    proof {
        assert(fs[2 + off] == f@[2 + off]@);
        assert(fs[4 + off] == f@[4 + off]@);
    }
    let re = parse_dec(&f[2 + off]);
    let ra = parse_dec(&f[4 + off]);
    p.sum.requil.push(re);
    p.sum.ralpha.push(ra);
    proof {
        assert(p@ =~~= (ParserV {
            sum: SummaryV {
                requil: old(p)@.sum.requil.push(spec_parse_dec(fs[2 + off])),
                ralpha: old(p)@.sum.ralpha.push(spec_parse_dec(fs[4 + off])),
                ..old(p)@.sum
            },
            ..old(p)@
        }));
    }
    Ok(())
}

fn curvil_exec(p: &mut Parser, l: &Vec<char>) -> (r: Result<(), ParseError>)
    ensures
        match r {
            Ok(()) => spec_curvil_line(old(p)@, l@) == Ok::<ParserV, ParseError>(final(p)@)
                && final(p)@.lxm_freqs == old(p)@.lxm_freqs && final(p)@.sum.rot_equil == old(
                p,
            )@.sum.rot_equil,
            Err(e) => spec_curvil_line(old(p)@, l@) == Err::<ParserV, ParseError>(e),
        },
{
    let optdl = patterns::optdl_marker_vec();
    if crate::text::line_blank(l) || crate::text::starts_with(l, &optdl) {
        p.state = State::Idle;
        proof {
            assert(p@ =~~= (ParserV { state: State::Idle, ..old(p)@ }));
        }
        return Ok(());
    }
    let cleaned = paren_clean_exec(l);
    let nf = tokens_of(&cleaned);
    let ghost nfs = split_ws(paren_clean(l@));
    if nf.len() < 2 {
        return Err(ParseError::MalformedLine);
    }
    proof {
        assert(nfs[1] == nf@[1]@);
    }
    let ids = ids_from_exec(&nf, 3);
    let bond = patterns::bond_tok_vec();
    let angle = patterns::angle_tok_vec();
    let torsion = patterns::torsion_tok_vec();
    let lin = patterns::linear_tok_vec();
    if chars_eq(&nf[1], &bond) {
        if ids.len() < 2 {
            return Err(ParseError::MalformedLine);
        }
        p.sum.curvils.push(Curvil::Bond(ids[0], ids[1]));
        proof {
            assert(p@ =~~= (ParserV {
                sum: SummaryV {
                    curvils: old(p)@.sum.curvils.push(
                        Curvil::Bond(ids_from(nfs, 3)[0], ids_from(nfs, 3)[1]),
                    ),
                    ..old(p)@.sum
                },
                ..old(p)@
            }));
        }
        Ok(())
    } else if chars_eq(&nf[1], &angle) {
        if ids.len() < 3 {
            return Err(ParseError::MalformedLine);
        }
        p.sum.curvils.push(Curvil::Angle(ids[0], ids[1], ids[2]));
        proof {
            assert(p@ =~~= (ParserV {
                sum: SummaryV {
                    curvils: old(p)@.sum.curvils.push(
                        Curvil::Angle(
                            ids_from(nfs, 3)[0],
                            ids_from(nfs, 3)[1],
                            ids_from(nfs, 3)[2],
                        ),
                    ),
                    ..old(p)@.sum
                },
                ..old(p)@
            }));
        }
        Ok(())
    } else if chars_eq(&nf[1], &torsion) {
        if ids.len() < 4 {
            return Err(ParseError::MalformedLine);
        }
        p.sum.curvils.push(Curvil::Torsion(ids[0], ids[1], ids[2], ids[3]));
        proof {
            assert(p@ =~~= (ParserV {
                sum: SummaryV {
                    curvils: old(p)@.sum.curvils.push(
                        Curvil::Torsion(
                            ids_from(nfs, 3)[0],
                            ids_from(nfs, 3)[1],
                            ids_from(nfs, 3)[2],
                            ids_from(nfs, 3)[3],
                        ),
                    ),
                    ..old(p)@.sum
                },
                ..old(p)@
            }));
        }
        Ok(())
    } else if chars_eq(&nf[1], &lin) {
        let ids2 = ids_from_exec(&nf, 2);
        if ids2.len() < 3 {
            return Err(ParseError::MalformedLine);
        }
        p.sum.curvils.push(Curvil::Linear(ids2[0], ids2[1], ids2[2]));
        proof {
            assert(p@ =~~= (ParserV {
                sum: SummaryV {
                    curvils: old(p)@.sum.curvils.push(
                        Curvil::Linear(
                            ids_from(nfs, 2)[0],
                            ids_from(nfs, 2)[1],
                            ids_from(nfs, 2)[2],
                        ),
                    ),
                    ..old(p)@.sum
                },
                ..old(p)@
            }));
        }
        Ok(())
    } else {
        Err(ParseError::UnknownCurvilType)
    }
}

fn delta_exec(p: &mut Parser, l: &Vec<char>) -> (r: Result<(), ParseError>)
    ensures
        match r {
            Ok(()) => spec_delta_line(old(p)@, l@) == Ok::<ParserV, ParseError>(final(p)@)
                && final(p)@.lxm_freqs == old(p)@.lxm_freqs && final(p)@.sum.rot_equil == old(
                p,
            )@.sum.rot_equil,
            Err(e) => spec_delta_line(old(p)@, l@) == Err::<ParserV, ParseError>(e),
        },
{
    let f = tokens_of(l);
    let ghost fs = split_ws(l@);
    if f.len() > 3 {
        if f.len() < 5 {
            return Err(ParseError::MalformedLine);
        }
        proof {
            assert(fs[0] == f@[0]@);
            assert(fs[1] == f@[1]@);
            assert(fs[4] == f@[4]@);
        }
        let v = Some(parse_dec(&f[4]));
        let t_delta = patterns::delta_uc_tok_vec();
        let t_deltal = patterns::delta_lc_tok_vec();
        let t_d = patterns::d_uc_tok_vec();
        let t_dl = patterns::d_lc_tok_vec();
        let t_j = patterns::j_uc_tok_vec();
        let t_k = patterns::k_uc_tok_vec();
        let t_jk = patterns::jk_uc_tok_vec();
        let t_1 = patterns::one_tok_vec();
        let t_2 = patterns::two_tok_vec();
        let c0_delta = chars_eq(&f[0], &t_delta);
        let c0_deltal = chars_eq(&f[0], &t_deltal);
        let c0_d = chars_eq(&f[0], &t_d);
        let c0_dl = chars_eq(&f[0], &t_dl);
        let c1_j = chars_eq(&f[1], &t_j);
        let c1_k = chars_eq(&f[1], &t_k);
        let c1_jk = chars_eq(&f[1], &t_jk);
        let c1_1 = chars_eq(&f[1], &t_1);
        let c1_2 = chars_eq(&f[1], &t_2);
        if c0_delta && c1_j {
            p.sum.deltas.big_delta_j = v;
        } else if c0_delta && c1_k {
            p.sum.deltas.big_delta_k = v;
        } else if c0_delta && c1_jk {
            p.sum.deltas.big_delta_jk = v;
        } else if c0_deltal && c1_j {
            p.sum.deltas.delta_j = v;
        } else if c0_deltal && c1_k {
            p.sum.deltas.delta_k = v;
        } else if c0_d && c1_j {
            p.sum.deltas.d_j = v;
        } else if c0_d && c1_jk {
            p.sum.deltas.d_jk = v;
        } else if c0_d && c1_k {
            p.sum.deltas.d_k = v;
        } else if c0_dl && c1_1 {
            p.sum.deltas.d1 = v;
        } else if c0_dl && c1_2 {
            p.sum.deltas.d2 = v;
        } else {
            return Err(ParseError::UnknownDistortionConstant);
        }
        proof {
            assert(spec_delta_line(old(p)@, l@) == Ok::<ParserV, ParseError>(p@));
        }
        Ok(())
    } else if f.len() < 3 {
        Err(ParseError::MalformedLine)
    } else {
        proof {
            assert(fs[2] == f@[2]@);
        }
        let v = parse_dec(&f[2]);
        p.sum.deltas.de = Some(v);
        proof {
            assert(spec_delta_line(old(p)@, l@) == Ok::<ParserV, ParseError>(p@));
        }
        Ok(())
    }
}

fn phi_exec(p: &mut Parser, l: &Vec<char>) -> (r: Result<(), ParseError>)
    ensures
        match r {
            Ok(()) => spec_phi_line(old(p)@, l@) == Ok::<ParserV, ParseError>(final(p)@) && final(p)@.lxm_freqs == old(p)@.lxm_freqs && final(p)@.sum.rot_equil == old(p)@.sum.rot_equil,
            Err(e) => spec_phi_line(old(p)@, l@) == Err::<ParserV, ParseError>(e),
        },
{
    let f = tokens_of(l);
    let ghost fs = split_ws(l@);
    if f.len() > 3 {
        if f.len() < 5 {
            return Err(ParseError::MalformedLine);
        }
        proof {
            assert(fs[0] == f@[0]@);
            assert(fs[1] == f@[1]@);
            assert(fs[4] == f@[4]@);
        }
        let d = parse_dec(&f[4]);
        let v = Some(crate::dec::dec_div_million(&d));
        let t_phi = patterns::phi_uc_tok_vec();
        let t_phil = patterns::phi_lc_tok_vec();
        let t_h = patterns::h_uc_tok_vec();
        let t_hl = patterns::h_lc_tok_vec();
        let t_j = patterns::j_uc_tok_vec();
        let t_k = patterns::k_uc_tok_vec();
        let t_jk = patterns::jk_uc_tok_vec();
        let t_kj = patterns::kj_uc_tok_vec();
        let t_jl = patterns::j_lc_tok_vec();
        let t_jkl = patterns::jk_lc_tok_vec();
        let t_kl = patterns::k_lc_tok_vec();
        let t_1 = patterns::one_tok_vec();
        let t_2 = patterns::two_tok_vec();
        let t_3 = patterns::three_tok_vec();
        let c0_phi = chars_eq(&f[0], &t_phi);
        let c0_phil = chars_eq(&f[0], &t_phil);
        let c0_h = chars_eq(&f[0], &t_h);
        let c0_hl = chars_eq(&f[0], &t_hl);
        let c1_j = chars_eq(&f[1], &t_j);
        let c1_k = chars_eq(&f[1], &t_k);
        let c1_jk = chars_eq(&f[1], &t_jk);
        let c1_kj = chars_eq(&f[1], &t_kj);
        let c1_jl = chars_eq(&f[1], &t_jl);
        let c1_jkl = chars_eq(&f[1], &t_jkl);
        let c1_kl = chars_eq(&f[1], &t_kl);
        let c1_1 = chars_eq(&f[1], &t_1);
        let c1_2 = chars_eq(&f[1], &t_2);
        let c1_3 = chars_eq(&f[1], &t_3);
        if c0_phi && c1_j {
            p.sum.phis.big_phi_j = v;
        } else if c0_phi && c1_k {
            p.sum.phis.big_phi_k = v;
        } else if c0_phi && c1_jk {
            p.sum.phis.big_phi_jk = v;
        } else if c0_phi && c1_kj {
            p.sum.phis.big_phi_kj = v;
        } else if c0_phil && c1_jl {
            p.sum.phis.phi_j = v;
        } else if c0_phil && c1_jkl {
            p.sum.phis.phi_jk = v;
        } else if c0_phil && c1_kl {
            p.sum.phis.phi_k = v;
        } else if c0_h && c1_j {
            p.sum.phis.h_j = v;
        } else if c0_h && c1_jk {
            p.sum.phis.h_jk = v;
        } else if c0_h && c1_kj {
            p.sum.phis.h_kj = v;
        } else if c0_h && c1_k {
            p.sum.phis.h_k = v;
        } else if c0_hl && c1_1 {
            p.sum.phis.h1 = v;
        } else if c0_hl && c1_2 {
            p.sum.phis.h2 = v;
        } else if c0_hl && c1_3 {
            p.sum.phis.h3 = v;
        } else {
            return Err(ParseError::UnknownDistortionConstant);
        }
        proof {
            assert(spec_phi_line(old(p)@, l@) == Ok::<ParserV, ParseError>(p@));
        }
        Ok(())
    } else if f.len() < 3 {
        Err(ParseError::MalformedLine)
    } else {
        proof {
            assert(fs[2] == f@[2]@);
        }
        let d = parse_dec(&f[2]);
        p.sum.phis.he = Some(crate::dec::dec_div_million(&d));
        proof {
            assert(spec_phi_line(old(p)@, l@) == Ok::<ParserV, ParseError>(p@));
        }
        Ok(())
    }
}

fn flush_exec(p: &mut Parser)
    ensures
        final(p)@ == crate::machine::spec_flush(old(p)@),
        final(p)@.lxm_freqs == old(p)@.lxm_freqs,
        final(p)@.sum.rot_equil == old(p)@.sum.rot_equil,
{
    if all_zero_exec(&p.vib_states) {
        p.sum.zpt = p.cur_zpt;
        proof {
            assert(p@ =~~= (ParserV {
                sum: SummaryV { zpt: old(p)@.cur_zpt, ..old(p)@.sum },
                ..old(p)@
            }));
        }
        return ;
    }
    match singly_excited_exec(&p.vib_states) {
        Some(i) => {
            let nlen = p.vib_states.len();
            proof {
                assert(i < nlen);
            }
            let freq = p.cur_freq;
            write_slot_exec(&mut p.sum.corr, i, freq);
            proof {
                assert(p@ =~~= (ParserV {
                    sum: SummaryV {
                        corr: write_slot(
                            old(p)@.sum.corr,
                            first_one(old(p)@.vib_states),
                            old(p)@.cur_freq,
                        ),
                        ..old(p)@.sum
                    },
                    ..old(p)@
                }));
            }
        },
        None => {
            proof {
                assert(p@ =~~= old(p)@);
            }
        },
    }
}

/// Handle one line of the report: skip counters first, then section
/// markers, then the active section's handler, exactly as [`spec_step`]
/// lays the priorities down.
#[verifier::rlimit(100)]
#[verifier::spinoff_prover]
pub fn step_exec(p: &mut Parser, l: &Vec<char>) -> (r: Result<(), ParseError>)
    requires
        wf_parser(old(p)@),
    ensures
        match r {
            Ok(()) => spec_step(old(p)@, l@) == Ok::<ParserV, ParseError>(final(p)@) && wf_parser(
                final(p)@,
            ),
            Err(e) => spec_step(old(p)@, l@) == Err::<ParserV, ParseError>(e),
        },
{
    if p.skip > 0 {
        p.skip = p.skip - 1;
        proof {
            assert(p@ =~~= (ParserV { skip: old(p)@.skip - 1, ..old(p)@ }));
        }
        return Ok(());
    }
    let pat = patterns::geom_marker_vec();
    if crate::text::contains_sub(l, &pat) {
        p.skip = 2;
        p.state = State::Geom;
        proof {
            assert(p@ =~~= (ParserV { skip: 2, state: State::Geom, ..old(p)@ }));
        }
        return Ok(());
    }
    if p.state == State::Geom {
        let r = geom_exec(p, l);
        return r;
    }
    let pat = patterns::lxm_marker_vec();
    if crate::text::contains_sub(l, &pat) {
        p.skip = 2;
        p.state = State::Lxm;
        p.block = 0;
        p.lxm_freqs = Vec::new();
        p.sum.lxm = Vec::new();
        proof {
            assert(p@ =~~= (ParserV {
                skip: 2,
                state: State::Lxm,
                block: 0,
                lxm_freqs: Seq::empty(),
                sum: SummaryV { lxm: Seq::empty(), ..old(p)@.sum },
                ..old(p)@
            }));
        }
        return Ok(());
    }
    if p.state == State::Lxm {
        let r = lxm_exec(p, l);
        return r;
    }
    let pat = patterns::band_marker_vec();
    if crate::text::contains_sub(l, &pat) {
        p.skip = 3;
        p.state = State::Fund;
        proof {
            assert(p@ =~~= (ParserV { skip: 3, state: State::Fund, ..old(p)@ }));
        }
        return Ok(());
    }
    let pat = patterns::dunham_marker_vec();
    let pat2 = patterns::vib_energy_marker_vec();
    if crate::text::contains_sub(l, &pat) || crate::text::contains_sub(l, &pat2) {
        p.state = State::Idle;
        proof {
            assert(p@ =~~= (ParserV { state: State::Idle, ..old(p)@ }));
        }
        return Ok(());
    }
    if p.state == State::Fund && crate::text::contains_digit(l) {
        let r = fund_exec(p, l);
        return r;
    }
    let pat = patterns::state_no_marker_vec();
    let pat2 = patterns::spectrum_marker_vec();
    if crate::text::contains_sub(l, &pat) && !crate::text::contains_sub(l, &pat2) {
        p.skip = 2;
        p.state = State::Corr;
        proof {
            assert(p@ =~~= (ParserV { skip: 2, state: State::Corr, ..old(p)@ }));
        }
        return Ok(());
    }
    let in_corr = p.state == State::Corr;
    let pat = patterns::star_run_vec();
    if in_corr && crate::text::contains_sub(l, &pat) {
        p.state = State::Idle;
        proof {
            assert(p@ =~~= (ParserV { state: State::Idle, ..old(p)@ }));
        }
        return Ok(());
    }
    let pat = patterns::nondeg_vs_marker_vec();
    if in_corr && crate::text::contains_sub(l, &pat) {
        let r = corr_vs_exec(p, l);
        return r;
    }
    let pat = patterns::degen_vt_marker_vec();
    if in_corr && crate::text::contains_sub(l, &pat) {
        let r = corr_extend_exec(p, l, true);
        return r;
    }
    let pat = patterns::degen_vl_marker_vec();
    if in_corr && crate::text::contains_sub(l, &pat) {
        proof {
            assert(p@ =~~= old(p)@);
        }
        return Ok(());
    }
    let pat = patterns::bracket_marker_vec();
    if in_corr && crate::text::contains_sub(l, &pat) {
        p.state = State::Idle;
        proof {
            assert(p@ =~~= (ParserV { state: State::Idle, ..old(p)@ }));
        }
        return Ok(());
    }
    if in_corr && l.len() > 0 {
        let r = corr_extend_exec(p, l, false);
        return r;
    }
    if in_corr && l.len() == 0 && p.vib_states.len() > 0 {
        flush_exec(p);
        return Ok(());
    }
    let pat = patterns::rot_states_marker_vec();
    if crate::text::contains_sub(l, &pat) {
        rot_header_exec(p, l);
        return Ok(());
    }
    let pat = patterns::rot_analysis_marker_vec();
    if crate::text::contains_sub(l, &pat) {
        p.state = State::RotA;
        p.rot_good = true;
        proof {
            assert(p@ =~~= (ParserV { state: State::RotA, rot_good: true, ..old(p)@ }));
        }
        return Ok(());
    }
    let pat = patterns::bza_marker_vec();
    if p.rot_good && crate::text::contains_sub(l, &pat) {
        p.state = State::RotA;
        proof {
            assert(p@ =~~= (ParserV { state: State::RotA, ..old(p)@ }));
        }
        return Ok(());
    }
    let pat = patterns::bzs_marker_vec();
    if p.rot_good && p.sum.deltas.de.is_some() && crate::text::contains_sub(l, &pat) {
        p.state = State::RotS;
        proof {
            assert(p@ =~~= (ParserV { state: State::RotS, ..old(p)@ }));
        }
        return Ok(());
    }
    let pat = patterns::coords_marker_vec();
    if crate::text::contains_sub(l, &pat) {
        p.state = State::Coords;
        p.skip = if p.sum.rot_equil.len() == 1 {
            13
        } else {
            12
        };
        proof {
            assert(p@ =~~= (ParserV {
                state: State::Coords,
                skip: 12 + if old(p)@.sum.rot_equil.len() == 1 {
                    1int
                } else {
                    0
                },
                ..old(p)@
            }));
        }
        return Ok(());
    }
    if p.state == State::RotA && p.rot_good {
        rota_exec(p, l);
        return Ok(());
    }
    if p.state == State::RotS && p.rot_good {
        let r = rots_exec(p, l);
        return r;
    }
    let pat = patterns::be_marker_vec();
    if crate::text::contains_sub(l, &pat) {
        let r = be_exec(p, l);
        return r;
    }
    if patterns::delta_marker(l) {
        let r = delta_exec(p, l);
        return r;
    }
    if patterns::phi_marker(l) {
        let r = phi_exec(p, l);
        return r;
    }
    let pat = patterns::fermi_marker_lc_vec();
    if crate::text::starts_with_ci(l, &pat) {
        let r = fermi_head_exec(p, l);
        return r;
    }
    let in_fermi = p.state == State::Fermi1 || p.state == State::Fermi2;
    if in_fermi && crate::text::line_blank(l) {
        p.state = State::Idle;
        proof {
            assert(p@ =~~= (ParserV { state: State::Idle, ..old(p)@ }));
        }
        return Ok(());
    }
    if in_fermi {
        let r = fermi_line_exec(p, l);
        return r;
    }
    let pat = patterns::coriol_marker_lc_vec();
    if crate::text::starts_with_ci(l, &pat) {
        p.state = State::Coriolis;
        p.skip = 2;
        proof {
            assert(p@ =~~= (ParserV { state: State::Coriolis, skip: 2, ..old(p)@ }));
        }
        return Ok(());
    }
    let in_coriol = p.state == State::Coriolis;
    if in_coriol && crate::text::line_blank(l) {
        p.state = State::Idle;
        proof {
            assert(p@ =~~= (ParserV { state: State::Idle, ..old(p)@ }));
        }
        return Ok(());
    }
    if in_coriol {
        let r = coriol_line_exec(p, l);
        return r;
    }
    let in_coords = p.state == State::Coords;
    if in_coords && crate::text::line_blank(l) {
        p.state = State::Idle;
        proof {
            assert(p@ =~~= (ParserV { state: State::Idle, ..old(p)@ }));
        }
        return Ok(());
    }
    if in_coords {
        let r = coords_exec(p, l);
        return r;
    }
    let pat = patterns::curvil_marker_vec();
    if crate::text::starts_with(l, &pat) {
        p.state = State::Curvil;
        p.skip = 4;
        proof {
            assert(p@ =~~= (ParserV { state: State::Curvil, skip: 4, ..old(p)@ }));
        }
        return Ok(());
    }
    if p.state == State::Curvil {
        let r = curvil_exec(p, l);
        return r;
    }
    proof {
        assert(p@ =~~= old(p)@);
    }
    Ok(())
}

impl Summary {
    /// Scan a whole report, one line per entry, and build its record: the
    /// result is exactly what [`spec_parse`] gives for the input, a
    /// structural fault aborting the parse.  Mode-symmetry labels are left
    /// empty; classification is a separate pass
    /// ([`Summary::compute_irreps`]).
    pub fn new(lines: &Vec<Vec<char>>) -> (r: Result<Summary, ParseError>)
        ensures
            match r {
                Ok(s) => spec_parse(lines.deep_view()) == Ok::<SummaryV, ParseError>(s@),
                Err(e) => spec_parse(lines.deep_view()) == Err::<SummaryV, ParseError>(e),
            },
    {
        let ghost ldv = lines.deep_view();
        let mut p = Parser {
            state: State::Idle,
            skip: 0,
            sum: Summary::empty(),
            vib_states: Vec::new(),
            cur_zpt: Dec { mant: 0, scale: 0 },
            cur_freq: Dec { mant: 0, scale: 0 },
            lxm_freqs: Vec::new(),
            block: 0,
            rot_good: false,
            rot_states: Vec::new(),
        };
        proof {
            assert(p@ =~~= crate::machine::spec_init());
            assert(ldv.take(0) =~= Seq::<Seq<char>>::empty());
        }
        let n = lines.len();
        let mut i: usize = 0;
        while i < n
            invariant
                0 <= i <= n,
                n == lines@.len(),
                ldv == lines.deep_view(),
                spec_run(ldv.take(i as int)) == Ok::<ParserV, ParseError>(p@),
                wf_parser(p@),
            decreases n - i,
        {
            proof {
                assert(ldv.take(i + 1).drop_last() =~= ldv.take(i as int));
                assert(ldv.take(i + 1).last() == ldv[i as int]);
                assert(lines@[i as int]@ =~= lines@[i as int].deep_view());
                assert(ldv[i as int] == lines@[i as int]@);
            }
            match step_exec(&mut p, &lines[i]) {
                Ok(()) => {},
                Err(e) => {
                    proof {
                        assert(spec_run(ldv.take(i + 1)) == Err::<ParserV, ParseError>(e));
                        crate::machine::lemma_run_extend_err(ldv, i + 1);
                    }
                    return Err(e);
                },
            }
            i += 1;
        }
        proof {
            assert(ldv.take(n as int) =~= ldv);
        }
        let Parser { sum, lxm_freqs, .. } = p;
        let ghost pv = spec_run(ldv)->Ok_0;
        let mut sum = sum;
        let deduped = dedup_exec(&lxm_freqs, &sum.lxm);
        sum.lxm = deduped;
        proof {
            assert(sum@ =~~= crate::machine::spec_finalize(pv));
        }
        Ok(sum)
    }
}

} // verus!
