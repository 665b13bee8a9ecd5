//! Exact decimal values.
//!
//! Numeric fields of the report are plain decimal tokens (optionally with a
//! Fortran-style `D`/`E` exponent).  A [`Dec`] holds such a value exactly as
//! `mant / 10^scale`; contracts compare values by cross-multiplication, so
//! no rounding ever enters the record.  A token that does not fit the
//! grammar, or whose mantissa would need more than twelve significant
//! digits, is replaced by the large sentinel [`bad_dec`], mirroring the
//! report's failure policy for numeric fields.

use vstd::prelude::*;

use crate::text::all_digits;
use crate::text::digit_char;
use crate::text::digit_val;
use crate::text::is_digit_char;

verus! {

/// An exact decimal number: the value `mant / 10^scale`.
#[derive(Clone, Copy, Debug, PartialEq, Eq, Structural)]
pub struct Dec {
    pub mant: i128,
    pub scale: u32,
}

pub open spec fn pow10(n: nat) -> int
    decreases n,
{
    if n == 0 {
        1
    } else {
        10 * pow10((n - 1) as nat)
    }
}

pub open spec fn iabs(x: int) -> int {
    if x < 0 {
        -x
    } else {
        x
    }
}

pub proof fn lemma_pow10_pos(n: nat)
    ensures
        pow10(n) >= 1,
    decreases n,
{
    if n > 0 {
        lemma_pow10_pos((n - 1) as nat);
    }
}

pub proof fn lemma_pow10_mono(a: nat, b: nat)
    requires
        a <= b,
    ensures
        pow10(a) <= pow10(b),
    decreases b,
{
    if a < b {
        lemma_pow10_mono(a, (b - 1) as nat);
        lemma_pow10_pos((b - 1) as nat);
    }
}

/// The concrete powers that the bounds below use.
pub proof fn lemma_pow10_vals()
    ensures
        pow10(0) == 1,
        pow10(1) == 10,
        pow10(4) == 10000,
        pow10(6) == 1000000,
        pow10(12) == 1000000000000,
        pow10(16) == 10000000000000000,
{
    reveal_with_fuel(pow10, 17);
}

/// Bound on a freshly parsed value: at most twelve significant digits and
/// twelve fractional digits.
pub open spec fn parse_bounded(d: Dec) -> bool {
    iabs(d.mant as int) < 1000000000000 && d.scale <= 12
}

/// Bound after conversion to MHz (multiplication by `29979.2458`).
pub open spec fn mhz_bounded(d: Dec) -> bool {
    iabs(d.mant as int) < 1000000000000000000000 && d.scale <= 16
}

/// `a <= b` as values.
pub open spec fn vle(a: Dec, b: Dec) -> bool {
    (a.mant as int) * pow10(b.scale as nat) <= (b.mant as int) * pow10(a.scale as nat)
}

/// `a < b` as values.
pub open spec fn vlt(a: Dec, b: Dec) -> bool {
    (a.mant as int) * pow10(b.scale as nat) < (b.mant as int) * pow10(a.scale as nat)
}

/// `a == b` as values.
pub open spec fn veq(a: Dec, b: Dec) -> bool {
    (a.mant as int) * pow10(b.scale as nat) == (b.mant as int) * pow10(a.scale as nat)
}

/// `|a| <= |b|` as values.
pub open spec fn vabs_le(a: Dec, b: Dec) -> bool {
    iabs(a.mant as int) * pow10(b.scale as nat) <= iabs(b.mant as int) * pow10(a.scale as nat)
}

/// The sentinel that stands in for an unreadable numeric field.
pub open spec fn spec_bad_dec() -> Dec {
    Dec { mant: 9999999999, scale: 1 }
}

/// The sentinel value `999999999.9`, mirroring the report's policy of
/// writing a large unmistakable number where a field could not be read.
pub fn bad_dec() -> (d: Dec)
    ensures
        d == spec_bad_dec(),
        parse_bounded(d),
{
    Dec { mant: 9999999999, scale: 1 }
}

/// The value zero.
pub fn zero_dec() -> (d: Dec)
    ensures
        d == (Dec { mant: 0, scale: 0 }),
        parse_bounded(d),
{
    Dec { mant: 0, scale: 0 }
}

proof fn lemma_mul_bound(m: int, p: int, mb: int, pb: int)
    by (nonlinear_arith)
    requires
        -mb <= m <= mb,
        0 <= p <= pb,
    ensures
        -(mb * pb) <= m * p <= mb * pb,
{
}

pub fn pow10_i128(n: u32) -> (r: i128)
    requires
        n <= 16,
    ensures
        r == pow10(n as nat),
{
    proof {
        lemma_pow10_vals();
    }
    let mut r: i128 = 1;
    let mut i: u32 = 0;
    while i < n
        invariant
            0 <= i <= n,
            n <= 16,
            r == pow10(i as nat),
        decreases n - i,
    {
        proof {
            lemma_pow10_pos(i as nat);
            lemma_pow10_mono((i + 1) as nat, 16);
            lemma_pow10_vals();
            assert(pow10((i + 1) as nat) == 10 * pow10(i as nat));
        }
        r = r * 10;
        i += 1;
    }
    r
}

/// Compare two bounded values: `a <= b`.
pub fn dec_le(a: &Dec, b: &Dec) -> (r: bool)
    requires
        mhz_bounded(*a),
        mhz_bounded(*b),
    ensures
        r == vle(*a, *b),
{
    let pa = pow10_i128(b.scale);
    let pb = pow10_i128(a.scale);
    proof {
        lemma_pow10_pos(b.scale as nat);
        lemma_pow10_pos(a.scale as nat);
        lemma_pow10_mono(b.scale as nat, 16);
        lemma_pow10_mono(a.scale as nat, 16);
        lemma_pow10_vals();
        lemma_mul_bound(
            a.mant as int,
            pow10(b.scale as nat),
            1000000000000000000000,
            10000000000000000,
        );
        lemma_mul_bound(
            b.mant as int,
            pow10(a.scale as nat),
            1000000000000000000000,
            10000000000000000,
        );
    }
    let x = a.mant * pa;
    let y = b.mant * pb;
    x <= y
}

/// Compare two bounded values: `a < b`.
pub fn dec_lt(a: &Dec, b: &Dec) -> (r: bool)
    requires
        mhz_bounded(*a),
        mhz_bounded(*b),
    ensures
        r == vlt(*a, *b),
{
    !dec_le(b, a)
}

/// Compare two bounded values: `a == b`.
pub fn dec_veq(a: &Dec, b: &Dec) -> (r: bool)
    requires
        mhz_bounded(*a),
        mhz_bounded(*b),
    ensures
        r == veq(*a, *b),
{
    dec_le(a, b) && dec_le(b, a)
}

/// Compare two bounded values by magnitude: `|a| <= |b|`.
pub fn dec_abs_le(a: &Dec, b: &Dec) -> (r: bool)
    requires
        mhz_bounded(*a),
        mhz_bounded(*b),
    ensures
        r == vabs_le(*a, *b),
{
    let am = if a.mant < 0 {
        -a.mant
    } else {
        a.mant
    };
    let bm = if b.mant < 0 {
        -b.mant
    } else {
        b.mant
    };
    let pa = pow10_i128(b.scale);
    let pb = pow10_i128(a.scale);
    proof {
        lemma_pow10_pos(b.scale as nat);
        lemma_pow10_pos(a.scale as nat);
        lemma_pow10_mono(b.scale as nat, 16);
        lemma_pow10_mono(a.scale as nat, 16);
        lemma_pow10_vals();
        lemma_mul_bound(
            am as int,
            pow10(b.scale as nat),
            1000000000000000000000,
            10000000000000000,
        );
        lemma_mul_bound(
            bm as int,
            pow10(a.scale as nat),
            1000000000000000000000,
            10000000000000000,
        );
    }
    let x = am * pa;
    let y = bm * pb;
    x <= y
}

/// The exact product with the MHz conversion constant `29979.2458`.
pub open spec fn spec_mul_mhz(a: Dec) -> Dec {
    Dec { mant: ((a.mant as int) * 299792458) as i128, scale: (a.scale + 4) as u32 }
}

/// Convert a parsed value to MHz: multiply by `29979.2458`, exactly.
pub fn dec_mul_mhz(a: &Dec) -> (r: Dec)
    requires
        parse_bounded(*a),
    ensures
        r == spec_mul_mhz(*a),
        mhz_bounded(r),
{
    proof {
        lemma_mul_bound(a.mant as int, 299792458, 1000000000000, 299792458);
    }
    Dec { mant: a.mant * 299792458, scale: a.scale + 4 }
}

/// The exact quotient by `10^6` (the report prints sextic constants in Hz;
/// the record holds MHz).
pub open spec fn spec_div_million(a: Dec) -> Dec {
    Dec { mant: a.mant, scale: (a.scale + 6) as u32 }
}

pub fn dec_div_million(a: &Dec) -> (r: Dec)
    requires
        parse_bounded(*a),
    ensures
        r == spec_div_million(*a),
{
    Dec { mant: a.mant, scale: a.scale + 6 }
}

/// The exact sum, at the finer of the two scales.
pub open spec fn spec_add(a: Dec, b: Dec) -> Dec {
    if a.scale >= b.scale {
        Dec {
            mant: ((a.mant as int) + (b.mant as int) * pow10((a.scale - b.scale) as nat)) as i128,
            scale: a.scale,
        }
    } else {
        Dec {
            mant: ((b.mant as int) + (a.mant as int) * pow10((b.scale - a.scale) as nat)) as i128,
            scale: b.scale,
        }
    }
}

/// Sign character of a numeric token.
pub open spec fn sign_char(c: char) -> bool {
    c == '+' || c == '-'
}

/// Exponent marker of a numeric token; the report uses the Fortran `D`
/// beside the usual `E`.
pub open spec fn exp_char(c: char) -> bool {
    c == 'e' || c == 'E' || c == 'd' || c == 'D'
}

/// Every character is an ASCII digit; an empty run qualifies.
pub open spec fn all_digits0(s: Seq<char>) -> bool {
    forall|i: int| 0 <= i < s.len() ==> is_digit_char(s[i])
}

/// Index of the first exponent marker, or the length if there is none.
pub open spec fn first_exp(t: Seq<char>) -> int
    decreases t.len(),
{
    if t.len() == 0 {
        0
    } else if exp_char(t[0]) {
        0
    } else {
        1 + first_exp(t.drop_first())
    }
}

/// Index of the first decimal point, or the length if there is none.
pub open spec fn first_dot(t: Seq<char>) -> int
    decreases t.len(),
{
    if t.len() == 0 {
        0
    } else if t[0] == '.' {
        0
    } else {
        1 + first_dot(t.drop_first())
    }
}

pub proof fn lemma_first_exp(t: Seq<char>)
    ensures
        0 <= first_exp(t) <= t.len(),
        forall|j: int| 0 <= j < first_exp(t) ==> !exp_char(t[j]),
        first_exp(t) < t.len() ==> exp_char(t[first_exp(t)]),
    decreases t.len(),
{
    if t.len() > 0 && !exp_char(t[0]) {
        lemma_first_exp(t.drop_first());
        assert forall|j: int| 0 <= j < first_exp(t) implies !exp_char(t[j]) by {
            if j > 0 {
                assert(t.drop_first()[j - 1] == t[j]);
            }
        }
        if first_exp(t) < t.len() {
            assert(t.drop_first()[first_exp(t) - 1] == t[first_exp(t)]);
        }
    }
}

pub proof fn lemma_first_dot(t: Seq<char>)
    ensures
        0 <= first_dot(t) <= t.len(),
        forall|j: int| 0 <= j < first_dot(t) ==> t[j] != '.',
        first_dot(t) < t.len() ==> t[first_dot(t)] == '.',
    decreases t.len(),
{
    if t.len() > 0 && t[0] != '.' {
        lemma_first_dot(t.drop_first());
        assert forall|j: int| 0 <= j < first_dot(t) implies t[j] != '.' by {
            if j > 0 {
                assert(t.drop_first()[j - 1] == t[j]);
            }
        }
        if first_dot(t) < t.len() {
            assert(t.drop_first()[first_dot(t) - 1] == t[first_dot(t)]);
        }
    }
}

/// Value of a run of ASCII digits, most significant first.
pub open spec fn digits_val(s: Seq<char>) -> int
    decreases s.len(),
{
    if s.len() == 0 {
        0
    } else {
        10 * digits_val(s.drop_last()) + digit_val(s.last())
    }
}

pub proof fn lemma_digits_val_nonneg(s: Seq<char>)
    requires
        all_digits0(s),
    ensures
        digits_val(s) >= 0,
    decreases s.len(),
{
    if s.len() > 0 {
        assert(all_digits0(s.drop_last())) by {
            assert forall|i: int| 0 <= i < s.len() - 1 implies is_digit_char(s.drop_last()[i]) by {
                assert(s.drop_last()[i] == s[i]);
            }
        }
        lemma_digits_val_nonneg(s.drop_last());
        assert(is_digit_char(s.last()));
    }
}

pub proof fn lemma_digits_val_step(s: Seq<char>, i: int)
    requires
        0 <= i < s.len(),
    ensures
        digits_val(s.take(i + 1)) == 10 * digits_val(s.take(i)) + digit_val(s[i]),
{
    assert(s.take(i + 1).drop_last() =~= s.take(i));
    assert(s.take(i + 1).last() == s[i]);
}

proof fn lemma_prefix_digits(s: Seq<char>, k: int)
    requires
        0 <= k <= s.len(),
        forall|j: int| 0 <= j < k ==> is_digit_char(s[j]),
    ensures
        all_digits0(s.take(k)),
{
    assert forall|j: int| 0 <= j < k implies is_digit_char(s.take(k)[j]) by {
        assert(s.take(k)[j] == s[j]);
    }
}

proof fn lemma_mul_ge_self(m: int, p: int)
    by (nonlinear_arith)
    requires
        m >= 0,
        p >= 1,
    ensures
        m * p >= m,
{
}

/// The decomposed pieces of a numeric token: sign, integer digits,
/// fractional digits, and the optional exponent field.
pub ghost struct NumParts {
    pub neg: bool,
    pub ip: Seq<char>,
    pub fp: Seq<char>,
    pub has_exp: bool,
    pub eneg: bool,
    pub edigits: Seq<char>,
}

/// Decompose a non-empty token at its sign, first decimal point and first
/// exponent marker.
pub open spec fn token_parts(t: Seq<char>) -> NumParts
    recommends
        t.len() > 0,
{
    let s0: int = if sign_char(t[0]) {
        1
    } else {
        0
    };
    let body = t.subrange(s0, t.len() as int);
    let e = first_exp(body);
    let mant = body.take(e);
    let d = first_dot(mant);
    let ip = mant.take(d);
    let fp = if d < mant.len() {
        mant.subrange(d + 1, mant.len() as int)
    } else {
        Seq::<char>::empty()
    };
    let has_exp = e < body.len();
    let et = if has_exp {
        body.subrange(e + 1, body.len() as int)
    } else {
        Seq::<char>::empty()
    };
    let es: int = if et.len() > 0 && sign_char(et[0]) {
        1
    } else {
        0
    };
    NumParts {
        neg: t[0] == '-',
        ip: ip,
        fp: fp,
        has_exp: has_exp,
        eneg: es == 1 && et[0] == '-',
        edigits: et.subrange(es, et.len() as int),
    }
}

/// The token fits the number grammar: digits around at most one point,
/// at least one digit, and a well-formed exponent field if one is present.
pub open spec fn parts_valid(p: NumParts) -> bool {
    all_digits0(p.ip) && all_digits0(p.fp) && p.ip.len() + p.fp.len() >= 1 && (p.has_exp
        ==> all_digits(p.edigits))
}

/// Signed value of the exponent field.
pub open spec fn parts_exp(p: NumParts) -> int {
    if !p.has_exp {
        0
    } else if p.eneg {
        -digits_val(p.edigits)
    } else {
        digits_val(p.edigits)
    }
}

/// The value of a decomposed token as a `Dec`, or the sentinel where the
/// grammar or the twelve-digit bounds are not met.
pub open spec fn parts_value(p: NumParts) -> Dec {
    let m = digits_val(p.ip + p.fp);
    let sc = p.fp.len() - parts_exp(p);
    if !parts_valid(p) {
        spec_bad_dec()
    } else if m == 0 {
        Dec { mant: 0, scale: 0 }
    } else if 0 <= sc <= 12 && m < 1000000000000 {
        Dec {
            mant: (if p.neg {
                -m
            } else {
                m
            }) as i128,
            scale: sc as u32,
        }
    } else if sc < 0 && -sc <= 12 && m * pow10((-sc) as nat) < 1000000000000 {
        Dec {
            mant: (if p.neg {
                -(m * pow10((-sc) as nat))
            } else {
                m * pow10((-sc) as nat)
            }) as i128,
            scale: 0,
        }
    } else {
        spec_bad_dec()
    }
}

/// What a numeric token of the report denotes.
pub open spec fn spec_parse_dec(t: Seq<char>) -> Dec {
    if t.len() == 0 {
        spec_bad_dec()
    } else {
        parts_value(token_parts(t))
    }
}

fn is_exp_c(c: char) -> (r: bool)
    ensures
        r == exp_char(c),
{
    c == 'e' || c == 'E' || c == 'd' || c == 'D'
}

fn find_exp(t: &Vec<char>, from: usize) -> (r: usize)
    requires
        from <= t@.len(),
    ensures
        from <= r <= t@.len(),
        forall|j: int| from <= j < r ==> !exp_char(t@[j]),
        r < t@.len() ==> exp_char(t@[r as int]),
{
    let mut i: usize = from;
    while i < t.len()
        invariant
            from <= i <= t@.len(),
            forall|j: int| from <= j < i ==> !exp_char(t@[j]),
        decreases t@.len() - i,
    {
        if is_exp_c(t[i]) {
            return i;
        }
        i += 1;
    }
    i
}

fn find_dot(t: &Vec<char>, from: usize, to: usize) -> (r: usize)
    requires
        from <= to <= t@.len(),
    ensures
        from <= r <= to,
        forall|j: int| from <= j < r ==> t@[j] != '.',
        r < to ==> t@[r as int] == '.',
{
    let mut i: usize = from;
    while i < to
        invariant
            from <= i <= to <= t@.len(),
            forall|j: int| from <= j < i ==> t@[j] != '.',
        decreases to - i,
    {
        if t[i] == '.' {
            return i;
        }
        i += 1;
    }
    i
}

/// Add two bounded values exactly.
pub fn dec_add(a: &Dec, b: &Dec) -> (r: Dec)
    requires
        mhz_bounded(*a),
        mhz_bounded(*b),
    ensures
        r == spec_add(*a, *b),
{
    if a.scale >= b.scale {
        let p = pow10_i128(a.scale - b.scale);
        proof {
            lemma_pow10_pos((a.scale - b.scale) as nat);
            lemma_pow10_mono((a.scale - b.scale) as nat, 16);
            lemma_pow10_vals();
            lemma_mul_bound(
                b.mant as int,
                pow10((a.scale - b.scale) as nat),
                1000000000000000000000,
                10000000000000000,
            );
        }
        Dec { mant: a.mant + b.mant * p, scale: a.scale }
    } else {
        let p = pow10_i128(b.scale - a.scale);
        proof {
            lemma_pow10_pos((b.scale - a.scale) as nat);
            lemma_pow10_mono((b.scale - a.scale) as nat, 16);
            lemma_pow10_vals();
            lemma_mul_bound(
                a.mant as int,
                pow10((b.scale - a.scale) as nat),
                1000000000000000000000,
                10000000000000000,
            );
        }
        Dec { mant: b.mant + a.mant * p, scale: b.scale }
    }
}

/// What an unsigned integer token denotes: an optional `+`, then one or
/// more digits whose value fits the machine's word.
pub open spec fn spec_parse_usize(t: Seq<char>) -> Option<usize> {
    let s0: int = if t.len() > 0 && t[0] == '+' {
        1
    } else {
        0
    };
    let ds = t.subrange(s0, t.len() as int);
    if ds.len() >= 1 && all_digits0(ds) && digits_val(ds) <= usize::MAX as int {
        Some(digits_val(ds) as usize)
    } else {
        None
    }
}

/// Parse an unsigned integer token exactly; `None` where the token is not
/// a number or does not fit.
pub fn parse_usize_tok(t: &Vec<char>) -> (r: Option<usize>)
    ensures
        r == spec_parse_usize(t@),
{
    let n = t.len();
    let s0: usize = if n > 0 && t[0] == '+' {
        1
    } else {
        0
    };
    if n == s0 {
        return None;
    }
    let ghost ds = t@.subrange(s0 as int, n as int);
    let mut acc: u128 = 0;
    let mut over: bool = false;
    let mut i: usize = s0;
    while i < n
        invariant
            s0 <= i <= n,
            n == t@.len(),
            s0 as int == (if t@.len() > 0 && t@[0] == '+' {
                1int
            } else {
                0int
            }),
            ds == t@.subrange(s0 as int, n as int),
            forall|j: int| 0 <= j < i - s0 ==> is_digit_char(ds[j]),
            0 <= acc,
            !over ==> acc == digits_val(ds.take(i - s0)) && acc <= usize::MAX as u128,
            over ==> digits_val(ds.take(i - s0)) > usize::MAX as int,
        decreases n - i,
    {
        let c = t[i];
        proof {
            assert(ds[i - s0] == t@[i as int]);
        }
        if !digit_char(c) {
            proof {
                assert(!is_digit_char(ds[i - s0]));
                assert(0 <= i - s0 < ds.len());
                assert(!all_digits0(ds));
            }
            return None;
        }
        proof {
            lemma_prefix_digits(ds, i - s0);
            lemma_digits_val_nonneg(ds.take(i - s0));
            lemma_digits_val_step(ds, i - s0);
        }
        if !over {
            let dv: u128 = (c as u32 - 48) as u128;
            acc = acc * 10 + dv;
            if acc > usize::MAX as u128 {
                over = true;
            }
        }
        i += 1;
    }
    proof {
        assert(ds.take(ds.len() as int) =~= ds);
    }
    if over {
        return None;
    }
    Some(acc as usize)
}

/// Whatever a token denotes is within the parse bounds: so is the
/// sentinel.
pub proof fn lemma_parse_dec_bounded(t: Seq<char>)
    ensures
        parse_bounded(spec_parse_dec(t)),
{
    if t.len() > 0 {
        let p = token_parts(t);
        if parts_valid(p) {
            let md = p.ip + p.fp;
            assert(all_digits0(md)) by {
                assert forall|j: int| 0 <= j < md.len() implies is_digit_char(md[j]) by {
                    if j < p.ip.len() {
                        assert(md[j] == p.ip[j]);
                    } else {
                        assert(md[j] == p.fp[j - p.ip.len()]);
                    }
                }
            }
            lemma_digits_val_nonneg(md);
            let m = digits_val(md);
            let sc = p.fp.len() - parts_exp(p);
            if m != 0 && sc < 0 && -sc <= 12 && m * pow10((-sc) as nat) < 1000000000000 {
                lemma_pow10_pos((-sc) as nat);
                lemma_mul_ge_self(m, pow10((-sc) as nat));
            }
        }
    }
}

/// Scan a run of mantissa digits, extending the accumulated value and
/// keeping it capped at twelve significant digits.
fn scan_mant(
    t: &Vec<char>,
    from: usize,
    to: usize,
    Ghost(md): Ghost<Seq<char>>,
    Ghost(off): Ghost<int>,
    acc0: i128,
    mover0: bool,
) -> (r: (i128, bool, bool))
    requires
        from <= to <= t@.len(),
        0 <= off,
        off + (to - from) <= md.len(),
        forall|j: int| 0 <= j < off ==> is_digit_char(md[j]),
        forall|j: int| from <= j < to ==> md[off + (j - from)] == t@[j],
        0 <= acc0,
        !mover0 ==> acc0 == digits_val(md.take(off)) && acc0 < 1000000000000,
        mover0 ==> digits_val(md.take(off)) >= 1000000000000,
    ensures
        r.2 ==> forall|j: int| 0 <= j < off + (to - from) ==> is_digit_char(md[j]),
        r.2 && !r.1 ==> r.0 == digits_val(md.take(off + (to - from))) && r.0 < 1000000000000,
        r.2 && r.1 ==> digits_val(md.take(off + (to - from))) >= 1000000000000,
        r.0 >= 0,
        !r.2 ==> exists|j: int| off <= j < off + (to - from) && !is_digit_char(md[j]),
{
    let mut acc: i128 = acc0;
    let mut mover: bool = mover0;
    let mut i: usize = from;
    while i < to
        invariant
            from <= i <= to <= t@.len(),
            0 <= off,
            off + (to - from) <= md.len(),
            forall|j: int| 0 <= j < off + (i - from) ==> is_digit_char(md[j]),
            forall|j: int| from <= j < to ==> md[off + (j - from)] == t@[j],
            0 <= acc,
            !mover ==> acc == digits_val(md.take(off + (i - from))) && acc < 1000000000000,
            mover ==> digits_val(md.take(off + (i - from))) >= 1000000000000,
        decreases to - i,
    {
        let c = t[i];
        let ghost mi = off + (i - from);
        proof {
            assert(md[mi] == t@[i as int]);
        }
        if !digit_char(c) {
            return (acc, mover, false);
        }
        proof {
            lemma_prefix_digits(md, mi);
            lemma_digits_val_nonneg(md.take(mi));
            lemma_digits_val_step(md, mi);
        }
        if !mover {
            let dv: i128 = (c as u32 - 48) as i128;
            acc = acc * 10 + dv;
            if acc >= 1000000000000 {
                mover = true;
            }
        }
        i += 1;
    }
    (acc, mover, true)
}

/// Scan the digits of an exponent field, capping the value once it is far
/// beyond any scale the mantissa could absorb.
fn scan_exp(t: &Vec<char>, from: usize, Ghost(ed): Ghost<Seq<char>>) -> (r: (i128, bool, bool))
    requires
        from <= t@.len(),
        ed.len() == t@.len() - from,
        forall|j: int| from <= j < t@.len() ==> ed[j - from] == t@[j],
    ensures
        r.2 ==> all_digits0(ed),
        r.2 && !r.1 ==> r.0 == digits_val(ed) && r.0 < 1000000000000000000000000000000,
        r.2 && r.1 ==> digits_val(ed) >= 1000000000000000000000000000000,
        r.0 >= 0,
        !r.2 ==> !all_digits0(ed),
{
    let n = t.len();
    let mut ev: i128 = 0;
    let mut eover: bool = false;
    let mut i: usize = from;
    while i < n
        invariant
            from <= i <= n,
            n == t@.len(),
            ed.len() == n - from,
            forall|j: int| from <= j < n ==> ed[j - from] == t@[j],
            forall|j: int| 0 <= j < i - from ==> is_digit_char(ed[j]),
            0 <= ev,
            !eover ==> ev == digits_val(ed.take(i - from)) && ev
                < 1000000000000000000000000000000,
            eover ==> digits_val(ed.take(i - from)) >= 1000000000000000000000000000000,
        decreases n - i,
    {
        let c = t[i];
        proof {
            assert(ed[i - from] == t@[i as int]);
        }
        if !digit_char(c) {
            return (ev, eover, false);
        }
        proof {
            lemma_prefix_digits(ed, i - from);
            lemma_digits_val_nonneg(ed.take(i - from));
            lemma_digits_val_step(ed, i - from);
        }
        if !eover {
            let dv: i128 = (c as u32 - 48) as i128;
            ev = ev * 10 + dv;
            if ev >= 1000000000000000000000000000000 {
                eover = true;
            }
        }
        i += 1;
    }
    proof {
        assert(ed.take(ed.len() as int) =~= ed);
    }
    (ev, eover, true)
}

/// Parse a numeric token into its exact decimal value, or the sentinel
/// where the token does not fit the grammar or its bounds.
#[verifier::rlimit(100)]
#[verifier::spinoff_prover]
pub fn parse_dec(t: &Vec<char>) -> (d: Dec)
    ensures
        d == spec_parse_dec(t@),
        parse_bounded(d),
{
    let n = t.len();
    if n == 0 {
        return bad_dec();
    }
    let first = t[0];
    let neg = first == '-';
    let s0: usize = if first == '+' || first == '-' {
        1
    } else {
        0
    };
    let epos = find_exp(t, s0);
    let dpos = find_dot(t, s0, epos);
    let ghost parts = token_parts(t@);
    let ghost body = t@.subrange(s0 as int, n as int);
    let ghost e = first_exp(body);
    proof {
        lemma_first_exp(body);
        assert(e == epos - s0) by {
            if e < epos - s0 {
                assert(exp_char(body[e]));
                assert(body[e] == t@[s0 + e]);
            }
            if e > epos - s0 {
                if epos < n {
                    assert(exp_char(t@[epos as int]));
                    assert(body[epos - s0] == t@[epos as int]);
                }
            }
        }
    }
    let ghost mant = body.take(e);
    let ghost dd = first_dot(mant);
    proof {
        assert(mant =~= t@.subrange(s0 as int, epos as int));
        lemma_first_dot(mant);
        assert(dd == dpos - s0) by {
            if dd < dpos - s0 {
                assert(mant[dd] == t@[s0 + dd]);
            }
            if dd > dpos - s0 {
                if dpos < epos {
                    assert(mant[dpos - s0] == t@[dpos as int]);
                }
            }
        }
        assert(parts.ip =~= t@.subrange(s0 as int, dpos as int));
        if dpos < epos {
            assert(parts.fp =~= t@.subrange(dpos + 1, epos as int));
        } else {
            assert(parts.fp =~= Seq::<char>::empty());
        }
    }
    let ghost md = parts.ip + parts.fp;
    let iplen: usize = dpos - s0;
    let fplen: usize = if dpos < epos {
        epos - dpos - 1
    } else {
        0
    };
    proof {
        assert(parts.ip.len() == iplen);
        assert(parts.fp.len() == fplen);
        assert(forall|j: int| s0 <= j < dpos ==> md[0 + (j - s0)] == t@[j]);
        assert(forall|j: int|
            dpos + 1 <= j < epos ==> md[iplen + (j - (dpos + 1))] == t@[j]);
    }
    let mdlen: usize = iplen + fplen;
    if mdlen == 0 {
        return bad_dec();
    }
    let (acc1, mover1, ok1) = scan_mant(
        t,
        s0,
        dpos,
        Ghost(md),
        Ghost(0int),
        0,
        false,
    );
    if !ok1 {
        proof {
            assert(!all_digits0(parts.ip));
        }
        return bad_dec();
    }
    let (acc, mover, ok2) = if dpos < epos {
        scan_mant(t, dpos + 1, epos, Ghost(md), Ghost(iplen as int), acc1, mover1)
    } else {
        (acc1, mover1, true)
    };
    if !ok2 {
        proof {
            assert(!all_digits0(parts.fp)) by {
                let j = choose|j: int|
                    iplen <= j < iplen + fplen && !is_digit_char(md[j]);
                assert(md[j] == parts.fp[j - iplen]);
            }
        }
        return bad_dec();
    }
    proof {
        assert(md.take(mdlen as int) =~= md);
        assert(all_digits0(parts.ip)) by {
            assert forall|j: int| 0 <= j < parts.ip.len() implies is_digit_char(parts.ip[j]) by {
                assert(md[j] == parts.ip[j]);
            }
        }
        assert(all_digits0(parts.fp)) by {
            assert forall|j: int| 0 <= j < parts.fp.len() implies is_digit_char(parts.fp[j]) by {
                assert(md[parts.ip.len() + j] == parts.fp[j]);
            }
        }
    }
    // the exponent field
    let mut eneg: bool = false;
    let mut ev: i128 = 0;
    let mut eover: bool = false;
    let ghost edigits = parts.edigits;
    if epos < n {
        let mut es: usize = epos + 1;
        if es < n && (t[es] == '+' || t[es] == '-') {
            eneg = t[es] == '-';
            es += 1;
        }
        proof {
            assert(edigits =~= t@.subrange(es as int, n as int));
            assert(eneg == parts.eneg);
        }
        if es == n {
            proof {
                assert(edigits.len() == 0);
            }
            return bad_dec();
        }
        let (ev2, eover2, ok3) = scan_exp(t, es, Ghost(edigits));
        if !ok3 {
            return bad_dec();
        }
        ev = ev2;
        eover = eover2;
    }
    let d = finish_dec(neg, fplen, acc, mover, ev, eover, eneg, Ghost(parts));
    d
}

/// Assemble the final value from the scanned mantissa and exponent.
#[verifier::rlimit(60)]
fn finish_dec(
    neg: bool,
    fplen: usize,
    acc: i128,
    mover: bool,
    ev: i128,
    eover: bool,
    eneg: bool,
    Ghost(parts): Ghost<NumParts>,
) -> (d: Dec)
    requires
        parts_valid(parts),
        neg == parts.neg,
        fplen == parts.fp.len(),
        0 <= acc,
        !mover ==> acc == digits_val(parts.ip + parts.fp) && acc < 1000000000000,
        mover ==> digits_val(parts.ip + parts.fp) >= 1000000000000,
        !parts.has_exp ==> ev == 0 && !eover && !eneg,
        parts.has_exp ==> eneg == parts.eneg,
        0 <= ev,
        parts.has_exp && !eover ==> ev == digits_val(parts.edigits) && ev
            < 1000000000000000000000000000000,
        parts.has_exp && eover ==> digits_val(parts.edigits)
            >= 1000000000000000000000000000000,
    ensures
        d == parts_value(parts),
        parse_bounded(d),
{
    let ghost md = parts.ip + parts.fp;
    let ghost m = digits_val(md);
    proof {
        assert(all_digits0(md)) by {
            assert forall|j: int| 0 <= j < md.len() implies is_digit_char(md[j]) by {
                if j < parts.ip.len() {
                    assert(md[j] == parts.ip[j]);
                } else {
                    assert(md[j] == parts.fp[j - parts.ip.len()]);
                }
            }
        }
        lemma_digits_val_nonneg(md);
    }
    if !mover && acc == 0 {
        return zero_dec();
    }
    proof {
        assert(m != 0);
    }
    let flen_i: i128 = fplen as i128;
    if !eneg {
        if eover {
            proof {
                assert(parts_exp(parts) >= 1000000000000000000000000000000);
                assert(fplen < 100000000000000000000);
            }
            return bad_dec();
        }
        if ev > flen_i {
            let kk = ev - flen_i;
            proof {
                assert(parts.fp.len() - parts_exp(parts) == flen_i - ev);
            }
            if kk > 12 {
                return bad_dec();
            }
            if mover {
                proof {
                    lemma_pow10_pos(kk as nat);
                    lemma_mul_ge_self(m, pow10(kk as nat));
                }
                return bad_dec();
            }
            let p = pow10_i128(kk as u32);
            proof {
                lemma_pow10_pos(kk as nat);
                lemma_pow10_mono(kk as nat, 12);
                lemma_pow10_vals();
                lemma_mul_bound(acc as int, pow10(kk as nat), 1000000000000, 1000000000000);
            }
            let m2 = acc * p;
            if m2 >= 1000000000000 {
                return bad_dec();
            }
            let mant2: i128 = if neg {
                -m2
            } else {
                m2
            };
            return Dec { mant: mant2, scale: 0 };
        } else {
            let sc = flen_i - ev;
            proof {
                assert(parts.fp.len() - parts_exp(parts) == sc);
            }
            if sc > 12 {
                return bad_dec();
            }
            if mover {
                return bad_dec();
            }
            let mant2: i128 = if neg {
                -acc
            } else {
                acc
            };
            return Dec { mant: mant2, scale: sc as u32 };
        }
    } else {
        if eover {
            proof {
                assert(parts_exp(parts) <= -1000000000000000000000000000000);
            }
            return bad_dec();
        }
        let sc = flen_i + ev;
        proof {
            assert(parts.fp.len() - parts_exp(parts) == sc);
        }
        if sc > 12 {
            return bad_dec();
        }
        if mover {
            return bad_dec();
        }
        let mant2: i128 = if neg {
            -acc
        } else {
            acc
        };
        return Dec { mant: mant2, scale: sc as u32 };
    }
}

} // verus!
