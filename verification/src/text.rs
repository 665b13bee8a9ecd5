//! Character classes, substring search, and whitespace tokenization for the
//! report scanner.  A line of the report is a `Vec<char>`, viewed as a
//! `Seq<char>`; every function here is specified exactly over that view.

use vstd::prelude::*;

verus! {

/// ASCII whitespace, as the report format uses it.
pub open spec fn is_ws_char(c: char) -> bool {
    c == ' ' || c == '\t' || c == '\n' || c == '\r' || c == '\x0b' || c == '\x0c'
}

/// ASCII decimal digit.
pub open spec fn is_digit_char(c: char) -> bool {
    48 <= (c as u32) && (c as u32) <= 57
}

/// Value of an ASCII digit.
pub open spec fn digit_val(c: char) -> int {
    (c as u32) - 48
}

/// ASCII lower-casing; other characters are untouched.
pub open spec fn lower(c: char) -> char {
    if 65 <= (c as u32) && (c as u32) <= 90 {
        (((c as u32) + 32) as u8) as char
    } else {
        c
    }
}

/// A word character in the sense used by the section-marker grammar:
/// letter, digit or underscore.
pub open spec fn is_word_char(c: char) -> bool {
    is_digit_char(c) || (97 <= (lower(c) as u32) && (lower(c) as u32) <= 122) || c == '_'
}

pub fn ws_char(c: char) -> (r: bool)
    ensures
        r == is_ws_char(c),
{
    c == ' ' || c == '\t' || c == '\n' || c == '\r' || c == '\x0b' || c == '\x0c'
}

pub fn digit_char(c: char) -> (r: bool)
    ensures
        r == is_digit_char(c),
{
    let u = c as u32;
    48 <= u && u <= 57
}

pub fn lower_char(c: char) -> (r: char)
    ensures
        r == lower(c),
{
    let u = c as u32;
    if 65 <= u && u <= 90 {
        ((u + 32) as u8) as char
    } else {
        c
    }
}

pub fn word_char(c: char) -> (r: bool)
    ensures
        r == is_word_char(c),
{
    let l = lower_char(c) as u32;
    digit_char(c) || (97 <= l && l <= 122) || c == '_'
}

/// The pattern `p` occurs in `l` starting at position `i`.
pub open spec fn match_at(l: Seq<char>, p: Seq<char>, i: int) -> bool {
    0 <= i && i + p.len() <= l.len() && forall|k: int| 0 <= k < p.len() ==> l[i + k] == p[k]
}

/// The pattern `p` occurs somewhere in `l`.
pub open spec fn has_substr(l: Seq<char>, p: Seq<char>) -> bool {
    exists|i: int| match_at(l, p, i)
}

/// The line starts with `p`.
pub open spec fn has_prefix(l: Seq<char>, p: Seq<char>) -> bool {
    match_at(l, p, 0)
}

/// The line starts with `p` up to ASCII case; `p` is given lower-case.
pub open spec fn has_prefix_ci(l: Seq<char>, p: Seq<char>) -> bool {
    p.len() <= l.len() && forall|k: int| 0 <= k < p.len() ==> lower(l[k]) == p[k]
}

/// Some character of `l` is an ASCII digit.
pub open spec fn has_digit(l: Seq<char>) -> bool {
    exists|i: int| 0 <= i < l.len() && is_digit_char(l[i])
}

/// Every character of `l` is an ASCII digit (and there is at least one).
pub open spec fn all_digits(l: Seq<char>) -> bool {
    l.len() > 0 && forall|i: int| 0 <= i < l.len() ==> is_digit_char(l[i])
}

/// Every character is whitespace (an empty line qualifies).
pub open spec fn all_ws(l: Seq<char>) -> bool {
    forall|i: int| 0 <= i < l.len() ==> is_ws_char(l[i])
}

fn match_here(l: &Vec<char>, p: &Vec<char>, i: usize) -> (r: bool)
    requires
        i + p@.len() <= l@.len(),
    ensures
        r == match_at(l@, p@, i as int),
{
    let n = l.len();
    let mut k: usize = 0;
    while k < p.len()
        invariant
            i + p@.len() <= l@.len(),
            n == l@.len(),
            0 <= k <= p@.len(),
            forall|j: int| 0 <= j < k ==> l@[i + j] == p@[j],
        decreases p@.len() - k,
    {
        let idx = i + k;
        if l[idx] != p[k] {
            return false;
        }
        k += 1;
    }
    true
}

/// Substring search for a fixed marker pattern.
pub fn contains_sub(l: &Vec<char>, p: &Vec<char>) -> (r: bool)
    ensures
        r == has_substr(l@, p@),
{
    if p.len() > l.len() {
        assert(!has_substr(l@, p@));
        return false;
    }
    let mut i: usize = 0;
    while i <= l.len() - p.len()
        invariant
            p@.len() <= l@.len(),
            0 <= i <= l@.len() - p@.len() + 1,
            forall|j: int| 0 <= j < i ==> !match_at(l@, p@, j),
        decreases l@.len() - p@.len() - i + 1,
    {
        if match_here(l, p, i) {
            return true;
        }
        i += 1;
    }
    false
}

/// Prefix test.
pub fn starts_with(l: &Vec<char>, p: &Vec<char>) -> (r: bool)
    ensures
        r == has_prefix(l@, p@),
{
    if p.len() > l.len() {
        return false;
    }
    match_here(l, p, 0)
}

/// Case-insensitive prefix test; `p` must be given lower-case.
pub fn starts_with_ci(l: &Vec<char>, p: &Vec<char>) -> (r: bool)
    ensures
        r == has_prefix_ci(l@, p@),
{
    if p.len() > l.len() {
        return false;
    }
    let mut k: usize = 0;
    while k < p.len()
        invariant
            p@.len() <= l@.len(),
            0 <= k <= p@.len(),
            forall|j: int| 0 <= j < k ==> lower(l@[j]) == p@[j],
        decreases p@.len() - k,
    {
        if lower_char(l[k]) != p[k] {
            return false;
        }
        k += 1;
    }
    true
}

/// Whether the line holds any ASCII digit.
pub fn contains_digit(l: &Vec<char>) -> (r: bool)
    ensures
        r == has_digit(l@),
{
    let mut i: usize = 0;
    while i < l.len()
        invariant
            0 <= i <= l@.len(),
            forall|j: int| 0 <= j < i ==> !is_digit_char(l@[j]),
        decreases l@.len() - i,
    {
        if digit_char(l[i]) {
            return true;
        }
        i += 1;
    }
    false
}

/// Whether the token is one or more ASCII digits.
pub fn token_all_digits(l: &Vec<char>) -> (r: bool)
    ensures
        r == all_digits(l@),
{
    if l.len() == 0 {
        return false;
    }
    let mut i: usize = 0;
    while i < l.len()
        invariant
            0 <= i <= l@.len(),
            l@.len() > 0,
            forall|j: int| 0 <= j < i ==> is_digit_char(l@[j]),
        decreases l@.len() - i,
    {
        if !digit_char(l[i]) {
            return false;
        }
        i += 1;
    }
    true
}

/// Whether the line is blank: every character whitespace.
pub fn line_blank(l: &Vec<char>) -> (r: bool)
    ensures
        r == all_ws(l@),
{
    let mut i: usize = 0;
    while i < l.len()
        invariant
            0 <= i <= l@.len(),
            forall|j: int| 0 <= j < i ==> is_ws_char(l@[j]),
        decreases l@.len() - i,
    {
        if !ws_char(l[i]) {
            return false;
        }
        i += 1;
    }
    true
}

/// Exact equality of two character sequences.
pub fn chars_eq(a: &Vec<char>, b: &Vec<char>) -> (r: bool)
    ensures
        r == (a@ == b@),
{
    if a.len() != b.len() {
        return false;
    }
    let mut i: usize = 0;
    while i < a.len()
        invariant
            a@.len() == b@.len(),
            0 <= i <= a@.len(),
            forall|j: int| 0 <= j < i ==> a@[j] == b@[j],
        decreases a@.len() - i,
    {
        if a[i] != b[i] {
            assert(a@ != b@);
            return false;
        }
        i += 1;
    }
    assert(a@ =~= b@);
    true
}

/// One step of whitespace tokenization: the accumulator holds the finished
/// tokens and the token being gathered.
pub open spec fn split_step(acc: (Seq<Seq<char>>, Seq<char>), c: char) -> (Seq<Seq<char>>, Seq<char>) {
    if is_ws_char(c) {
        if acc.1.len() == 0 {
            acc
        } else {
            (acc.0.push(acc.1), Seq::empty())
        }
    } else {
        (acc.0, acc.1.push(c))
    }
}

pub open spec fn split_fold(l: Seq<char>) -> (Seq<Seq<char>>, Seq<char>)
    decreases l.len(),
{
    if l.len() == 0 {
        (Seq::empty(), Seq::empty())
    } else {
        split_step(split_fold(l.drop_last()), l.last())
    }
}

/// The whitespace-separated tokens of a line, in order.
pub open spec fn split_ws(l: Seq<char>) -> Seq<Seq<char>> {
    let (done, cur) = split_fold(l);
    if cur.len() == 0 {
        done
    } else {
        done.push(cur)
    }
}

/// Split a line into its whitespace-separated tokens.
pub fn split_ws_vec(l: &Vec<char>) -> (r: Vec<Vec<char>>)
    ensures
        r.deep_view() == split_ws(l@),
{
    let mut done: Vec<Vec<char>> = Vec::new();
    let mut cur: Vec<char> = Vec::new();
    let mut i: usize = 0;
    while i < l.len()
        invariant
            0 <= i <= l@.len(),
            (done.deep_view(), cur@) == split_fold(l@.take(i as int)),
        decreases l@.len() - i,
    {
        let c = l[i];
        proof {
            assert(l@.take(i + 1).drop_last() =~= l@.take(i as int));
            assert(l@.take(i + 1).last() == l@[i as int]);
        }
        if ws_char(c) {
            if cur.len() > 0 {
                let ghost old_done = done.deep_view();
                let ghost old_cur = cur@;
                done.push(cur);
                cur = Vec::new();
                proof {
                    assert(done.deep_view() =~~= old_done.push(old_cur));
                }
            }
        } else {
            cur.push(c);
        }
        i += 1;
    }
    proof {
        assert(l@.take(l@.len() as int) =~= l@);
    }
    if cur.len() > 0 {
        let ghost old_done = done.deep_view();
        let ghost old_cur = cur@;
        done.push(cur);
        proof {
            assert(done.deep_view() =~~= old_done.push(old_cur));
        }
    }
    done
}

} // verus!
