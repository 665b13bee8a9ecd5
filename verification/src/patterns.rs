//! The fixed markers and keyword tokens of the report format, as
//! character sequences: each pattern is one spec-level sequence beside the
//! runtime vector that carries it, proved equal.

use vstd::prelude::*;

use crate::text::digit_char;
use crate::text::has_digit;
use crate::text::is_digit_char;
use crate::text::is_word_char;
use crate::text::is_ws_char;
use crate::text::lower;
use crate::text::lower_char;
use crate::text::word_char;
use crate::text::ws_char;

verus! {

/// `"MOLECULAR PRINCIPAL GEOMETRY"`: the geometry section title.
pub open spec fn geom_marker() -> Seq<char> {
    seq!['M', 'O', 'L', 'E', 'C', 'U', 'L', 'A', 'R', ' ', 'P', 'R', 'I', 'N', 'C', 'I', 'P', 'A', 'L', ' ', 'G', 'E', 'O', 'M', 'E', 'T', 'R', 'Y']
}

pub fn geom_marker_vec() -> (v: Vec<char>)
    ensures
        v@ == geom_marker(),
{
    let v = vec!['M', 'O', 'L', 'E', 'C', 'U', 'L', 'A', 'R', ' ', 'P', 'R', 'I', 'N', 'C', 'I', 'P', 'A', 'L', ' ', 'G', 'E', 'O', 'M', 'E', 'T', 'R', 'Y'];
    proof {
        assert(v@ =~= geom_marker());
    }
    v
}

/// `"LXM MATRIX"`: the normal-mode matrix title.
pub open spec fn lxm_marker() -> Seq<char> {
    seq!['L', 'X', 'M', ' ', 'M', 'A', 'T', 'R', 'I', 'X']
}

pub fn lxm_marker_vec() -> (v: Vec<char>)
    ensures
        v@ == lxm_marker(),
{
    let v = vec!['L', 'X', 'M', ' ', 'M', 'A', 'T', 'R', 'I', 'X'];
    proof {
        assert(v@ =~= lxm_marker());
    }
    v
}

/// `"--------"`: the rule under a matrix block.
pub open spec fn dash_run() -> Seq<char> {
    seq!['-', '-', '-', '-', '-', '-', '-', '-']
}

pub fn dash_run_vec() -> (v: Vec<char>)
    ensures
        v@ == dash_run(),
{
    let v = vec!['-', '-', '-', '-', '-', '-', '-', '-'];
    proof {
        assert(v@ =~= dash_run());
    }
    v
}

/// `"LX MATRIX"`: the matrix that ends the normal-mode section.
pub open spec fn lx_marker() -> Seq<char> {
    seq!['L', 'X', ' ', 'M', 'A', 'T', 'R', 'I', 'X']
}

pub fn lx_marker_vec() -> (v: Vec<char>)
    ensures
        v@ == lx_marker(),
{
    let v = vec!['L', 'X', ' ', 'M', 'A', 'T', 'R', 'I', 'X'];
    proof {
        assert(v@ =~= lx_marker());
    }
    v
}

/// `"BAND CENTER ANALYSIS"`: the band-center table title.
pub open spec fn band_marker() -> Seq<char> {
    seq!['B', 'A', 'N', 'D', ' ', 'C', 'E', 'N', 'T', 'E', 'R', ' ', 'A', 'N', 'A', 'L', 'Y', 'S', 'I', 'S']
}

pub fn band_marker_vec() -> (v: Vec<char>)
    ensures
        v@ == band_marker(),
{
    let v = vec!['B', 'A', 'N', 'D', ' ', 'C', 'E', 'N', 'T', 'E', 'R', ' ', 'A', 'N', 'A', 'L', 'Y', 'S', 'I', 'S'];
    proof {
        assert(v@ =~= band_marker());
    }
    v
}

/// `"DUNHAM"`: a section that ends the band-center table.
pub open spec fn dunham_marker() -> Seq<char> {
    seq!['D', 'U', 'N', 'H', 'A', 'M']
}

pub fn dunham_marker_vec() -> (v: Vec<char>)
    ensures
        v@ == dunham_marker(),
{
    let v = vec!['D', 'U', 'N', 'H', 'A', 'M'];
    proof {
        assert(v@ =~= dunham_marker());
    }
    v
}

/// `"VIBRATIONAL ENERGY AND"`: a section that ends the band-center table.
pub open spec fn vib_energy_marker() -> Seq<char> {
    seq!['V', 'I', 'B', 'R', 'A', 'T', 'I', 'O', 'N', 'A', 'L', ' ', 'E', 'N', 'E', 'R', 'G', 'Y', ' ', 'A', 'N', 'D']
}

pub fn vib_energy_marker_vec() -> (v: Vec<char>)
    ensures
        v@ == vib_energy_marker(),
{
    let v = vec!['V', 'I', 'B', 'R', 'A', 'T', 'I', 'O', 'N', 'A', 'L', ' ', 'E', 'N', 'E', 'R', 'G', 'Y', ' ', 'A', 'N', 'D'];
    proof {
        assert(v@ =~= vib_energy_marker());
    }
    v
}

/// `"STATE NO."`: the corrected-state table title.
pub open spec fn state_no_marker() -> Seq<char> {
    seq!['S', 'T', 'A', 'T', 'E', ' ', 'N', 'O', '.']
}

pub fn state_no_marker_vec() -> (v: Vec<char>)
    ensures
        v@ == state_no_marker(),
{
    let v = vec!['S', 'T', 'A', 'T', 'E', ' ', 'N', 'O', '.'];
    proof {
        assert(v@ =~= state_no_marker());
    }
    v
}

/// `"SPECTRUM"`: the title variant that does not open the state table.
pub open spec fn spectrum_marker() -> Seq<char> {
    seq!['S', 'P', 'E', 'C', 'T', 'R', 'U', 'M']
}

pub fn spectrum_marker_vec() -> (v: Vec<char>)
    ensures
        v@ == spectrum_marker(),
{
    let v = vec!['S', 'P', 'E', 'C', 'T', 'R', 'U', 'M'];
    proof {
        assert(v@ =~= spectrum_marker());
    }
    v
}

/// `"*******************"`: the rule that ends the state table.
pub open spec fn star_run() -> Seq<char> {
    seq!['*', '*', '*', '*', '*', '*', '*', '*', '*', '*', '*', '*', '*', '*', '*', '*', '*', '*', '*']
}

pub fn star_run_vec() -> (v: Vec<char>)
    ensures
        v@ == star_run(),
{
    let v = vec!['*', '*', '*', '*', '*', '*', '*', '*', '*', '*', '*', '*', '*', '*', '*', '*', '*', '*', '*'];
    proof {
        assert(v@ =~= star_run());
    }
    v
}

/// `"NON-DEG (Vs)"`: the primary state line.
pub open spec fn nondeg_vs_marker() -> Seq<char> {
    seq!['N', 'O', 'N', '-', 'D', 'E', 'G', ' ', '(', 'V', 's', ')']
}

pub fn nondeg_vs_marker_vec() -> (v: Vec<char>)
    ensures
        v@ == nondeg_vs_marker(),
{
    let v = vec!['N', 'O', 'N', '-', 'D', 'E', 'G', ' ', '(', 'V', 's', ')'];
    proof {
        assert(v@ =~= nondeg_vs_marker());
    }
    v
}

/// `"DEGEN   (Vt)"`: a degenerate-count continuation line.
pub open spec fn degen_vt_marker() -> Seq<char> {
    seq!['D', 'E', 'G', 'E', 'N', ' ', ' ', ' ', '(', 'V', 't', ')']
}

pub fn degen_vt_marker_vec() -> (v: Vec<char>)
    ensures
        v@ == degen_vt_marker(),
{
    let v = vec!['D', 'E', 'G', 'E', 'N', ' ', ' ', ' ', '(', 'V', 't', ')'];
    proof {
        assert(v@ =~= degen_vt_marker());
    }
    v
}

/// `"DEGEN   (Vl)"`: a degenerate continuation line that carries nothing.
pub open spec fn degen_vl_marker() -> Seq<char> {
    seq!['D', 'E', 'G', 'E', 'N', ' ', ' ', ' ', '(', 'V', 'l', ')']
}

pub fn degen_vl_marker_vec() -> (v: Vec<char>)
    ensures
        v@ == degen_vl_marker(),
{
    let v = vec!['D', 'E', 'G', 'E', 'N', ' ', ' ', ' ', '(', 'V', 'l', ')'];
    proof {
        assert(v@ =~= degen_vl_marker());
    }
    v
}

/// `"<>"`: an expectation row that ends the state table.
pub open spec fn bracket_marker() -> Seq<char> {
    seq!['<', '>']
}

pub fn bracket_marker_vec() -> (v: Vec<char>)
    ensures
        v@ == bracket_marker(),
{
    let v = vec!['<', '>'];
    proof {
        assert(v@ =~= bracket_marker());
    }
    v
}

/// `"NON-DEG(Vt)"`: the state-descriptor header of the rotational table.
pub open spec fn rot_states_marker() -> Seq<char> {
    seq!['N', 'O', 'N', '-', 'D', 'E', 'G', '(', 'V', 't', ')']
}

pub fn rot_states_marker_vec() -> (v: Vec<char>)
    ensures
        v@ == rot_states_marker(),
{
    let v = vec!['N', 'O', 'N', '-', 'D', 'E', 'G', '(', 'V', 't', ')'];
    proof {
        assert(v@ =~= rot_states_marker());
    }
    v
}

/// `"ROTATIONAL ENERGY LEVEL ANALYSIS"`: the rotational-levels title.
pub open spec fn rot_analysis_marker() -> Seq<char> {
    seq!['R', 'O', 'T', 'A', 'T', 'I', 'O', 'N', 'A', 'L', ' ', 'E', 'N', 'E', 'R', 'G', 'Y', ' ', 'L', 'E', 'V', 'E', 'L', ' ', 'A', 'N', 'A', 'L', 'Y', 'S', 'I', 'S']
}

pub fn rot_analysis_marker_vec() -> (v: Vec<char>)
    ensures
        v@ == rot_analysis_marker(),
{
    let v = vec!['R', 'O', 'T', 'A', 'T', 'I', 'O', 'N', 'A', 'L', ' ', 'E', 'N', 'E', 'R', 'G', 'Y', ' ', 'L', 'E', 'V', 'E', 'L', ' ', 'A', 'N', 'A', 'L', 'Y', 'S', 'I', 'S'];
    proof {
        assert(v@ =~= rot_analysis_marker());
    }
    v
}

/// `"BZA"`: an asymmetric-top rotational row follows.
pub open spec fn bza_marker() -> Seq<char> {
    seq!['B', 'Z', 'A']
}

pub fn bza_marker_vec() -> (v: Vec<char>)
    ensures
        v@ == bza_marker(),
{
    let v = vec!['B', 'Z', 'A'];
    proof {
        assert(v@ =~= bza_marker());
    }
    v
}

/// `"BZS"`: a symmetric-top or linear rotational row follows.
pub open spec fn bzs_marker() -> Seq<char> {
    seq!['B', 'Z', 'S']
}

pub fn bzs_marker_vec() -> (v: Vec<char>)
    ensures
        v@ == bzs_marker(),
{
    let v = vec!['B', 'Z', 'S'];
    proof {
        assert(v@ =~= bzs_marker());
    }
    v
}

/// `"Be"`: an equilibrium rotational-constant line.
pub open spec fn be_marker() -> Seq<char> {
    seq!['B', 'e']
}

pub fn be_marker_vec() -> (v: Vec<char>)
    ensures
        v@ == be_marker(),
{
    let v = vec!['B', 'e'];
    proof {
        assert(v@ =~= be_marker());
    }
    v
}

/// `"VIBRATIONALLY AVERAGED COORDINATES"`: the averaged-coordinates title.
pub open spec fn coords_marker() -> Seq<char> {
    seq!['V', 'I', 'B', 'R', 'A', 'T', 'I', 'O', 'N', 'A', 'L', 'L', 'Y', ' ', 'A', 'V', 'E', 'R', 'A', 'G', 'E', 'D', ' ', 'C', 'O', 'O', 'R', 'D', 'I', 'N', 'A', 'T', 'E', 'S']
}

pub fn coords_marker_vec() -> (v: Vec<char>)
    ensures
        v@ == coords_marker(),
{
    let v = vec!['V', 'I', 'B', 'R', 'A', 'T', 'I', 'O', 'N', 'A', 'L', 'L', 'Y', ' ', 'A', 'V', 'E', 'R', 'A', 'G', 'E', 'D', ' ', 'C', 'O', 'O', 'R', 'D', 'I', 'N', 'A', 'T', 'E', 'S'];
    proof {
        assert(v@ =~= coords_marker());
    }
    v
}

/// `" CURVILINEAR INTERNAL COORDINATES"`: the internal-coordinates title.
pub open spec fn curvil_marker() -> Seq<char> {
    seq![' ', 'C', 'U', 'R', 'V', 'I', 'L', 'I', 'N', 'E', 'A', 'R', ' ', 'I', 'N', 'T', 'E', 'R', 'N', 'A', 'L', ' ', 'C', 'O', 'O', 'R', 'D', 'I', 'N', 'A', 'T', 'E', 'S']
}

pub fn curvil_marker_vec() -> (v: Vec<char>)
    ensures
        v@ == curvil_marker(),
{
    let v = vec![' ', 'C', 'U', 'R', 'V', 'I', 'L', 'I', 'N', 'E', 'A', 'R', ' ', 'I', 'N', 'T', 'E', 'R', 'N', 'A', 'L', ' ', 'C', 'O', 'O', 'R', 'D', 'I', 'N', 'A', 'T', 'E', 'S'];
    proof {
        assert(v@ =~= curvil_marker());
    }
    v
}

/// `" I OPTDL"`: the row that can end the internal-coordinates section.
pub open spec fn optdl_marker() -> Seq<char> {
    seq![' ', 'I', ' ', 'O', 'P', 'T', 'D', 'L']
}

pub fn optdl_marker_vec() -> (v: Vec<char>)
    ensures
        v@ == optdl_marker(),
{
    let v = vec![' ', 'I', ' ', 'O', 'P', 'T', 'D', 'L'];
    proof {
        assert(v@ =~= optdl_marker());
    }
    v
}

/// `" inputed fermi"`: the fermi-resonance title, lower-cased.
pub open spec fn fermi_marker_lc() -> Seq<char> {
    seq![' ', 'i', 'n', 'p', 'u', 't', 'e', 'd', ' ', 'f', 'e', 'r', 'm', 'i']
}

pub fn fermi_marker_lc_vec() -> (v: Vec<char>)
    ensures
        v@ == fermi_marker_lc(),
{
    let v = vec![' ', 'i', 'n', 'p', 'u', 't', 'e', 'd', ' ', 'f', 'e', 'r', 'm', 'i'];
    proof {
        assert(v@ =~= fermi_marker_lc());
    }
    v
}

/// `" inputed coriolis"`: the coriolis-resonance title, lower-cased.
pub open spec fn coriol_marker_lc() -> Seq<char> {
    seq![' ', 'i', 'n', 'p', 'u', 't', 'e', 'd', ' ', 'c', 'o', 'r', 'i', 'o', 'l', 'i', 's']
}

pub fn coriol_marker_lc_vec() -> (v: Vec<char>)
    ensures
        v@ == coriol_marker_lc(),
{
    let v = vec![' ', 'i', 'n', 'p', 'u', 't', 'e', 'd', ' ', 'c', 'o', 'r', 'i', 'o', 'l', 'i', 's'];
    proof {
        assert(v@ =~= coriol_marker_lc());
    }
    v
}

/// `"LINEAR"`: the linear-bend keyword.
pub open spec fn linear_tok() -> Seq<char> {
    seq!['L', 'I', 'N', 'E', 'A', 'R']
}

pub fn linear_tok_vec() -> (v: Vec<char>)
    ensures
        v@ == linear_tok(),
{
    let v = vec!['L', 'I', 'N', 'E', 'A', 'R'];
    proof {
        assert(v@ =~= linear_tok());
    }
    v
}

/// `"BOND"`: the bond keyword.
pub open spec fn bond_tok() -> Seq<char> {
    seq!['B', 'O', 'N', 'D']
}

pub fn bond_tok_vec() -> (v: Vec<char>)
    ensures
        v@ == bond_tok(),
{
    let v = vec!['B', 'O', 'N', 'D'];
    proof {
        assert(v@ =~= bond_tok());
    }
    v
}

/// `"ANGLE"`: the angle keyword.
pub open spec fn angle_tok() -> Seq<char> {
    seq!['A', 'N', 'G', 'L', 'E']
}

pub fn angle_tok_vec() -> (v: Vec<char>)
    ensures
        v@ == angle_tok(),
{
    let v = vec!['A', 'N', 'G', 'L', 'E'];
    proof {
        assert(v@ =~= angle_tok());
    }
    v
}

/// `"TORSION"`: the torsion keyword.
pub open spec fn torsion_tok() -> Seq<char> {
    seq!['T', 'O', 'R', 'S', 'I', 'O', 'N']
}

pub fn torsion_tok_vec() -> (v: Vec<char>)
    ensures
        v@ == torsion_tok(),
{
    let v = vec!['T', 'O', 'R', 'S', 'I', 'O', 'N'];
    proof {
        assert(v@ =~= torsion_tok());
    }
    v
}

/// `"1"`: a single-quantum state descriptor.
pub open spec fn one_tok() -> Seq<char> {
    seq!['1']
}

pub fn one_tok_vec() -> (v: Vec<char>)
    ensures
        v@ == one_tok(),
{
    let v = vec!['1'];
    proof {
        assert(v@ =~= one_tok());
    }
    v
}

/// `"2"`: a double-quantum state descriptor.
pub open spec fn two_tok() -> Seq<char> {
    seq!['2']
}

pub fn two_tok_vec() -> (v: Vec<char>)
    ensures
        v@ == two_tok(),
{
    let v = vec!['2'];
    proof {
        assert(v@ =~= two_tok());
    }
    v
}

/// `"DELTA"`: an A-reduction quartic constant.
pub open spec fn delta_uc_tok() -> Seq<char> {
    seq!['D', 'E', 'L', 'T', 'A']
}

pub fn delta_uc_tok_vec() -> (v: Vec<char>)
    ensures
        v@ == delta_uc_tok(),
{
    let v = vec!['D', 'E', 'L', 'T', 'A'];
    proof {
        assert(v@ =~= delta_uc_tok());
    }
    v
}

/// `"delta"`: an A-reduction quartic constant.
pub open spec fn delta_lc_tok() -> Seq<char> {
    seq!['d', 'e', 'l', 't', 'a']
}

pub fn delta_lc_tok_vec() -> (v: Vec<char>)
    ensures
        v@ == delta_lc_tok(),
{
    let v = vec!['d', 'e', 'l', 't', 'a'];
    proof {
        assert(v@ =~= delta_lc_tok());
    }
    v
}

/// `"D"`: an S-reduction quartic constant.
pub open spec fn d_uc_tok() -> Seq<char> {
    seq!['D']
}

pub fn d_uc_tok_vec() -> (v: Vec<char>)
    ensures
        v@ == d_uc_tok(),
{
    let v = vec!['D'];
    proof {
        assert(v@ =~= d_uc_tok());
    }
    v
}

/// `"d"`: an S-reduction quartic constant.
pub open spec fn d_lc_tok() -> Seq<char> {
    seq!['d']
}

pub fn d_lc_tok_vec() -> (v: Vec<char>)
    ensures
        v@ == d_lc_tok(),
{
    let v = vec!['d'];
    proof {
        assert(v@ =~= d_lc_tok());
    }
    v
}

/// `"J"`: a J subscript.
pub open spec fn j_uc_tok() -> Seq<char> {
    seq!['J']
}

pub fn j_uc_tok_vec() -> (v: Vec<char>)
    ensures
        v@ == j_uc_tok(),
{
    let v = vec!['J'];
    proof {
        assert(v@ =~= j_uc_tok());
    }
    v
}

/// `"K"`: a K subscript.
pub open spec fn k_uc_tok() -> Seq<char> {
    seq!['K']
}

pub fn k_uc_tok_vec() -> (v: Vec<char>)
    ensures
        v@ == k_uc_tok(),
{
    let v = vec!['K'];
    proof {
        assert(v@ =~= k_uc_tok());
    }
    v
}

/// `"JK"`: a JK subscript.
pub open spec fn jk_uc_tok() -> Seq<char> {
    seq!['J', 'K']
}

pub fn jk_uc_tok_vec() -> (v: Vec<char>)
    ensures
        v@ == jk_uc_tok(),
{
    let v = vec!['J', 'K'];
    proof {
        assert(v@ =~= jk_uc_tok());
    }
    v
}

/// `"KJ"`: a KJ subscript.
pub open spec fn kj_uc_tok() -> Seq<char> {
    seq!['K', 'J']
}

pub fn kj_uc_tok_vec() -> (v: Vec<char>)
    ensures
        v@ == kj_uc_tok(),
{
    let v = vec!['K', 'J'];
    proof {
        assert(v@ =~= kj_uc_tok());
    }
    v
}

/// `"PHI"`: an A-reduction sextic constant.
pub open spec fn phi_uc_tok() -> Seq<char> {
    seq!['P', 'H', 'I']
}

pub fn phi_uc_tok_vec() -> (v: Vec<char>)
    ensures
        v@ == phi_uc_tok(),
{
    let v = vec!['P', 'H', 'I'];
    proof {
        assert(v@ =~= phi_uc_tok());
    }
    v
}

/// `"phi"`: an A-reduction sextic constant.
pub open spec fn phi_lc_tok() -> Seq<char> {
    seq!['p', 'h', 'i']
}

pub fn phi_lc_tok_vec() -> (v: Vec<char>)
    ensures
        v@ == phi_lc_tok(),
{
    let v = vec!['p', 'h', 'i'];
    proof {
        assert(v@ =~= phi_lc_tok());
    }
    v
}

/// `"H"`: an S-reduction sextic constant.
pub open spec fn h_uc_tok() -> Seq<char> {
    seq!['H']
}

pub fn h_uc_tok_vec() -> (v: Vec<char>)
    ensures
        v@ == h_uc_tok(),
{
    let v = vec!['H'];
    proof {
        assert(v@ =~= h_uc_tok());
    }
    v
}

/// `"h"`: an S-reduction sextic constant.
pub open spec fn h_lc_tok() -> Seq<char> {
    seq!['h']
}

pub fn h_lc_tok_vec() -> (v: Vec<char>)
    ensures
        v@ == h_lc_tok(),
{
    let v = vec!['h'];
    proof {
        assert(v@ =~= h_lc_tok());
    }
    v
}

/// `"j"`: a j subscript.
pub open spec fn j_lc_tok() -> Seq<char> {
    seq!['j']
}

pub fn j_lc_tok_vec() -> (v: Vec<char>)
    ensures
        v@ == j_lc_tok(),
{
    let v = vec!['j'];
    proof {
        assert(v@ =~= j_lc_tok());
    }
    v
}

/// `"jk"`: a jk subscript.
pub open spec fn jk_lc_tok() -> Seq<char> {
    seq!['j', 'k']
}

pub fn jk_lc_tok_vec() -> (v: Vec<char>)
    ensures
        v@ == jk_lc_tok(),
{
    let v = vec!['j', 'k'];
    proof {
        assert(v@ =~= jk_lc_tok());
    }
    v
}

/// `"k"`: a k subscript.
pub open spec fn k_lc_tok() -> Seq<char> {
    seq!['k']
}

pub fn k_lc_tok_vec() -> (v: Vec<char>)
    ensures
        v@ == k_lc_tok(),
{
    let v = vec!['k'];
    proof {
        assert(v@ =~= k_lc_tok());
    }
    v
}

/// `"3"`: a 3 subscript.
pub open spec fn three_tok() -> Seq<char> {
    seq!['3']
}

pub fn three_tok_vec() -> (v: Vec<char>)
    ensures
        v@ == three_tok(),
{
    let v = vec!['3'];
    proof {
        assert(v@ =~= three_tok());
    }
    v
}

/// The fixed isotope-mass table: the atomic number that a mass token of
/// the geometry section stands for.
pub open spec fn spec_weight(t: Seq<char>) -> Option<usize> {

    if t == seq!['1', '.', '0', '0', '7', '8', '2', '5', '0'] {
        Some(1usize)
    } else if t == seq!['4', '.', '0', '0', '2', '6', '0', '3', '2'] {
        Some(2usize)
    } else if t == seq!['7', '.', '0', '1', '6', '0', '0', '3', '0'] {
        Some(3usize)
    } else if t == seq!['9', '.', '0', '1', '2', '1', '8', '2', '2'] {
        Some(4usize)
    } else if t == seq!['1', '1', '.', '0', '0', '9', '3', '0', '5', '4'] {
        Some(5usize)
    } else if t == seq!['1', '2', '.', '0', '0', '0', '0', '0', '0', '0'] {
        Some(6usize)
    } else if t == seq!['1', '4', '.', '0', '0', '3', '0', '7', '4', '0'] {
        Some(7usize)
    } else if t == seq!['1', '5', '.', '9', '9', '4', '9', '1', '4', '6'] {
        Some(8usize)
    } else if t == seq!['1', '8', '.', '9', '9', '8', '4', '0', '3', '2'] {
        Some(9usize)
    } else if t == seq!['1', '9', '.', '9', '9', '2', '4', '3', '5', '6'] {
        Some(10usize)
    } else if t == seq!['2', '2', '.', '9', '8', '9', '7', '6', '7', '7'] {
        Some(11usize)
    } else if t == seq!['2', '3', '.', '9', '8', '5', '0', '4', '2', '3'] {
        Some(12usize)
    } else if t == seq!['2', '6', '.', '9', '8', '1', '5', '3', '8', '6'] {
        Some(13usize)
    } else if t == seq!['2', '7', '.', '9', '7', '6', '9', '2', '7', '1'] {
        Some(14usize)
    } else if t == seq!['3', '0', '.', '9', '7', '3', '7', '6', '2', '0'] {
        Some(15usize)
    } else if t == seq!['3', '1', '.', '9', '7', '2', '0', '7', '0', '7'] {
        Some(16usize)
    } else if t == seq!['3', '4', '.', '9', '6', '8', '8', '5', '2', '7'] {
        Some(17usize)
    } else if t == seq!['3', '9', '.', '9', '6', '2', '3', '8', '3', '7'] {
        Some(18usize)
    } else {
        None
    }
}

/// Look a mass token up in the isotope table.
pub fn weight_of(t: &Vec<char>) -> (r: Option<usize>)
    ensures
        r == spec_weight(t@),
{

    if crate::text::chars_eq(t, &vec!['1', '.', '0', '0', '7', '8', '2', '5', '0']) {
        Some(1usize)
    } else if crate::text::chars_eq(t, &vec!['4', '.', '0', '0', '2', '6', '0', '3', '2']) {
        Some(2usize)
    } else if crate::text::chars_eq(t, &vec!['7', '.', '0', '1', '6', '0', '0', '3', '0']) {
        Some(3usize)
    } else if crate::text::chars_eq(t, &vec!['9', '.', '0', '1', '2', '1', '8', '2', '2']) {
        Some(4usize)
    } else if crate::text::chars_eq(t, &vec!['1', '1', '.', '0', '0', '9', '3', '0', '5', '4']) {
        Some(5usize)
    } else if crate::text::chars_eq(t, &vec!['1', '2', '.', '0', '0', '0', '0', '0', '0', '0']) {
        Some(6usize)
    } else if crate::text::chars_eq(t, &vec!['1', '4', '.', '0', '0', '3', '0', '7', '4', '0']) {
        Some(7usize)
    } else if crate::text::chars_eq(t, &vec!['1', '5', '.', '9', '9', '4', '9', '1', '4', '6']) {
        Some(8usize)
    } else if crate::text::chars_eq(t, &vec!['1', '8', '.', '9', '9', '8', '4', '0', '3', '2']) {
        Some(9usize)
    } else if crate::text::chars_eq(t, &vec!['1', '9', '.', '9', '9', '2', '4', '3', '5', '6']) {
        Some(10usize)
    } else if crate::text::chars_eq(t, &vec!['2', '2', '.', '9', '8', '9', '7', '6', '7', '7']) {
        Some(11usize)
    } else if crate::text::chars_eq(t, &vec!['2', '3', '.', '9', '8', '5', '0', '4', '2', '3']) {
        Some(12usize)
    } else if crate::text::chars_eq(t, &vec!['2', '6', '.', '9', '8', '1', '5', '3', '8', '6']) {
        Some(13usize)
    } else if crate::text::chars_eq(t, &vec!['2', '7', '.', '9', '7', '6', '9', '2', '7', '1']) {
        Some(14usize)
    } else if crate::text::chars_eq(t, &vec!['3', '0', '.', '9', '7', '3', '7', '6', '2', '0']) {
        Some(15usize)
    } else if crate::text::chars_eq(t, &vec!['3', '1', '.', '9', '7', '2', '0', '7', '0', '7']) {
        Some(16usize)
    } else if crate::text::chars_eq(t, &vec!['3', '4', '.', '9', '6', '8', '8', '5', '2', '7']) {
        Some(17usize)
    } else if crate::text::chars_eq(t, &vec!['3', '9', '.', '9', '6', '2', '3', '8', '3', '7']) {
        Some(18usize)
    } else {
        None
    }
}

/// A subscript character of a distortion-constant name: `j`, `k`, `1`,
/// `2`, and for the sextic constants also `3`, in either case.
pub open spec fn subscript_char(c: char, sextic: bool) -> bool {
    lower(c) == 'j' || lower(c) == 'k' || c == '1' || c == '2' || (sextic && c == '3')
}

fn subscript_char_exec(c: char, sextic: bool) -> (r: bool)
    ensures
        r == subscript_char(c, sextic),
{
    let l = lower_char(c);
    l == 'j' || l == 'k' || c == '1' || c == '2' || (sextic && c == '3')
}

/// First position at or after `from` that does not hold a subscript
/// character.
fn subscript_run_end(l: &Vec<char>, from: usize, sextic: bool) -> (r: usize)
    requires
        from <= l@.len(),
    ensures
        from <= r <= l@.len(),
        forall|k: int| from <= k < r ==> subscript_char(l@[k], sextic),
        r < l@.len() ==> !subscript_char(l@[r as int], sextic),
{
    let n = l.len();
    let mut m: usize = from;
    while m < n
        invariant
            from <= m <= n,
            n == l@.len(),
            forall|k: int| from <= k < m ==> subscript_char(l@[k], sextic),
        decreases n - m,
    {
        if !subscript_char_exec(l[m], sextic) {
            return m;
        }
        m += 1;
    }
    m
}

/// At position `i` stands a space, then one or more subscript characters,
/// then another space: the tail of a spelled-out constant name.
pub open spec fn subscript_tail(l: Seq<char>, i: int, sextic: bool) -> bool {
    &&& 0 <= i < l.len()
    &&& l[i] == ' '
    &&& exists|m: int|
        i + 1 < m < l.len() && l[m] == ' ' && (forall|k: int|
            i < k < m ==> subscript_char(l[k], sextic))
}

fn subscript_tail_exec(l: &Vec<char>, i: usize, sextic: bool) -> (r: bool)
    requires
        i < l@.len(),
    ensures
        r == subscript_tail(l@, i as int, sextic),
{
    if l[i] != ' ' {
        return false;
    }
    let n = l.len();
    let m = subscript_run_end(l, i + 1, sextic);
    // `m` is the first position after the run of subscript characters
    let hit = m > i + 1 && m < n && l[m] == ' ';
    proof {
        if hit {
            assert(subscript_tail(l@, i as int, sextic));
        } else {
            assert(!subscript_tail(l@, i as int, sextic)) by {
                if subscript_tail(l@, i as int, sextic) {
                    let mm = choose|mm: int|
                        i + 1 < mm < l@.len() && l@[mm] == ' ' && (forall|k: int|
                            i < k < mm ==> subscript_char(l@[k], sextic));
                    assert(!subscript_char(' ', sextic));
                    if mm < m {
                        assert(subscript_char(l@[mm], sextic));
                    }
                    if mm > m {
                        assert(subscript_char(l@[m as int], sextic));
                    }
                }
            }
        }
    }
    hit
}

/// A quartic-constant line: two spaces, `d` or `delta` in either case, a
/// spelled-out subscript, or the linear form `De` at a word boundary.
pub open spec fn spec_delta_marker(l: Seq<char>) -> bool {
    ||| (l.len() > 3 && l[0] == ' ' && l[1] == ' ' && lower(l[2]) == 'd' && (subscript_tail(
        l,
        3,
        false,
    ) || (l.len() > 7 && lower(l[3]) == 'e' && lower(l[4]) == 'l' && lower(l[5]) == 't' && lower(
        l[6],
    ) == 'a' && subscript_tail(l, 7, false))))
    ||| (l.len() >= 3 && l[0] == ' ' && lower(l[1]) == 'd' && lower(l[2]) == 'e' && (l.len() == 3
        || !is_word_char(l[3])))
}

/// A sextic-constant line: two spaces, `h`, `hi`, `ph` or `phi` in either
/// case, a spelled-out subscript, or the linear form `He` at a word
/// boundary.
pub open spec fn spec_phi_marker(l: Seq<char>) -> bool {
    ||| (l.len() > 3 && l[0] == ' ' && l[1] == ' ' && ({
        let j: int = if lower(l[2]) == 'p' {
            3
        } else {
            2
        };
        j < l.len() && lower(l[j]) == 'h' && (subscript_tail(l, j + 1, true) || (j + 1 < l.len()
            && lower(l[j + 1]) == 'i' && subscript_tail(l, j + 2, true)))
    }))
    ||| (l.len() >= 3 && l[0] == ' ' && lower(l[1]) == 'h' && lower(l[2]) == 'e' && (l.len() == 3
        || !is_word_char(l[3])))
}

pub fn delta_marker(l: &Vec<char>) -> (r: bool)
    ensures
        r == spec_delta_marker(l@),
{
    let n = l.len();
    let mut long_form = false;
    if n > 3 && l[0] == ' ' && l[1] == ' ' && lower_char(l[2]) == 'd' {
        if subscript_tail_exec(l, 3, false) {
            long_form = true;
        } else if n > 7 && lower_char(l[3]) == 'e' && lower_char(l[4]) == 'l' && lower_char(l[5])
            == 't' && lower_char(l[6]) == 'a' && subscript_tail_exec(l, 7, false) {
            long_form = true;
        }
    }
    if long_form {
        return true;
    }
    if n >= 3 && l[0] == ' ' && lower_char(l[1]) == 'd' && lower_char(l[2]) == 'e' {
        if n == 3 || !word_char(l[3]) {
            return true;
        }
    }
    false
}

pub fn phi_marker(l: &Vec<char>) -> (r: bool)
    ensures
        r == spec_phi_marker(l@),
{
    let n = l.len();
    let mut long_form = false;
    if n > 3 && l[0] == ' ' && l[1] == ' ' {
        let j: usize = if lower_char(l[2]) == 'p' {
            3
        } else {
            2
        };
        if j < n && lower_char(l[j]) == 'h' {
            if j + 1 < n && subscript_tail_exec(l, j + 1, true) {
                long_form = true;
            } else if j + 2 < n && lower_char(l[j + 1]) == 'i' && subscript_tail_exec(
                l,
                j + 2,
                true,
            ) {
                long_form = true;
            }
        }
    }
    if long_form {
        return true;
    }
    if n >= 3 && l[0] == ' ' && lower_char(l[1]) == 'h' && lower_char(l[2]) == 'e' {
        if n == 3 || !word_char(l[3]) {
            return true;
        }
    }
    false
}

/// A block-index header of the normal-mode matrix: nothing but digits and
/// whitespace, with at least one digit.
pub open spec fn spec_header_line(l: Seq<char>) -> bool {
    has_digit(l) && forall|i: int| 0 <= i < l.len() ==> is_digit_char(l[i]) || is_ws_char(l[i])
}

pub fn header_line(l: &Vec<char>) -> (r: bool)
    ensures
        r == spec_header_line(l@),
{
    let n = l.len();
    let mut saw_digit = false;
    let mut i: usize = 0;
    while i < n
        invariant
            0 <= i <= n,
            n == l@.len(),
            forall|j: int| 0 <= j < i ==> is_digit_char(l@[j]) || is_ws_char(l@[j]),
            saw_digit == exists|j: int| 0 <= j < i && is_digit_char(l@[j]),
        decreases n - i,
    {
        if digit_char(l[i]) {
            saw_digit = true;
        } else if !ws_char(l[i]) {
            return false;
        }
        i += 1;
    }
    saw_digit
}

} // verus!
