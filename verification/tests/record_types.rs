use summarize::coriolis::Coriol;
use summarize::dec::Dec;
use summarize::delta::Delta;
use summarize::display;
use summarize::display::TableType;
use summarize::display::Unit;
use summarize::machine::State;
use summarize::phi::Phi;
use summarize::summary::rot_const_for_axis;
use summarize::symmetry::resolve_irrep;
use summarize::symmetry::tolerance_exponents;
use summarize::symmetry::Irrep;
use summarize::Summary;

fn d(mant: i128, scale: u32) -> Dec {
    Dec { mant, scale }
}

fn report_lines(s: &str) -> Vec<Vec<char>> {
    s.lines().map(|l| l.chars().collect()).collect()
}

#[test]
fn rot_axis_linear() {
    // a linear row carries only B; A and C are absent, never zero
    let rot = vec![d(164769, 5)];
    assert_eq!(rot_const_for_axis(&rot, 0), None);
    assert_eq!(rot_const_for_axis(&rot, 1), Some(d(164769, 5)));
    assert_eq!(rot_const_for_axis(&rot, 2), None);
}

#[test]
fn rot_axis_symmetric_top() {
    // a symmetric-top row carries A and C; B is absent, never zero
    let rot = vec![d(10, 1), d(5, 1)];
    assert_eq!(rot_const_for_axis(&rot, 0), Some(d(10, 1)));
    assert_eq!(rot_const_for_axis(&rot, 1), None);
    assert_eq!(rot_const_for_axis(&rot, 2), Some(d(5, 1)));
}

#[test]
fn rot_axis_asymmetric() {
    let rot = vec![d(10, 1), d(7, 1), d(5, 1)];
    assert_eq!(rot_const_for_axis(&rot, 0), Some(d(10, 1)));
    assert_eq!(rot_const_for_axis(&rot, 1), Some(d(7, 1)));
    assert_eq!(rot_const_for_axis(&rot, 2), Some(d(5, 1)));
}

#[test]
fn resolve_first_success() {
    let attempts = vec![None, Some(Irrep::B2), Some(Irrep::A1)];
    assert_eq!(resolve_irrep(&attempts), Irrep::B2);
}

#[test]
fn resolve_fallback() {
    let attempts: Vec<Option<Irrep>> = vec![None, None, None, None];
    assert_eq!(resolve_irrep(&attempts), Irrep::A);
    let empty: Vec<Option<Irrep>> = Vec::new();
    assert_eq!(resolve_irrep(&empty), Irrep::A);
}

#[test]
fn symmetry_fallback() {
    // force every classification attempt to fail: the label table is
    // still full length, every entry the default species
    let report = "~
 LXM MATRIX
 ~
 ~
  100.5   200.5   300.5
    1   0.1   0.2   0.3
 LX MATRIX FOLLOWS
";
    let mut got = Summary::new(&report_lines(report)).unwrap();
    assert_eq!(got.lxm.len(), 3);
    assert_eq!(got.irreps.len(), 0);
    let ladder = tolerance_exponents();
    assert_eq!(ladder, vec![4, 3, 2, 1]);
    let attempts: Vec<Vec<Option<Irrep>>> = (0..got.lxm.len())
        .map(|_| ladder.iter().map(|_| None).collect())
        .collect();
    got.compute_irreps(&attempts);
    assert_eq!(got.irreps, vec![Irrep::A, Irrep::A, Irrep::A]);
}

#[test]
fn symmetry_mixed_outcomes() {
    let report = "~
 LXM MATRIX
 ~
 ~
  100.5   200.5
    1   0.1   0.2
 LX MATRIX FOLLOWS
";
    let mut got = Summary::new(&report_lines(report)).unwrap();
    let attempts = vec![
        vec![None, Some(Irrep::B3g), None, Some(Irrep::Ag)],
        vec![Some(Irrep::B1u), None, None, None],
    ];
    got.compute_irreps(&attempts);
    assert_eq!(got.irreps, vec![Irrep::B3g, Irrep::B1u]);
}

#[test]
fn delta_to_vec_zero_fill() {
    let mut dl = Delta::empty();
    dl.big_delta_j = Some(d(2345, 1));
    dl.de = Some(d(1234, 0));
    let v = dl.to_vec();
    assert_eq!(v.len(), 11);
    assert_eq!(v[0], d(2345, 1));
    assert_eq!(v[1], d(0, 0));
    assert_eq!(v[10], d(1234, 0));
}

#[test]
fn phi_to_vec_zero_fill() {
    let mut ph = Phi::empty();
    ph.big_phi_jk = Some(d(5000000, 6));
    ph.he = Some(d(5000000, 6));
    let v = ph.to_vec();
    assert_eq!(v.len(), 15);
    assert_eq!(v[2], d(5000000, 6));
    assert_eq!(v[14], d(5000000, 6));
    assert_eq!(v[0], d(0, 0));
}

#[test]
fn coriol_insert_groups_by_pair() {
    let mut c = Coriol::empty();
    c.insert((4, 5), 1);
    c.insert((1, 2), 3);
    c.insert((4, 5), 2);
    assert_eq!(c.data.len(), 2);
    assert_eq!(c.data[0].0, (4, 5));
    assert_eq!(c.data[0].1, vec![1, 2]);
    assert_eq!(c.data[1].0, (1, 2));
    assert_eq!(c.data[1].1, vec![3]);
}

#[test]
fn scan_state_queries() {
    assert!(State::Fermi1.is_fermi());
    assert!(State::Fermi2.is_fermi());
    assert!(!State::Idle.is_fermi());
    assert!(State::Coords.is_coords());
    assert!(!State::Curvil.is_coords());
    assert!(State::Curvil.is_curvil());
    assert!(!State::Fermi1.is_curvil());
}

#[test]
fn viewer_state_cycles() {
    assert_eq!(display::State::Harm.next(), display::State::Fund);
    assert_eq!(display::State::Fund.next(), display::State::Corr);
    assert_eq!(display::State::Corr.next(), display::State::Harm);
    assert_eq!(display::State::Harm.prev(), display::State::Corr);
    assert_eq!(display::State::Fund.prev(), display::State::Harm);
    assert_eq!(display::State::Corr.prev(), display::State::Fund);
    // a full cycle comes back around
    let s = display::State::Harm;
    assert_eq!(s.next().next().next(), s);
    assert_eq!(s.next().prev(), s);
}

#[test]
fn viewer_state_titles() {
    assert_eq!(display::State::Harm.title(), "Harmonic Frequencies");
    assert_eq!(display::State::Fund.title(), "Fundamental Frequencies");
    assert_eq!(display::State::Corr.title(), "Corrected Frequencies");
}

#[test]
fn display_enums_carry_their_cases() {
    let tables = [
        TableType::Vib,
        TableType::Rot,
        TableType::DistA,
        TableType::DistS,
        TableType::Curvil,
        TableType::Fermi,
        TableType::Coriol,
    ];
    assert_eq!(tables.len(), 7);
    let units = [
        Unit::uHz,
        Unit::mHz,
        Unit::Hz,
        Unit::kHz,
        Unit::MHz,
        Unit::GHz,
        Unit::THz,
    ];
    assert_eq!(units.len(), 7);
    assert_ne!(Unit::MHz, Unit::GHz);
    assert_ne!(TableType::Vib, TableType::Rot);
}

#[test]
fn dec_equality_is_structural() {
    // one value, two representations: the record keeps the exact form the
    // report used
    assert_ne!(d(1005, 1), d(10050, 2));
    assert_eq!(d(1005, 1), d(1005, 1));
}

#[test]
fn numeric_token_grammar() {
    let tok = |s: &str| -> Vec<char> { s.chars().collect() };
    let bad = d(9999999999, 1);
    assert_eq!(summarize::dec::parse_dec(&tok("3.5")), d(35, 1));
    assert_eq!(summarize::dec::parse_dec(&tok("-.5")), d(-5, 1));
    assert_eq!(summarize::dec::parse_dec(&tok("+12.")), d(12, 0));
    assert_eq!(summarize::dec::parse_dec(&tok("1D+3")), d(1000, 0));
    assert_eq!(summarize::dec::parse_dec(&tok("2.5e-2")), d(25, 3));
    assert_eq!(summarize::dec::parse_dec(&tok("0.000E+00")), d(0, 0));
    // not numbers, or beyond the twelve-digit bounds: the sentinel
    assert_eq!(summarize::dec::parse_dec(&tok("********")), bad);
    assert_eq!(summarize::dec::parse_dec(&tok("")), bad);
    assert_eq!(summarize::dec::parse_dec(&tok("1.2.3")), bad);
    assert_eq!(summarize::dec::parse_dec(&tok("999999999999999")), bad);
    assert_eq!(summarize::dec::parse_dec(&tok("1e99")), bad);
    assert_eq!(summarize::dec::parse_usize_tok(&tok("+42")), Some(42));
    assert_eq!(summarize::dec::parse_usize_tok(&tok("7")), Some(7));
    assert_eq!(summarize::dec::parse_usize_tok(&tok("x")), None);
    assert_eq!(summarize::dec::parse_usize_tok(&tok("1.0")), None);
}

#[test]
fn marker_interrupts_section() {
    // a new section header takes priority over the active handler, so an
    // unterminated section is abandoned cleanly
    let report = "~
 STATE NO. AND ENERGY
 ~
 ~
 MOLECULAR PRINCIPAL GEOMETRY (A)
 ~
 ~
    1    0.1000000    0.2000000    0.3000000    1.0078250
";
    let got = Summary::new(&report_lines(report)).unwrap();
    assert_eq!(got.geom.len(), 1);
    assert_eq!(got.geom[0].x, d(1000000, 7));
    assert_eq!(got.zpt, d(0, 0));
}

#[test]
fn unknown_resonance_order_is_ignored() {
    // a fermi title whose order token is neither 1 nor 2 opens nothing
    let report = "~
 INPUTED FERMI X RESONANCE
 3 1
";
    let got = Summary::new(&report_lines(report)).unwrap();
    assert_eq!(got.fermi.len(), 0);
}
