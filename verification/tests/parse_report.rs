use summarize::curvil::Curvil;
use summarize::dec::Dec;
use summarize::ParseError;
use summarize::Summary;

fn lines_of(s: &str) -> Vec<Vec<char>> {
    s.lines().map(|l| l.chars().collect()).collect()
}

fn dec(mant: i128, scale: u32) -> Dec {
    Dec { mant, scale }
}

const MHZ: i128 = 299792458;

/// A full synthetic report for a four-atom molecule with five vibrational
/// modes; the frequency and zero-point values follow a known fixture.
const REPORT: &str = "~
 MOLECULAR PRINCIPAL GEOMETRY (A)
 ~
 ~
    1    0.0000000    0.0000000    1.6353253    1.0078250
    2    0.0000000    0.0000000    0.6014244   12.0000000
    3    0.0000000    0.0000000   -0.6014244   12.0000000
    4    0.0000000    0.0000000   -1.6353253    1.0078250

 LXM MATRIX
 ~
     1         2         3         4         5         6
  2929.500  2834.256  2236.673   939.167   791.065    12.500
     1   0.10   0.20   0.30   0.40   0.50   0.60
     2   0.11   0.21   0.31   0.41   0.51   0.61
 LX MATRIX FOLLOWS
 BAND CENTER ANALYSIS
 ~
 ~
 ~
    1   2929.500   2886.379
    2   2834.256   2799.917
    3   2236.673   2221.068
    4    939.167    936.105
    5    791.065    797.174
 DUNHAM COEFFICIENTS
 STATE NO. AND ENERGY
 ~
 ~
   1    5707.3228     0.0000   NON-DEG (Vs) :   0   0   0   0   0

   2    8593.8793  2886.3792   NON-DEG (Vs) :   1   0   0   0   0

   3    6643.4277   936.1049   NON-DEG (Vs) :   0   0   0   1   0

   4    8507.2400  2799.9172   NON-DEG (Vs) :   0   1   0   0   0

   5    7928.3911  2221.0683   NON-DEG (Vs) :   0   0   1   0   0

   6    6504.4971   797.1743   NON-DEG (Vs) :   0   0   0
        DEGEN   (Vt) :   0   1

   7    9000.0000  4442.1366   NON-DEG (Vs) :   2   0   0   0   0

   8    9999.0000  5555.5000   NON-DEG (Vs) :   1   1   0   0   0

 *******************
 ROTATIONAL ENERGY LEVEL ANALYSIS FOR THE GROUND STATE
   1.0699983   0.5558117   1.1639391
 NON-DEG(Vt) :   1   0   0   0   0
 BZA AXES
   1.0655950   0.5541780   1.1620074
 NON-DEG(Vt) :   0   1   0   0   0
 BZA AXES
   1.0   2.0   3.0   4.0
 (Be =    1.0699983 IN CM-1)
 (Be =    0.5558117 IN CM-1)
 (Be =    1.1639391 IN CM-1)
  DELTA J             :      0.1000       234.5
  delta K             :      0.2000       111.25
  D JK                :      0.1000         7.5
  d 1                 :      0.2000        -3.25
  PHI JK              :      0.3000       0.5000D+07
  phi j               :      0.1000   2000000.0
  H K                 :      0.0000       1.5D+06
  h 2                 :      0.0000      -4.0D+06
 INPUTED FERMI 1 RESONANCE
 ~
 ~
 3 1
 4 2

 INPUTED FERMI 2 RESONANCE
 ~
 ~
 ~
 2 + 3 1

 INPUTED CORIOLIS RESONANCE
 ~
 ~
 4 5 1
 4 5 2
 1 2 3

VIBRATIONALLY AVERAGED COORDINATES
 ~
 ~
 ~
 ~
 ~
 ~
 ~
 ~
 ~
 ~
 ~
 ~
    1   BOND          1.32539   ANGSTROM    1.32994
    2   LINEAR ANGLE  179.99    DEGREE      179.50

 CURVILINEAR INTERNAL COORDINATES
 ~
 ~
 ~
 ~
( 1)        BOND               1.32539       2(C )     3(C )
( 2)        ANGLE              104.12        1(H )     2(C )     3(C )
( 3)        TORSION            180.00        1(H )     2(C )     3(C )     4(H )
( 4)        LINEAR ANGLE       179.99        1(H )     2(C )     3(C )
 I OPTDL ROW
 NON-DEG(Vt) :   2   0
 BZA AXES
   9.0   9.1   9.2
";

#[test]
fn degmode() {
    let got = Summary::new(&lines_of(REPORT)).unwrap();
    assert_eq!(
        got.harm,
        vec![
            dec(2929500, 3),
            dec(2834256, 3),
            dec(2236673, 3),
            dec(939167, 3),
            dec(791065, 3),
        ]
    );
    assert_eq!(
        got.fund,
        vec![
            dec(2886379, 3),
            dec(2799917, 3),
            dec(2221068, 3),
            dec(936105, 3),
            dec(797174, 3),
        ]
    );
    assert_eq!(
        got.corr,
        vec![
            dec(28863792, 4),
            dec(27999172, 4),
            dec(22210683, 4),
            dec(9361049, 4),
            dec(7971743, 4),
        ]
    );
    assert_eq!(got.zpt, dec(57073228, 4));
}

#[test]
fn geometry_atoms() {
    let got = Summary::new(&lines_of(REPORT)).unwrap();
    assert_eq!(got.geom.len(), 4);
    assert_eq!(got.geom[0].num, 1);
    assert_eq!(got.geom[1].num, 6);
    assert_eq!(got.geom[2].num, 6);
    assert_eq!(got.geom[3].num, 1);
    assert_eq!(got.geom[0].z, dec(16353253, 7));
    assert_eq!(got.geom[2].z, dec(-6014244, 7));
    assert_eq!(got.geom[0].x, dec(0, 0));
}

#[test]
fn index_alignment() {
    // corrected entries were written out of report order, yet each slot
    // holds the frequency of its own mode
    let got = Summary::new(&lines_of(REPORT)).unwrap();
    assert_eq!(got.harm.len(), got.corr.len());
    assert_eq!(got.corr[3], dec(9361049, 4));
    assert_eq!(got.corr[0], dec(28863792, 4));
}

#[test]
fn quantum_number_filter() {
    // the report holds an overtone (a 2) and a combination state (two 1s):
    // neither may reach the corrected table
    let got = Summary::new(&lines_of(REPORT)).unwrap();
    assert_eq!(got.corr.len(), 5);
    for c in &got.corr {
        assert_ne!(*c, dec(44421366, 4));
        assert_ne!(*c, dec(55555000, 4));
    }
}

#[test]
fn zero_point_capture() {
    // only the all-zero state writes the zero-point energy; the later
    // state lines leave it alone
    let got = Summary::new(&lines_of(REPORT)).unwrap();
    assert_eq!(got.zpt, dec(57073228, 4));
}

#[test]
fn normal_mode_vectors() {
    // six matrix columns, five frequencies above the threshold: the paired
    // five survive
    let got = Summary::new(&lines_of(REPORT)).unwrap();
    assert_eq!(got.lxm.len(), 5);
    assert_eq!(got.lxm[0], vec![dec(10, 2), dec(11, 2)]);
    assert_eq!(got.lxm[4], vec![dec(50, 2), dec(51, 2)]);
}

#[test]
fn degenerate_dedup() {
    let report = "~
 LXM MATRIX
 ~
 ~
  100.5   100.50   200.0    12.0
    1   0.1   0.2   0.3   0.4
    2   0.5   0.6   0.7   0.8
 LX MATRIX FOLLOWS
";
    let got = Summary::new(&lines_of(report)).unwrap();
    // three frequencies survive the threshold, two are value-equal:
    // two unique frequencies, two vectors
    assert_eq!(got.lxm.len(), 2);
    assert_eq!(got.lxm[0], vec![dec(1, 1), dec(5, 1)]);
    assert_eq!(got.lxm[1], vec![dec(3, 1), dec(7, 1)]);
}

#[test]
fn rotational_rows() {
    let got = Summary::new(&lines_of(REPORT)).unwrap();
    // two accepted rows: the four-field row is discarded, the
    // doubly-excited descriptor row is skipped
    assert_eq!(got.rots.len(), 2);
    // each accepted row is sorted descending and converted to MHz
    assert_eq!(
        got.rots[0],
        vec![
            dec(11639391 * MHZ, 11),
            dec(10699983 * MHZ, 11),
            dec(5558117 * MHZ, 11),
        ]
    );
    assert_eq!(
        got.rots[1],
        vec![
            dec(11620074 * MHZ, 11),
            dec(10655950 * MHZ, 11),
            dec(5541780 * MHZ, 11),
        ]
    );
}

#[test]
fn equilibrium_constants() {
    let got = Summary::new(&lines_of(REPORT)).unwrap();
    assert_eq!(
        got.rot_equil,
        vec![
            dec(10699983 * MHZ, 11),
            dec(5558117 * MHZ, 11),
            dec(11639391 * MHZ, 11),
        ]
    );
}

#[test]
fn distortion_constants() {
    let got = Summary::new(&lines_of(REPORT)).unwrap();
    assert_eq!(got.deltas.big_delta_j, Some(dec(2345, 1)));
    assert_eq!(got.deltas.delta_k, Some(dec(11125, 2)));
    assert_eq!(got.deltas.d_jk, Some(dec(75, 1)));
    assert_eq!(got.deltas.d1, Some(dec(-325, 2)));
    assert_eq!(got.deltas.de, None);
    assert_eq!(got.deltas.big_delta_k, None);
    // sextic constants are printed in Hz and held in MHz
    assert_eq!(got.phis.big_phi_jk, Some(dec(5000000, 6)));
    assert_eq!(got.phis.phi_j, Some(dec(20000000, 7)));
    assert_eq!(got.phis.h_k, Some(dec(1500000, 6)));
    assert_eq!(got.phis.h2, Some(dec(-4000000, 6)));
    assert_eq!(got.phis.he, None);
}

#[test]
fn fermi_resonances() {
    let got = Summary::new(&lines_of(REPORT)).unwrap();
    assert_eq!(got.fermi.len(), 2);
    assert_eq!(got.fermi[0].0, 1);
    assert_eq!(got.fermi[0].1, vec![(3, 3), (2, 3)]);
    assert_eq!(got.fermi[1].0, 2);
    assert_eq!(got.fermi[1].1, vec![(4, 4)]);
}

#[test]
fn coriolis_resonances() {
    let got = Summary::new(&lines_of(REPORT)).unwrap();
    assert_eq!(got.coriolis.data.len(), 2);
    assert_eq!(got.coriolis.data[0].0, (4, 5));
    assert_eq!(got.coriolis.data[0].1, vec![1, 2]);
    assert_eq!(got.coriolis.data[1].0, (1, 2));
    assert_eq!(got.coriolis.data[1].1, vec![3]);
}

#[test]
fn averaged_coordinates() {
    let got = Summary::new(&lines_of(REPORT)).unwrap();
    assert_eq!(got.requil, vec![dec(132539, 5), dec(17999, 2)]);
    assert_eq!(got.ralpha, vec![dec(132994, 5), dec(17950, 2)]);
}

#[test]
fn curvilinear_coordinates() {
    let got = Summary::new(&lines_of(REPORT)).unwrap();
    assert_eq!(
        got.curvils,
        vec![
            Curvil::Bond(2, 3),
            Curvil::Angle(1, 2, 3),
            Curvil::Torsion(1, 2, 3, 4),
            Curvil::Linear(1, 2, 3),
        ]
    );
}

#[test]
fn idempotence() {
    let a = Summary::new(&lines_of(REPORT)).unwrap();
    let b = Summary::new(&lines_of(REPORT)).unwrap();
    assert_eq!(a, b);
}

#[test]
fn linear_molecule() {
    let report = "~
 De = 0.1234D+04
 He = 0.5D+07
 (Be =    1.64769 IN CM-1)
 ROTATIONAL ENERGY LEVEL ANALYSIS
 BZS AXES
   -0.0001000   0.0001000   0.0000000
VIBRATIONALLY AVERAGED COORDINATES
 ~
 ~
 ~
 ~
 ~
 ~
 ~
 ~
 ~
 ~
 ~
 ~
 ~
    1   BOND          1.20000   ANGSTROM    1.20500
";
    let got = Summary::new(&lines_of(report)).unwrap();
    assert_eq!(got.deltas.de, Some(dec(1234, 0)));
    assert_eq!(got.phis.he, Some(dec(5000000, 6)));
    assert_eq!(got.rot_equil, vec![dec(164769 * MHZ, 9)]);
    // the symmetric/linear row keeps one value: largest magnitude first,
    // reported as the difference from equilibrium, so added back
    assert_eq!(got.rots.len(), 1);
    assert_eq!(got.rots[0], vec![dec(16475900 * MHZ, 11)]);
    // one equilibrium constant found: the coordinate table sits one line
    // lower, and is still read
    assert_eq!(got.requil, vec![dec(120000, 5)]);
    assert_eq!(got.ralpha, vec![dec(120500, 5)]);
}

#[test]
fn empty_input() {
    let got = Summary::new(&Vec::new()).unwrap();
    assert_eq!(got.harm.len(), 0);
    assert_eq!(got.corr.len(), 0);
    assert_eq!(got.lxm.len(), 0);
    assert_eq!(got.zpt, dec(0, 0));
    assert_eq!(got.irreps.len(), 0);
}

#[test]
fn unreadable_number_is_sentinel() {
    let report = "~
 BAND CENTER ANALYSIS
 ~
 ~
 ~
    1   ********   2886.379
";
    let got = Summary::new(&lines_of(report)).unwrap();
    assert_eq!(got.harm, vec![dec(9999999999, 1)]);
    assert_eq!(got.fund, vec![dec(2886379, 3)]);
}

#[test]
fn unknown_isotope_aborts() {
    let report = "~
 MOLECULAR PRINCIPAL GEOMETRY (A)
 ~
 ~
    1    0.0000000    0.0000000    1.6353253    5.5555555
";
    assert_eq!(
        Summary::new(&lines_of(report)),
        Err(ParseError::UnknownIsotope)
    );
}

#[test]
fn unknown_curvil_type_aborts() {
    let report = "~
 CURVILINEAR INTERNAL COORDINATES
 ~
 ~
 ~
 ~
( 1)        BENT               1.32539       2(C )     3(C )
";
    assert_eq!(
        Summary::new(&lines_of(report)),
        Err(ParseError::UnknownCurvilType)
    );
}

#[test]
fn unknown_distortion_constant_aborts() {
    let report = "  DELTA JJ            :      0.1000       234.5\n";
    assert_eq!(
        Summary::new(&lines_of(report)),
        Err(ParseError::UnknownDistortionConstant)
    );
}

#[test]
fn short_band_line_aborts() {
    let report = "~
 BAND CENTER ANALYSIS
 ~
 ~
 ~
    2929.500
";
    assert_eq!(
        Summary::new(&lines_of(report)),
        Err(ParseError::MalformedLine)
    );
}

#[test]
fn short_state_line_aborts() {
    let report = "~
 STATE NO. AND ENERGY
 ~
 ~
   1   2.0   NON-DEG (Vs)
";
    assert_eq!(
        Summary::new(&lines_of(report)),
        Err(ParseError::MalformedLine)
    );
}

#[test]
fn spectrum_variant_does_not_open_state_table() {
    // the "SPECTRUM" variant of the title must not enter the state table,
    // so its rows are not parsed and nothing is recorded
    let report = "~
 STATE NO. AND SPECTRUM
 ~
 ~
   1    5707.3228     0.0000   NON-DEG (Vs) :   0   0   0
";
    let got = Summary::new(&lines_of(report)).unwrap();
    assert_eq!(got.zpt, dec(0, 0));
}

#[test]
fn second_matrix_block() {
    // the matrix is printed ten columns per block; a later block's rows
    // land at the offset its index header announces
    let report = "~
 LXM MATRIX
 ~
 ~
  101.0  102.0  103.0  104.0  105.0  106.0  107.0  108.0  109.0  110.0
    1   0.01   0.02   0.03   0.04   0.05   0.06   0.07   0.08   0.09   0.10
   11     12
  111.0  112.0
    1   0.91   0.92
 LX MATRIX FOLLOWS
";
    let got = Summary::new(&lines_of(report)).unwrap();
    assert_eq!(got.lxm.len(), 12);
    assert_eq!(got.lxm[0], vec![dec(1, 2)]);
    assert_eq!(got.lxm[9], vec![dec(10, 2)]);
    assert_eq!(got.lxm[10], vec![dec(91, 2)]);
    assert_eq!(got.lxm[11], vec![dec(92, 2)]);
}

#[test]
fn short_resonance_lines_abort() {
    let fermi = "~
 INPUTED FERMI 1 RESONANCE
 ~
 ~
 3
";
    assert_eq!(
        Summary::new(&lines_of(fermi)),
        Err(ParseError::MalformedLine)
    );
    let coriol = "~
 INPUTED CORIOLIS RESONANCE
 ~
 ~
 4 5
";
    assert_eq!(
        Summary::new(&lines_of(coriol)),
        Err(ParseError::MalformedLine)
    );
}

#[test]
fn degenerate_label_line_carries_nothing() {
    // the second continuation label of a degenerate state is recognized
    // and eaten without touching the gathered quantum numbers
    let report = "~
 STATE NO. AND ENERGY
 ~
 ~
   1    5707.3228     0.0000   NON-DEG (Vs) :   0   0
        DEGEN   (Vt) :   0
        DEGEN   (Vl) :   9

 *******************
";
    let got = Summary::new(&lines_of(report)).unwrap();
    // the (Vl) row's 9 was not appended: the state stayed all zero
    assert_eq!(got.zpt, dec(57073228, 4));
}
