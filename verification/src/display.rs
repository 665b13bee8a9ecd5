//! Small display-side types: which table a formatter is about to print,
//! the unit a distortion constant is shown in, and the cycling selector of
//! the frequency viewer.

use vstd::prelude::*;

verus! {

/// The table a formatter is about to emit.
#[derive(Clone, Copy, Debug, PartialEq, Eq, Structural)]
pub enum TableType {
    Vib,
    Rot,
    DistA,
    DistS,
    Curvil,
    Fermi,
    Coriol,
}

/// The unit a distortion constant is displayed in.
#[derive(Clone, Copy, Debug, PartialEq, Eq, Structural)]
#[allow(non_camel_case_types)]
pub enum Unit {
    uHz,
    mHz,
    Hz,
    kHz,
    MHz,
    GHz,
    THz,
}

/// Which frequency column the viewer is showing.
#[derive(Clone, Copy, Debug, PartialEq, Eq, Structural)]
pub enum State {
    Harm,
    Fund,
    Corr,
}

impl State {
    /// The next column in the cycle harmonic, fundamental, corrected.
    pub fn next(&self) -> (r: State)
        ensures
            r == match *self {
                State::Harm => State::Fund,
                State::Fund => State::Corr,
                State::Corr => State::Harm,
            },
    {
        match self {
            State::Harm => State::Fund,
            State::Fund => State::Corr,
            State::Corr => State::Harm,
        }
    }

    /// The previous column in the cycle.
    pub fn prev(&self) -> (r: State)
        ensures
            r == match *self {
                State::Harm => State::Corr,
                State::Fund => State::Harm,
                State::Corr => State::Fund,
            },
    {
        match self {
            State::Harm => State::Corr,
            State::Fund => State::Harm,
            State::Corr => State::Fund,
        }
    }

    /// The heading shown over the column.
    pub fn title(&self) -> (r: &'static str)
        ensures
            *self == State::Harm ==> r@ == "Harmonic Frequencies"@,
            *self == State::Fund ==> r@ == "Fundamental Frequencies"@,
            *self == State::Corr ==> r@ == "Corrected Frequencies"@,
    {
        match self {
            State::Harm => "Harmonic Frequencies",
            State::Fund => "Fundamental Frequencies",
            State::Corr => "Corrected Frequencies",
        }
    }
}

} // verus!
