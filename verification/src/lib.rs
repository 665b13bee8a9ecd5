//! Extraction of structured vibrational-analysis results from the free-form
//! printed report of an external normal-mode program.
//!
//! The report is scanned line by line by a section state machine
//! ([`machine`]); section handlers accumulate into a single [`Summary`]
//! record.  Numeric fields are kept as exact decimal values ([`dec::Dec`]):
//! an integer mantissa over a power-of-ten denominator, so every contract
//! can speak of the parsed values exactly.

pub mod coriolis;
pub mod curvil;
pub mod dec;
pub mod delta;
pub mod display;
pub mod laws;
pub mod machine;
pub mod patterns;
pub mod phi;
pub mod scan;
pub mod summary;
pub mod symmetry;
pub mod text;

pub use summary::ParseError;
pub use summary::Summary;
