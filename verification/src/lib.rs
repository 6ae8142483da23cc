pub mod logline;
pub mod pipeline;
pub mod render;
pub mod text;
pub mod vlist;

use vstd::prelude::*;

verus! {

/// Reserved control character that separates the fields of a structured
/// record.  It lies outside the printable ASCII range, so ordinary text
/// never contains it.
pub const DELIM: char = '\u{2}';

/// The unrecoverable defects the pipeline can meet.  Each one means the
/// producer or the trusted data broke its contract; the run must stop with
/// a diagnostic rather than misrender.
#[derive(Clone, Copy, Debug, PartialEq, Eq, Structural)]
pub enum PipeError {
    /// A line held the record separator but not exactly four fields after
    /// the graph prefix.
    MalformedRecord,
    /// An age field held no magnitude/unit split or an empty unit word.
    MalformedAge,
    /// A membership query used an identifier longer than the trusted
    /// members: the display and the trusted data disagree about which side
    /// is abbreviated.
    TrustedLengthViolation,
}

impl PipeError {
    /// A fixed diagnostic for each defect.
    pub fn message(&self) -> (r: &'static str)
        ensures
            *self == PipeError::MalformedRecord ==> r@
                == "record line does not hold exactly four fields"@,
            *self == PipeError::MalformedAge ==> r@
                == "age field is not a magnitude followed by a unit word"@,
            *self == PipeError::TrustedLengthViolation ==> r@
                == "queried identifier is longer than the trusted identifiers"@,
    {
        match self {
            PipeError::MalformedRecord => "record line does not hold exactly four fields",
            PipeError::MalformedAge => "age field is not a magnitude followed by a unit word",
            PipeError::TrustedLengthViolation => "queried identifier is longer than the trusted identifiers",
        }
    }
}

} // verus!
