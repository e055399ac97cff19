//! Every way a run can fail. All of them are fatal: a run stops at the first.
use vstd::prelude::*;

verus! {

#[derive(Clone, Copy, Debug, PartialEq, Eq, Structural)]
pub enum RoadError {
    /// A trace's path data holds more or fewer than one command.
    CommandCount,
    /// A trace's single path command is not a move.
    NonMoveCommand,
    /// A move command's parameters do not come in coordinate pairs.
    OddParameterCount,
    /// An absolute path with fewer than two points.
    TooFewPoints,
    /// A style that carries none of the three known color markers.
    UnknownStyle,
    /// A second reference trace.
    MultipleReferences,
    /// No reference trace, or one of zero length.
    MissingReference,
    /// A total too large for the integer width of the computation.
    Overflow,
}

impl RoadError {
    /// A short human-readable description.
    pub fn message(&self) -> (r: &'static str) {
        match self {
            RoadError::CommandCount => "path data must hold exactly one command",
            RoadError::NonMoveCommand => "non-move command found",
            RoadError::OddParameterCount => "path parameters must come in pairs",
            RoadError::TooFewPoints => "absolute path needs at least two points",
            RoadError::UnknownStyle => "unknown style",
            RoadError::MultipleReferences => "multiple reference traces",
            RoadError::MissingReference => "missing reference",
            RoadError::Overflow => "total too large",
        }
    }
}

} // verus!
