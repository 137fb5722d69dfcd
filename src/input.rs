//! The instruction model consumed by the scheduler: atom placements and a
//! time-ordered, partially relative stream of timed operations.

use vstd::prelude::*;
use crate::position::Position;

verus! {

/// How the time of an instruction is given.
#[derive(Debug, Clone, Copy, PartialEq, Eq, Structural)]
pub enum TimeSpec {
    /// The time is a global time
    Absolute,
    /// The time is an offset from the start of the enclosing group
    /// (`from_start`) or from the completion of the previous instruction;
    /// `positive` gives its sign.
    Relative { from_start: bool, positive: bool },
}

/// The parsed directives.
#[derive(Debug, Clone)]
pub struct Directives {
    /// The machines the program targets
    pub targets: Vec<String>,
}

/// An instruction which does not take a time.
#[derive(Debug, Clone)]
pub enum SetupInstruction {
    /// Places an atom with `id` at `position`
    Atom { position: Position, id: String },
}

/// An instruction which takes a time.
#[derive(Debug, Clone)]
pub enum TimedInstruction {
    /// Loads an atom (optionally moving it to `position`)
    Load { position: Option<Position>, id: String },
    /// Stores an atom (optionally moving it to `position`)
    Store { position: Option<Position>, id: String },
    /// Moves an atom to `position`
    Move { position: Position, id: String },
    /// Rotation about the z-axis of an atom or of all atoms in a zone
    Rz { value: i64, id: String },
    /// Rotation about the y-axis of an atom or of all atoms in a zone
    Ry { value: i64, id: String },
    /// Controlled-z between neighbouring atoms in a zone
    Cz { id: String },
}

impl TimedInstruction {
    /// The id (of an atom or a zone) this instruction names.
    pub open spec fn spec_id(&self) -> Seq<char> {
        match self {
            TimedInstruction::Load { id, .. } => id@,
            TimedInstruction::Store { id, .. } => id@,
            TimedInstruction::Move { id, .. } => id@,
            TimedInstruction::Rz { id, .. } => id@,
            TimedInstruction::Ry { id, .. } => id@,
            TimedInstruction::Cz { id } => id@,
        }
    }

    /// The position this instruction moves an atom to, if any.
    pub open spec fn spec_position(&self) -> Option<Position> {
        match self {
            TimedInstruction::Load { position, .. } => *position,
            TimedInstruction::Store { position, .. } => *position,
            TimedInstruction::Move { position, .. } => Some(*position),
            _ => None,
        }
    }

    /// Extracts the position of this instruction, if it has one.
    pub fn position(&self) -> (r: Option<Position>)
        ensures
            r == self.spec_position(),
    {
        match self {
            TimedInstruction::Load { position, .. } => *position,
            TimedInstruction::Store { position, .. } => *position,
            TimedInstruction::Move { position, .. } => Some(*position),
            _ => None,
        }
    }
}

/// Error while collecting instructions from parsed input.
#[derive(Debug, Clone)]
pub enum ParseInstructionsError {
    /// Encountered an unknown instruction
    UnknownInstruction { name: String },
    /// Encountered an unknown directive
    UnknownDirective { name: String },
    /// Instruction or directive has a wrong number of arguments
    WrongNumberOfArguments {
        /// Name of instruction or directive
        name: &'static str,
        /// Expected number of arguments to be one of these
        expected: &'static [usize],
        /// Actually got this many arguments
        actual: usize,
    },
    /// Instruction or directive was called with a wrong type of argument
    WrongTypeOfArgument {
        /// Name of instruction or directive
        name: &'static str,
        /// Expected one of these lists of argument types
        expected: &'static [&'static [&'static str]],
    },
    /// A timed instruction is missing a time
    MissingTime { name: &'static str },
    /// A setup instruction was given a time
    SuperfluousTime { name: &'static str },
}

/// One entry of a group: `(from_start, offset, instruction)`. `from_start`
/// anchors the entry at the group's start rather than after the previous
/// entry's completion.
pub type RelativeEntry = (bool, i64, TimedInstruction);

/// The parsed instructions, split into directives, setup and timed instructions.
#[derive(Debug, Clone)]
pub struct Instructions {
    /// The directives
    pub directives: Directives,
    /// The atom placements
    pub setup: Vec<SetupInstruction>,
    /// The groups of timed instructions, each anchored at a global time
    pub instructions: Vec<(i64, Vec<RelativeEntry>)>,
}

} // verus!
