//! The ways a host call can abort.

use vstd::prelude::*;

verus! {

/// A fatal abort of one host-function call. The guest does not see a status
/// code: the call unwinds and the instance stops.
#[derive(Clone, Copy, Debug, PartialEq, Eq)]
pub enum Trap {
    /// The destination of a node-identifier copy does not lie inside the
    /// instance's memory.
    NodesOutOfBounds,
    /// A spawn names a module that the instance does not hold.
    UnknownModule,
    /// A spawn refers to bytes outside the instance's memory.
    SpawnOutOfBounds,
    /// The name of the function to spawn is not UTF-8.
    InvalidFunctionName,
    /// The arguments of a spawn are not a whole number of tagged values, or
    /// one of them has an unknown tag.
    MalformedParams,
    /// A guest pointer handed to a size query does not lie inside the
    /// instance's memory.
    PointerOutOfBounds,
    /// The argument bytes do not fit between the given offset and the end of
    /// memory.
    ArgsBufferEnd,
    /// The argument pointers do not fit between the given offset and the end
    /// of memory.
    ArgsPointerBufferEnd,
    /// The environment bytes do not fit between the given offset and the end
    /// of memory.
    EnvironBufferEnd,
    /// The environment pointers do not fit between the given offset and the
    /// end of memory.
    EnvironPointerBufferEnd,
    /// A write to a descriptor other than 0, 1 and 2.
    UnsupportedWriteDestination,
    /// A read from a descriptor other than 0, 1 and 2.
    UnsupportedReadDestination,
}

impl Trap {
    /// The text that goes with the trap.
    pub fn message(&self) -> (text: &'static str)
        ensures
            text@ == (match *self {
                Trap::NodesOutOfBounds => "lunatic::distributed::get_nodes::memory"@,
                Trap::UnknownModule => "lunatic::distributed::spawn::module"@,
                Trap::SpawnOutOfBounds => "lunatic::distributed::spawn::memory"@,
                Trap::InvalidFunctionName => "lunatic::distributed::spawn::func_str"@,
                Trap::MalformedParams => "lunatic::distributed::spawn::params"@,
                Trap::PointerOutOfBounds => "Pointer outside of the memory"@,
                Trap::ArgsBufferEnd => "Reached end of the args buffer"@,
                Trap::ArgsPointerBufferEnd => "Reached end of the args pointer buffer"@,
                Trap::EnvironBufferEnd => "Reached end of the environment variables buffer"@,
                Trap::EnvironPointerBufferEnd => "Reached end of the environ var pointer buffer"@,
                Trap::UnsupportedWriteDestination => "Unsupported wasi write destination"@,
                Trap::UnsupportedReadDestination => "Unsupported wasi read destination"@,
            }),
    {
        match self {
            Trap::NodesOutOfBounds => "lunatic::distributed::get_nodes::memory",
            Trap::UnknownModule => "lunatic::distributed::spawn::module",
            Trap::SpawnOutOfBounds => "lunatic::distributed::spawn::memory",
            Trap::InvalidFunctionName => "lunatic::distributed::spawn::func_str",
            Trap::MalformedParams => "lunatic::distributed::spawn::params",
            Trap::PointerOutOfBounds => "Pointer outside of the memory",
            Trap::ArgsBufferEnd => "Reached end of the args buffer",
            Trap::ArgsPointerBufferEnd => "Reached end of the args pointer buffer",
            Trap::EnvironBufferEnd => "Reached end of the environment variables buffer",
            Trap::EnvironPointerBufferEnd => "Reached end of the environ var pointer buffer",
            Trap::UnsupportedWriteDestination => "Unsupported wasi write destination",
            Trap::UnsupportedReadDestination => "Unsupported wasi read destination",
        }
    }
}

} // verus!
