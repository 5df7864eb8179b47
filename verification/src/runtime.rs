//! The exit-code protocol between translated blocks and the dispatcher.
//!
//! A translated block returns to the dispatcher with an exit code in the
//! host return register: 0 to continue with the next block, 1 to halt. The
//! dispatcher itself (generated host code that loads the guest-state,
//! arena and CPSR pointers into reserved registers before calling a block)
//! lives outside this crate.

use vstd::prelude::*;

verus! {

/// What a translated block asks the runtime to do next.
#[derive(Clone, Copy, Debug, PartialEq, Eq, Structural)]
pub enum RuntimeExitCode {
    /// Continue with the block at the updated guest PC.
    NextBlock,
    /// Stop execution.
    Halt,
}

impl RuntimeExitCode {
    /// Decode a block's return value. Anything above 1 is not a valid exit
    /// code and is rejected by the caller before this is used.
    pub fn from_code(x: usize) -> (r: RuntimeExitCode)
        requires
            x <= 1,
        ensures
            r == (if x == 0 {
                RuntimeExitCode::NextBlock
            } else {
                RuntimeExitCode::Halt
            }),
    {
        if x == 0 {
            RuntimeExitCode::NextBlock
        } else {
            RuntimeExitCode::Halt
        }
    }

    /// The wire value of this exit code.
    pub fn code(self) -> (r: usize)
        ensures
            r == (match self {
                RuntimeExitCode::NextBlock => 0usize,
                RuntimeExitCode::Halt => 1usize,
            }),
    {
        match self {
            RuntimeExitCode::NextBlock => 0,
            RuntimeExitCode::Halt => 1,
        }
    }
}

} // verus!
