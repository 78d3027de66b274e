//! The conditions on which the machine refuses to go on.

use vstd::prelude::*;

verus! {

/// Why an instruction could not be carried out. Each of these points to a
/// corrupt or incompatible program; what to do next is up to the host.
#[derive(Clone, Copy, Debug, PartialEq, Eq)]
pub enum Chip8Error {
    /// The fetched word is no instruction of the machine.
    InvalidOpcode,
    /// A subroutine was called with the call stack already full.
    StackOverflow,
    /// A return was asked for with the call stack empty.
    StackUnderflow,
    /// An address, a program or a key code lies outside its valid range.
    OutOfBounds,
}

} // verus!
