//! The machine as a mathematical value: what a [`crate::Chip8`] stands for in
//! contracts.

use vstd::prelude::*;
use crate::display::DisplayState;
use crate::font::with_font;

verus! {

/// Number of bytes of memory.
pub const MEMORY_SIZE: usize = 4096;

/// Address at which programs are loaded and at which execution starts.
pub const PROGRAM_START: u16 = 0x200;

/// Index of the register that doubles as the carry, borrow and collision
/// flag.
pub const FLAG: usize = 0xF;

/// The points on which implementations of the machine differ.
#[derive(Clone, Copy, Debug, PartialEq, Eq)]
pub struct Quirks {
    /// The shift instructions shift `V[y]` into `V[x]`, rather than `V[x]`
    /// in place.
    pub shift_uses_vy: bool,
    /// Sprite rows aimed below the bottom edge of the screen wrap to the
    /// top, rather than being dropped.
    pub wrap_rows: bool,
}

impl Quirks {
    /// Shifts work in place and sprites are clipped at the bottom edge.
    pub open spec fn standard() -> Quirks {
        Quirks { shift_uses_vy: false, wrap_rows: false }
    }
}

impl Default for Quirks {
    /// Shifts work in place and sprites are clipped at the bottom edge.
    fn default() -> (quirks: Quirks)
        ensures
            quirks == Quirks::standard(),
    {
        Quirks { shift_uses_vy: false, wrap_rows: false }
    }
}

/// The whole state of the machine.
#[verifier::ext_equal]
pub struct MachineState {
    /// The 4096 bytes of memory.
    pub memory: Seq<u8>,
    /// The sixteen registers `V0` to `VF`.
    pub v: Seq<u8>,
    /// The index register.
    pub i: u16,
    /// The program counter.
    pub pc: u16,
    /// The return addresses, oldest first.
    pub stack: Seq<u16>,
    /// The delay timer.
    pub delay_timer: u8,
    /// The sound timer.
    pub sound_timer: u8,
    /// The framebuffer and the keypad.
    pub display: DisplayState,
    /// The variant of the machine.
    pub quirks: Quirks,
}

impl MachineState {
    /// Memory has 4096 bytes, there are sixteen registers, the stack holds
    /// at most sixteen addresses and the display is well-formed.
    pub open spec fn wf(self) -> bool {
        &&& self.memory.len() == 4096
        &&& self.v.len() == 16
        &&& self.stack.len() <= 16
        &&& self.display.wf()
    }

    /// The machine as it is created: the font in memory, everything else
    /// zero, and the program counter at `PROGRAM_START`.
    pub open spec fn initial(quirks: Quirks) -> MachineState {
        MachineState {
            memory: with_font(Seq::new(4096, |addr: int| 0u8)),
            v: Seq::new(16, |x: int| 0u8),
            i: 0,
            pc: PROGRAM_START,
            stack: Seq::empty(),
            delay_timer: 0,
            sound_timer: 0,
            display: DisplayState::blank(),
            quirks,
        }
    }
}

} // verus!
