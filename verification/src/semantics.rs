//! What each instruction does to the machine, as functions on
//! [`MachineState`].
//!
//! An instruction is applied to the state in which the program counter
//! already points past it, so that jumps and calls replace the advanced
//! value. A failing instruction changes nothing.

use vstd::prelude::*;
use crate::display::{blit, blit_collides, DisplayState};
use crate::error::Chip8Error;
use crate::font::glyph_address;
use crate::opcode::{decoded, Instruction};
use crate::state::MachineState;

verus! {

/// `n` reduced to eight bits.
pub open spec fn wrap8(n: int) -> u8 {
    (n % 0x100) as u8
}

/// `n` reduced to sixteen bits.
pub open spec fn wrap16(n: int) -> u16 {
    (n % 0x10000) as u16
}

/// The row of the grid that row `k` of a sprite placed at row `y` is aimed
/// at. Without wrapping it may lie below the bottom edge.
pub open spec fn sprite_line(y: int, k: int, wrap: bool) -> int {
    if wrap {
        (y + k) % 32
    } else {
        y + k
    }
}

/// The grid after the rows of `sprite` were drawn one below the other,
/// starting at (`x`, `y`). Rows aimed below the bottom edge are left out.
pub open spec fn draw_pixels(pixels: Seq<bool>, x: int, y: int, sprite: Seq<u8>, wrap: bool) -> Seq<
    bool,
>
    decreases sprite.len(),
{
    if sprite.len() == 0 {
        pixels
    } else {
        let above = draw_pixels(pixels, x, y, sprite.drop_last(), wrap);
        let line = sprite_line(y, sprite.len() - 1, wrap);
        if line < 32 {
            blit(above, x, line, sprite.last())
        } else {
            above
        }
    }
}

/// Whether drawing `sprite` at (`x`, `y`) turns a lit pixel off in any of
/// its rows.
pub open spec fn draw_collides(pixels: Seq<bool>, x: int, y: int, sprite: Seq<u8>, wrap: bool) -> bool
    decreases sprite.len(),
{
    if sprite.len() == 0 {
        false
    } else {
        let above = draw_pixels(pixels, x, y, sprite.drop_last(), wrap);
        let line = sprite_line(y, sprite.len() - 1, wrap);
        draw_collides(pixels, x, y, sprite.drop_last(), wrap) || (line < 32 && blit_collides(
            above,
            x,
            line,
            sprite.last(),
        ))
    }
}

/// The three decimal digits of `value`: hundreds, tens, ones.
pub open spec fn decimal_digits(value: u8) -> Seq<u8> {
    seq![value / 100, value / 10 % 10, value % 10]
}

/// `memory` with `bytes` written from `start` on.
pub open spec fn write_bytes(memory: Seq<u8>, start: int, bytes: Seq<u8>) -> Seq<u8> {
    Seq::new(
        memory.len(),
        |addr: int|
            if start <= addr < start + bytes.len() {
                bytes[addr - start]
            } else {
                memory[addr]
            },
    )
}

impl MachineState {
    /// The state with the program counter moved on by one instruction.
    pub open spec fn advanced(self) -> MachineState {
        MachineState { pc: wrap16(self.pc + 2), ..self }
    }

    /// The state with the program counter moved back by one instruction.
    pub open spec fn rewound(self) -> MachineState {
        MachineState { pc: wrap16(self.pc - 2), ..self }
    }

    /// Skips the next instruction if `condition` holds.
    pub open spec fn skip_if(self, condition: bool) -> MachineState {
        if condition {
            self.advanced()
        } else {
            self
        }
    }

    /// The state with `value` in register `x`.
    pub open spec fn with_register(self, x: int, value: u8) -> MachineState {
        MachineState { v: self.v.update(x, value), ..self }
    }

    /// The state with `value` in register `x` and then `flag` in the flag
    /// register: where `x` is the flag register itself, the flag wins.
    pub open spec fn with_flagged(self, x: int, value: u8, flag: bool) -> MachineState {
        MachineState {
            v: self.v.update(x, value).update(0xF, if flag { 1u8 } else { 0u8 }),
            ..self
        }
    }

    /// The register that a shift instruction reads.
    pub open spec fn shift_source(self, x: int, y: int) -> u8 {
        if self.quirks.shift_uses_vy {
            self.v[y]
        } else {
            self.v[x]
        }
    }

    /// The state after both timers counted down by one, stopping at zero.
    pub open spec fn ticked(self) -> MachineState {
        MachineState {
            delay_timer: if self.delay_timer > 0 { (self.delay_timer - 1) as u8 } else { 0 },
            sound_timer: if self.sound_timer > 0 { (self.sound_timer - 1) as u8 } else { 0 },
            ..self
        }
    }

    /// The word at the program counter, high byte first, if both of its
    /// bytes lie in memory.
    pub open spec fn fetched(self) -> Option<u16> {
        if self.pc + 1 < 4096 {
            Some((self.memory[self.pc as int] * 0x100 + self.memory[self.pc + 1]) as u16)
        } else {
            None
        }
    }

    /// The state after `program` was written from `PROGRAM_START` on, or
    /// `OutOfBounds` if it does not fit.
    pub open spec fn loaded(self, program: Seq<u8>) -> Result<MachineState, Chip8Error> {
        if 0x200 + program.len() <= 4096 {
            Ok(MachineState { memory: write_bytes(self.memory, 0x200, program), ..self })
        } else {
            Err(Chip8Error::OutOfBounds)
        }
    }

    /// The effect of `instruction`, with `random` as the byte that chance
    /// provides. The program counter of `self` already points past the
    /// instruction.
    pub open spec fn applied(self, instruction: Instruction, random: u8) -> Result<
        MachineState,
        Chip8Error,
    > {
        match instruction {
            Instruction::ClearScreen => Ok(
                MachineState {
                    display: DisplayState {
                        pixels: DisplayState::blank().pixels,
                        ..self.display
                    },
                    ..self
                },
            ),
            Instruction::Return => if self.stack.len() == 0 {
                Err(Chip8Error::StackUnderflow)
            } else {
                Ok(MachineState { pc: self.stack.last(), stack: self.stack.drop_last(), ..self })
            },
            Instruction::Jump { addr } => Ok(MachineState { pc: addr, ..self }),
            Instruction::Call { addr } => if self.stack.len() >= 16 {
                Err(Chip8Error::StackOverflow)
            } else {
                Ok(MachineState { pc: addr, stack: self.stack.push(self.pc), ..self })
            },
            Instruction::SkipIfEqual { x, byte } => Ok(self.skip_if(self.v[x as int] == byte)),
            Instruction::SkipIfNotEqual { x, byte } => Ok(self.skip_if(self.v[x as int] != byte)),
            Instruction::SkipIfRegistersEqual { x, y } => Ok(
                self.skip_if(self.v[x as int] == self.v[y as int]),
            ),
            Instruction::Load { x, byte } => Ok(self.with_register(x as int, byte)),
            Instruction::AddByte { x, byte } => Ok(
                self.with_register(x as int, wrap8(self.v[x as int] + byte)),
            ),
            Instruction::Copy { x, y } => Ok(self.with_register(x as int, self.v[y as int])),
            Instruction::Or { x, y } => Ok(
                self.with_register(x as int, self.v[x as int] | self.v[y as int]),
            ),
            Instruction::And { x, y } => Ok(
                self.with_register(x as int, self.v[x as int] & self.v[y as int]),
            ),
            Instruction::Xor { x, y } => Ok(
                self.with_register(x as int, self.v[x as int] ^ self.v[y as int]),
            ),
            Instruction::Add { x, y } => {
                let sum = self.v[x as int] + self.v[y as int];
                Ok(self.with_flagged(x as int, wrap8(sum), sum > 0xFF))
            },
            Instruction::Subtract { x, y } => {
                let difference = self.v[x as int] - self.v[y as int];
                Ok(self.with_flagged(x as int, wrap8(difference), difference >= 0))
            },
            Instruction::ShiftRight { x, y } => {
                let source = self.shift_source(x as int, y as int);
                Ok(self.with_flagged(x as int, source / 2, source % 2 == 1))
            },
            Instruction::SubtractFrom { x, y } => {
                let difference = self.v[y as int] - self.v[x as int];
                Ok(self.with_flagged(x as int, wrap8(difference), difference >= 0))
            },
            Instruction::ShiftLeft { x, y } => {
                let source = self.shift_source(x as int, y as int);
                Ok(self.with_flagged(x as int, wrap8(source * 2), source >= 0x80))
            },
            Instruction::SkipIfRegistersDiffer { x, y } => Ok(
                self.skip_if(self.v[x as int] != self.v[y as int]),
            ),
            Instruction::LoadIndex { addr } => Ok(MachineState { i: addr, ..self }),
            Instruction::JumpOffset { addr } => Ok(
                MachineState { pc: wrap16(self.v[0] + addr), ..self },
            ),
            Instruction::Random { x, byte } => Ok(self.with_register(x as int, random & byte)),
            Instruction::Draw { x, y, rows } => if rows > 0 && self.i + rows > 4096 {
                Err(Chip8Error::OutOfBounds)
            } else {
                let sprite = if rows == 0 {
                    Seq::<u8>::empty()
                } else {
                    self.memory.subrange(self.i as int, self.i + rows)
                };
                let column = self.v[x as int] as int;
                let line = self.v[y as int] as int;
                let wrap = self.quirks.wrap_rows;
                Ok(
                    MachineState {
                        v: self.v.update(
                            0xF,
                            if draw_collides(self.display.pixels, column, line, sprite, wrap) {
                                1u8
                            } else {
                                0u8
                            },
                        ),
                        display: DisplayState {
                            pixels: draw_pixels(self.display.pixels, column, line, sprite, wrap),
                            dirty: true,
                            ..self.display
                        },
                        ..self
                    },
                )
            },
            Instruction::SkipIfKey { x } => if self.v[x as int] >= 16 {
                Err(Chip8Error::OutOfBounds)
            } else {
                Ok(self.skip_if(self.display.held[self.v[x as int] as int]))
            },
            Instruction::SkipIfNotKey { x } => if self.v[x as int] >= 16 {
                Err(Chip8Error::OutOfBounds)
            } else {
                Ok(self.skip_if(!self.display.held[self.v[x as int] as int]))
            },
            Instruction::ReadDelay { x } => Ok(self.with_register(x as int, self.delay_timer)),
            Instruction::WaitKey { x } => match self.display.pressed {
                Some(key) => Ok(self.with_register(x as int, key)),
                None => Ok(self.rewound()),
            },
            Instruction::SetDelay { x } => Ok(
                MachineState { delay_timer: self.v[x as int], ..self },
            ),
            Instruction::SetSound { x } => Ok(
                MachineState { sound_timer: self.v[x as int], ..self },
            ),
            Instruction::AddIndex { x } => Ok(
                MachineState { i: wrap16(self.i + self.v[x as int]), ..self },
            ),
            Instruction::Glyph { x } => Ok(
                MachineState { i: glyph_address(self.v[x as int]), ..self },
            ),
            Instruction::Decimal { x } => if self.i + 3 > 4096 {
                Err(Chip8Error::OutOfBounds)
            } else {
                Ok(
                    MachineState {
                        memory: write_bytes(
                            self.memory,
                            self.i as int,
                            decimal_digits(self.v[x as int]),
                        ),
                        ..self
                    },
                )
            },
            Instruction::Store { x } => if self.i + x + 1 > 4096 {
                Err(Chip8Error::OutOfBounds)
            } else {
                Ok(
                    MachineState {
                        memory: write_bytes(self.memory, self.i as int, self.v.subrange(0, x + 1)),
                        ..self
                    },
                )
            },
            Instruction::Restore { x } => if self.i + x + 1 > 4096 {
                Err(Chip8Error::OutOfBounds)
            } else {
                Ok(
                    MachineState {
                        v: Seq::new(
                            16,
                            |k: int|
                                if k <= x {
                                    self.memory[self.i + k]
                                } else {
                                    self.v[k]
                                },
                        ),
                        ..self
                    },
                )
            },
        }
    }

    /// The effect of the instruction that `opcode` stands for, or
    /// `InvalidOpcode` if it stands for none.
    pub open spec fn executed(self, opcode: u16, random: u8) -> Result<MachineState, Chip8Error> {
        match decoded(opcode) {
            Some(instruction) => self.applied(instruction, random),
            None => Err(Chip8Error::InvalidOpcode),
        }
    }

    /// Whether the next cycle asks chance for a byte: the word at the
    /// program counter is of the form `0xCXNN`.
    pub open spec fn needs_chance(self) -> bool {
        self.fetched() matches Some(opcode) && opcode / 0x1000 == 0xC
    }

    /// One cycle: fetch the word at the program counter, move the program
    /// counter past it, carry the instruction out and let the timers count
    /// down.
    pub open spec fn cycled(self, random: u8) -> Result<MachineState, Chip8Error> {
        match self.fetched() {
            Some(opcode) => match self.advanced().executed(opcode, random) {
                Ok(next) => Ok(next.ticked()),
                Err(error) => Err(error),
            },
            None => Err(Chip8Error::OutOfBounds),
        }
    }
}

/// Whether a call that was to bring about `expected` did so: on success the
/// machine is in the expected state, on failure the error is reported and
/// the machine is as it was before.
pub open spec fn outcome(
    expected: Result<MachineState, Chip8Error>,
    before: MachineState,
    result: Result<(), Chip8Error>,
    after: MachineState,
) -> bool {
    match expected {
        Ok(next) => result is Ok && after == next,
        Err(error) => result == Err::<(), Chip8Error>(error) && after == before,
    }
}

} // verus!
