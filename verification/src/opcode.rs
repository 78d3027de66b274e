//! The instruction set: how a 16-bit word splits into four nibbles, and which
//! instruction each word stands for.
//!
//! The nibbles of a word are written `a`, `x`, `y`, `d` from the most
//! significant down; `NN` is the low byte and `NNN` the low twelve bits.

use vstd::prelude::*;
use crate::utility::{all_nibbles, nibbles_value, reconstruct_byte};

verus! {

/// One instruction with its operands. `x` and `y` name registers, `byte` is
/// an immediate value and `addr` a 12-bit address.
#[derive(Clone, Copy, Debug, PartialEq, Eq)]
pub enum Instruction {
    /// Turn every pixel off.
    ClearScreen,
    /// Return from a subroutine.
    Return,
    /// Continue at `addr`.
    Jump { addr: u16 },
    /// Call the subroutine at `addr`.
    Call { addr: u16 },
    /// Skip the next instruction if `V[x] == byte`.
    SkipIfEqual { x: u8, byte: u8 },
    /// Skip the next instruction if `V[x] != byte`.
    SkipIfNotEqual { x: u8, byte: u8 },
    /// Skip the next instruction if `V[x] == V[y]`.
    SkipIfRegistersEqual { x: u8, y: u8 },
    /// `V[x] = byte`.
    Load { x: u8, byte: u8 },
    /// `V[x] = V[x] + byte`, wrapping, without touching the flag register.
    AddByte { x: u8, byte: u8 },
    /// `V[x] = V[y]`.
    Copy { x: u8, y: u8 },
    /// `V[x] = V[x] | V[y]`.
    Or { x: u8, y: u8 },
    /// `V[x] = V[x] & V[y]`.
    And { x: u8, y: u8 },
    /// `V[x] = V[x] ^ V[y]`.
    Xor { x: u8, y: u8 },
    /// `V[x] = V[x] + V[y]`, wrapping; the flag register tells of a carry.
    Add { x: u8, y: u8 },
    /// `V[x] = V[x] - V[y]`, wrapping; the flag register is 0 on a borrow.
    Subtract { x: u8, y: u8 },
    /// Shift right by one; the flag register takes the bit shifted out.
    ShiftRight { x: u8, y: u8 },
    /// `V[x] = V[y] - V[x]`, wrapping; the flag register is 0 on a borrow.
    SubtractFrom { x: u8, y: u8 },
    /// Shift left by one; the flag register takes the bit shifted out.
    ShiftLeft { x: u8, y: u8 },
    /// Skip the next instruction if `V[x] != V[y]`.
    SkipIfRegistersDiffer { x: u8, y: u8 },
    /// `I = addr`.
    LoadIndex { addr: u16 },
    /// Continue at `V[0] + addr`.
    JumpOffset { addr: u16 },
    /// `V[x] =` a random byte masked with `byte`.
    Random { x: u8, byte: u8 },
    /// Draw the sprite of `rows` rows found at `I` at (`V[x]`, `V[y]`).
    Draw { x: u8, y: u8, rows: u8 },
    /// Skip the next instruction if key `V[x]` is held down.
    SkipIfKey { x: u8 },
    /// Skip the next instruction if key `V[x]` is not held down.
    SkipIfNotKey { x: u8 },
    /// `V[x] =` the delay timer.
    ReadDelay { x: u8 },
    /// Wait for a key press and store the key in `V[x]`.
    WaitKey { x: u8 },
    /// The delay timer `= V[x]`.
    SetDelay { x: u8 },
    /// The sound timer `= V[x]`.
    SetSound { x: u8 },
    /// `I = I + V[x]`, wrapping.
    AddIndex { x: u8 },
    /// `I =` the address of the glyph for `V[x]`.
    Glyph { x: u8 },
    /// Store the three decimal digits of `V[x]` at `I`, `I + 1`, `I + 2`.
    Decimal { x: u8 },
    /// Store `V[0]` to `V[x]` at `I` and the addresses that follow.
    Store { x: u8 },
    /// Load `V[0]` to `V[x]` from `I` and the addresses that follow.
    Restore { x: u8 },
}

/// The four nibbles of `opcode`, most significant first.
pub open spec fn nibbles_of(opcode: u16) -> Seq<usize> {
    seq![
        (opcode / 0x1000) as usize,
        (opcode / 0x100 % 16) as usize,
        (opcode / 0x10 % 16) as usize,
        (opcode % 16) as usize,
    ]
}

/// The instruction that `opcode` stands for, if it is one.
pub open spec fn decoded(opcode: u16) -> Option<Instruction> {
    let a = opcode / 0x1000;
    let x = (opcode / 0x100 % 16) as u8;
    let y = (opcode / 0x10 % 16) as u8;
    let d = opcode % 16;
    let byte = (opcode % 0x100) as u8;
    let addr = (opcode % 0x1000) as u16;
    match a {
        0x0 => match d {
            0x0 => Some(Instruction::ClearScreen),
            0xE => Some(Instruction::Return),
            _ => None,
        },
        0x1 => Some(Instruction::Jump { addr }),
        0x2 => Some(Instruction::Call { addr }),
        0x3 => Some(Instruction::SkipIfEqual { x, byte }),
        0x4 => Some(Instruction::SkipIfNotEqual { x, byte }),
        0x5 => match d {
            0x0 => Some(Instruction::SkipIfRegistersEqual { x, y }),
            _ => None,
        },
        0x6 => Some(Instruction::Load { x, byte }),
        0x7 => Some(Instruction::AddByte { x, byte }),
        0x8 => match d {
            0x0 => Some(Instruction::Copy { x, y }),
            0x1 => Some(Instruction::Or { x, y }),
            0x2 => Some(Instruction::And { x, y }),
            0x3 => Some(Instruction::Xor { x, y }),
            0x4 => Some(Instruction::Add { x, y }),
            0x5 => Some(Instruction::Subtract { x, y }),
            0x6 => Some(Instruction::ShiftRight { x, y }),
            0x7 => Some(Instruction::SubtractFrom { x, y }),
            0xE => Some(Instruction::ShiftLeft { x, y }),
            _ => None,
        },
        0x9 => match d {
            0x0 => Some(Instruction::SkipIfRegistersDiffer { x, y }),
            _ => None,
        },
        0xA => Some(Instruction::LoadIndex { addr }),
        0xB => Some(Instruction::JumpOffset { addr }),
        0xC => Some(Instruction::Random { x, byte }),
        0xD => Some(Instruction::Draw { x, y, rows: d as u8 }),
        0xE => match y {
            0x9 => Some(Instruction::SkipIfKey { x }),
            0xA => Some(Instruction::SkipIfNotKey { x }),
            _ => None,
        },
        0xF => match byte {
            0x07 => Some(Instruction::ReadDelay { x }),
            0x0A => Some(Instruction::WaitKey { x }),
            0x15 => Some(Instruction::SetDelay { x }),
            0x18 => Some(Instruction::SetSound { x }),
            0x1E => Some(Instruction::AddIndex { x }),
            0x29 => Some(Instruction::Glyph { x }),
            0x33 => Some(Instruction::Decimal { x }),
            0x55 => Some(Instruction::Store { x }),
            0x65 => Some(Instruction::Restore { x }),
            _ => None,
        },
        _ => None,
    }
}

impl Instruction {
    /// Registers are named by a nibble, addresses have twelve bits and a
    /// sprite has at most fifteen rows.
    pub open spec fn wf(self) -> bool {
        match self {
            Instruction::ClearScreen | Instruction::Return => true,
            Instruction::Jump { addr }
            | Instruction::Call { addr }
            | Instruction::LoadIndex { addr }
            | Instruction::JumpOffset { addr } => addr < 0x1000,
            Instruction::SkipIfEqual { x, .. }
            | Instruction::SkipIfNotEqual { x, .. }
            | Instruction::Load { x, .. }
            | Instruction::AddByte { x, .. }
            | Instruction::Random { x, .. }
            | Instruction::SkipIfKey { x }
            | Instruction::SkipIfNotKey { x }
            | Instruction::ReadDelay { x }
            | Instruction::WaitKey { x }
            | Instruction::SetDelay { x }
            | Instruction::SetSound { x }
            | Instruction::AddIndex { x }
            | Instruction::Glyph { x }
            | Instruction::Decimal { x }
            | Instruction::Store { x }
            | Instruction::Restore { x } => x < 16,
            Instruction::SkipIfRegistersEqual { x, y }
            | Instruction::Copy { x, y }
            | Instruction::Or { x, y }
            | Instruction::And { x, y }
            | Instruction::Xor { x, y }
            | Instruction::Add { x, y }
            | Instruction::Subtract { x, y }
            | Instruction::ShiftRight { x, y }
            | Instruction::SubtractFrom { x, y }
            | Instruction::ShiftLeft { x, y }
            | Instruction::SkipIfRegistersDiffer { x, y } => x < 16 && y < 16,
            Instruction::Draw { x, y, rows } => x < 16 && y < 16 && rows < 16,
        }
    }
}

/// Every word that decodes gives a well-formed instruction.
pub proof fn lemma_decoded_wf(opcode: u16)
    ensures
        decoded(opcode) matches Some(instruction) ==> instruction.wf(),
{
}

/// Splits `opcode` into its four nibbles, most significant first.
pub fn divide_opcode(opcode: &u16) -> (nibbles: [usize; 4])
    ensures
        nibbles@ == nibbles_of(*opcode),
{
    let mut new_opcode = *opcode;
    let mut nibbles: [usize; 4] = [0;4];
    let mut i: usize = 4;
    while i > 0
        invariant
            i <= 4,
            new_opcode == match i {
                4 => *opcode,
                3 => *opcode / 0x10,
                2 => *opcode / 0x100,
                1 => *opcode / 0x1000,
                _ => 0,
            },
            forall|k: int| i <= k < 4 ==> nibbles@[k] == nibbles_of(*opcode)[k],
        decreases i,
    {
        i -= 1;
        nibbles[i] = (new_opcode % 16) as usize;
        assert(new_opcode >> 4u16 == new_opcode / 16) by (bit_vector);
        new_opcode = new_opcode >> 4;
    }
    assert(nibbles@ =~= nibbles_of(*opcode));
    nibbles
}

/// Decodes `opcode` by a two-level dispatch: first on the high nibble, then
/// on the selector that the class of instructions calls for.
pub fn decode(opcode: u16) -> (instruction: Option<Instruction>)
    ensures
        instruction == decoded(opcode),
{
    let nibbles = divide_opcode(&opcode);
    let x = nibbles[1] as u8;
    let y = nibbles[2] as u8;
    let d = nibbles[3] as u8;
    let low = [nibbles[2], nibbles[3]];
    let tail = [nibbles[1], nibbles[2], nibbles[3]];
    proof {
        reveal_with_fuel(nibbles_value, 4);
        assert(all_nibbles(low@));
        assert(all_nibbles(tail@));
        assert(low@.drop_last() =~= seq![nibbles[2]]);
        assert(low@.drop_last().drop_last() =~= Seq::<usize>::empty());
        assert(tail@.drop_last() =~= seq![nibbles[1], nibbles[2]]);
        assert(tail@.drop_last().drop_last() =~= seq![nibbles[1]]);
        assert(tail@.drop_last().drop_last().drop_last() =~= Seq::<usize>::empty());
    }
    let byte = reconstruct_byte(&low) as u8;
    let addr = reconstruct_byte(&tail);
    assert(byte == opcode % 0x100);
    assert(addr == opcode % 0x1000);
    match nibbles[0] {
        0x0 => match d {
            0x0 => Some(Instruction::ClearScreen),
            0xE => Some(Instruction::Return),
            _ => None,
        },
        0x1 => Some(Instruction::Jump { addr }),
        0x2 => Some(Instruction::Call { addr }),
        0x3 => Some(Instruction::SkipIfEqual { x, byte }),
        0x4 => Some(Instruction::SkipIfNotEqual { x, byte }),
        0x5 => match d {
            0x0 => Some(Instruction::SkipIfRegistersEqual { x, y }),
            _ => None,
        },
        0x6 => Some(Instruction::Load { x, byte }),
        0x7 => Some(Instruction::AddByte { x, byte }),
        0x8 => match d {
            0x0 => Some(Instruction::Copy { x, y }),
            0x1 => Some(Instruction::Or { x, y }),
            0x2 => Some(Instruction::And { x, y }),
            0x3 => Some(Instruction::Xor { x, y }),
            0x4 => Some(Instruction::Add { x, y }),
            0x5 => Some(Instruction::Subtract { x, y }),
            0x6 => Some(Instruction::ShiftRight { x, y }),
            0x7 => Some(Instruction::SubtractFrom { x, y }),
            0xE => Some(Instruction::ShiftLeft { x, y }),
            _ => None,
        },
        0x9 => match d {
            0x0 => Some(Instruction::SkipIfRegistersDiffer { x, y }),
            _ => None,
        },
        0xA => Some(Instruction::LoadIndex { addr }),
        0xB => Some(Instruction::JumpOffset { addr }),
        0xC => Some(Instruction::Random { x, byte }),
        0xD => Some(Instruction::Draw { x, y, rows: d }),
        0xE => match y {
            0x9 => Some(Instruction::SkipIfKey { x }),
            0xA => Some(Instruction::SkipIfNotKey { x }),
            _ => None,
        },
        0xF => match byte {
            0x07 => Some(Instruction::ReadDelay { x }),
            0x0A => Some(Instruction::WaitKey { x }),
            0x15 => Some(Instruction::SetDelay { x }),
            0x18 => Some(Instruction::SetSound { x }),
            0x1E => Some(Instruction::AddIndex { x }),
            0x29 => Some(Instruction::Glyph { x }),
            0x33 => Some(Instruction::Decimal { x }),
            0x55 => Some(Instruction::Store { x }),
            0x65 => Some(Instruction::Restore { x }),
            _ => None,
        },
        _ => None,
    }
}

} // verus!
