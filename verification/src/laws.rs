//! Properties of the instruction set that hold of every machine state,
//! proved from the definitions in [`crate::semantics`].

use vstd::prelude::*;
use crate::display::DisplayState;
use crate::error::Chip8Error;
use crate::opcode::{decoded, lemma_decoded_wf, Instruction};
use crate::semantics::{draw_pixels, write_bytes};
use crate::state::MachineState;

verus! {

/// The word `0x00E0` turns every pixel off and changes nothing else, however
/// the screen looked before.
pub proof fn lemma_clear_screen_clears(state: MachineState, random: u8)
    requires
        state.wf(),
    ensures
        ({
            &&& state.executed(0x00E0, random) matches Ok(next)
            &&& next == (MachineState {
                display: DisplayState { pixels: next.display.pixels, ..state.display },
                ..state
            })
            &&& next.display.pixels.len() == 2048
            &&& forall|idx: int| 0 <= idx < 2048 ==> !next.display.pixels[idx]
        }),
{
    assert(decoded(0x00E0) == Some(Instruction::ClearScreen));
}

/// The word `0x1NNN` sets the program counter to `NNN` and changes nothing
/// else.
pub proof fn lemma_jump_sets_pc(state: MachineState, addr: u16, random: u8)
    requires
        addr < 0x1000,
    ensures
        state.executed((0x1000 + addr) as u16, random) == Ok::<MachineState, Chip8Error>(
            MachineState { pc: addr, ..state },
        ),
{
    assert(decoded((0x1000 + addr) as u16) == Some(Instruction::Jump { addr }));
}

/// A call is refused with `StackOverflow` exactly when the stack is full,
/// and a return with `StackUnderflow` exactly when the stack is empty.
pub proof fn lemma_stack_limits(state: MachineState, addr: u16, random: u8)
    requires
        state.wf(),
        addr < 0x1000,
    ensures
        state.executed((0x2000 + addr) as u16, random) is Err <==> state.stack.len() == 16,
        state.executed((0x2000 + addr) as u16, random) is Err ==> state.executed(
            (0x2000 + addr) as u16,
            random,
        ) == Err::<MachineState, Chip8Error>(Chip8Error::StackOverflow),
        state.executed(0x00EE, random) is Err <==> state.stack.len() == 0,
        state.executed(0x00EE, random) is Err ==> state.executed(0x00EE, random) == Err::<
            MachineState,
            Chip8Error,
        >(Chip8Error::StackUnderflow),
{
    assert(decoded((0x2000 + addr) as u16) == Some(Instruction::Call { addr }));
    assert(decoded(0x00EE) == Some(Instruction::Return));
}

/// A cycle that fetches the word `0x2NNN` with the stack not full puts the
/// address of the next instruction on the stack and continues at `NNN`.
pub proof fn lemma_cycled_call(state: MachineState, addr: u16, random: u8)
    requires
        addr < 0x1000,
        state.fetched() == Some((0x2000 + addr) as u16),
        state.stack.len() < 16,
    ensures
        state.cycled(random) == Ok::<MachineState, Chip8Error>(
            (MachineState {
                pc: addr,
                stack: state.stack.push((state.pc + 2) as u16),
                ..state
            }).ticked(),
        ),
{
    assert(decoded((0x2000 + addr) as u16) == Some(Instruction::Call { addr }));
}

/// A cycle that fetches the word `0x00EE` with the stack not empty takes
/// the newest address off the stack and continues there.
pub proof fn lemma_cycled_return(state: MachineState, random: u8)
    requires
        state.fetched() == Some(0x00EEu16),
        state.stack.len() > 0,
    ensures
        state.cycled(random) == Ok::<MachineState, Chip8Error>(
            (MachineState {
                pc: state.stack.last(),
                stack: state.stack.drop_last(),
                ..state
            }).ticked(),
        ),
{
    assert(decoded(0x00EE) == Some(Instruction::Return));
}

/// A call followed by a return: where the word at the program counter is
/// `0x2NNN`, the stack is not full and the word at `NNN` is `0x00EE`, two
/// cycles succeed, after which the program counter points to the
/// instruction that follows the call and the stack is as it was.
pub proof fn lemma_call_then_return(state: MachineState, addr: u16, first: u8, second: u8)
    requires
        state.wf(),
        addr < 0x1000,
        state.fetched() == Some((0x2000 + addr) as u16),
        state.stack.len() < 16,
        addr + 1 < 4096,
        state.memory[addr as int] == 0x00,
        state.memory[addr + 1] == 0xEE,
    ensures
        ({
            &&& state.cycled(first) matches Ok(called)
            &&& called.pc == addr
            &&& called.stack == state.stack.push((state.pc + 2) as u16)
            &&& called.cycled(second) matches Ok(returned)
            &&& returned.pc == state.pc + 2
            &&& returned.stack == state.stack
        }),
{
    lemma_cycled_call(state, addr, first);
    let called = (MachineState {
        pc: addr,
        stack: state.stack.push((state.pc + 2) as u16),
        ..state
    }).ticked();
    assert(called.fetched() == Some(0x00EEu16));
    lemma_cycled_return(called, second);
    assert(called.stack.drop_last() =~= state.stack);
}

/// The words `0xFX55` and `0xFX65` stand for storing and loading registers
/// `V0` to `V[x]`.
proof fn lemma_decoded_store_restore(x: u8)
    requires
        x < 16,
    ensures
        decoded((0xF055 + 0x100 * x) as u16) == Some(Instruction::Store { x }),
        decoded((0xF065 + 0x100 * x) as u16) == Some(Instruction::Restore { x }),
{
    let store = (0xF055 + 0x100 * x) as u16;
    assert(store / 0x1000 == 0xF && store / 0x100 % 16 == x && store % 0x100 == 0x55);
    let restore = (0xF065 + 0x100 * x) as u16;
    assert(restore / 0x1000 == 0xF && restore / 0x100 % 16 == x && restore % 0x100 == 0x65);
}

/// Storing and then loading registers `V0` to `V[x]`, as instructions.
proof fn lemma_store_then_restore_applied(state: MachineState, x: u8, first: u8, second: u8)
    requires
        state.wf(),
        x < 16,
        state.i + x < 4096,
    ensures
        ({
            &&& state.applied(Instruction::Store { x }, first) matches Ok(stored)
            &&& stored.applied(Instruction::Restore { x }, second) matches Ok(restored)
            &&& restored.v == state.v
            &&& restored == stored
            &&& forall|k: int| 0 <= k <= x ==> stored.memory[state.i + k] == state.v[k]
        }),
{
    let stored = state.applied(Instruction::Store { x }, first)->Ok_0;
    let restored = stored.applied(Instruction::Restore { x }, second)->Ok_0;
    assert(stored.memory == write_bytes(state.memory, state.i as int, state.v.subrange(0, x + 1)));
    assert forall|k: int| 0 <= k <= x implies stored.memory[state.i + k] == state.v[k] by {
        assert(state.v.subrange(0, x + 1)[k] == state.v[k]);
    }
    assert(restored.v =~= state.v);
}

/// Storing registers `V0` to `V[x]` and loading them again from the same
/// place gives every register the value it had: where the `x + 1` bytes at
/// the index register lie in memory, both instructions succeed, memory
/// holds the registers from the index register on, and the load changes
/// nothing.
pub proof fn lemma_store_then_restore(state: MachineState, x: u8, first: u8, second: u8)
    requires
        state.wf(),
        x < 16,
        state.i + x < 4096,
    ensures
        ({
            &&& state.executed((0xF055 + 0x100 * x) as u16, first) matches Ok(stored)
            &&& stored.executed((0xF065 + 0x100 * x) as u16, second) matches Ok(restored)
            &&& restored.v == state.v
            &&& restored == stored
            &&& forall|k: int| 0 <= k <= x ==> stored.memory[state.i + k] == state.v[k]
        }),
{
    lemma_decoded_store_restore(x);
    lemma_store_then_restore_applied(state, x, first, second);
}

/// Only the random-number instruction, of the words `0xCXNN`, depends on
/// the byte that chance provides.
pub proof fn lemma_chance_matters_to_random_only(
    state: MachineState,
    opcode: u16,
    first: u8,
    second: u8,
)
    requires
        opcode / 0x1000 != 0xC,
    ensures
        state.executed(opcode, first) == state.executed(opcode, second),
{
}

/// Drawing a sprite keeps the grid at its size.
pub proof fn lemma_draw_keeps_size(pixels: Seq<bool>, x: int, y: int, sprite: Seq<u8>, wrap: bool)
    ensures
        draw_pixels(pixels, x, y, sprite, wrap).len() == pixels.len(),
    decreases sprite.len(),
{
    if sprite.len() > 0 {
        lemma_draw_keeps_size(pixels, x, y, sprite.drop_last(), wrap);
    }
}

/// Every instruction takes a well-formed machine to a well-formed machine:
/// memory and the register file keep their sizes, and the stack never holds
/// more than sixteen addresses.
pub proof fn lemma_executed_preserves_wf(state: MachineState, opcode: u16, random: u8)
    requires
        state.wf(),
    ensures
        state.executed(opcode, random) matches Ok(next) ==> next.wf(),
{
    lemma_decoded_wf(opcode);
    if let Some(instruction) = decoded(opcode) {
        if let Instruction::Draw { x, y, rows } = instruction {
            let sprite = if rows == 0 {
                Seq::<u8>::empty()
            } else {
                state.memory.subrange(state.i as int, state.i + rows)
            };
            lemma_draw_keeps_size(
                state.display.pixels,
                state.v[x as int] as int,
                state.v[y as int] as int,
                sprite,
                state.quirks.wrap_rows,
            );
        }
    }
}

/// A cycle takes a well-formed machine to a well-formed machine.
pub proof fn lemma_cycled_preserves_wf(state: MachineState, random: u8)
    requires
        state.wf(),
    ensures
        state.cycled(random) matches Ok(next) ==> next.wf(),
{
    if let Some(opcode) = state.fetched() {
        lemma_executed_preserves_wf(state.advanced(), opcode, random);
    }
}

} // verus!
