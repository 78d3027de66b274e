//! The interpreter: the machine's storage and its fetch-decode-execute
//! cycle.

use vstd::prelude::*;
use crate::display::{frame_of, keypad_key, Display, DisplayState, HeightError};
use crate::entropy::random_byte;
use crate::error::Chip8Error;
use crate::font::{with_font, FONT, FONT_SIZE, FONT_START, GLYPH_SIZE};
use crate::opcode::{decode, lemma_decoded_wf, Instruction};
use crate::semantics::{
    decimal_digits,
    draw_collides,
    draw_pixels,
    outcome,
    sprite_line,
    wrap8,
    write_bytes,
};
use crate::stack::CallStack;
use crate::state::{MachineState, Quirks, FLAG, MEMORY_SIZE, PROGRAM_START};

verus! {

/// A CHIP-8 machine. Its view is the [`MachineState`] it stands for.
pub struct Chip8 {
    memory: [u8; 4096],
    pc: u16,
    i: u16,
    stack: CallStack,
    delay_timer: u8,
    sound_timer: u8,
    v: [u8; 16],
    display: Display,
    quirks: Quirks,
}

/// The instructions that move the program counter, read the keypad or draw.
spec fn is_flow(instruction: Instruction) -> bool {
    match instruction {
        Instruction::ClearScreen
        | Instruction::Return
        | Instruction::Jump { .. }
        | Instruction::Call { .. }
        | Instruction::SkipIfEqual { .. }
        | Instruction::SkipIfNotEqual { .. }
        | Instruction::SkipIfRegistersEqual { .. }
        | Instruction::SkipIfRegistersDiffer { .. }
        | Instruction::JumpOffset { .. }
        | Instruction::Draw { .. }
        | Instruction::SkipIfKey { .. }
        | Instruction::SkipIfNotKey { .. }
        | Instruction::WaitKey { .. } => true,
        _ => false,
    }
}

/// The instructions that store a value in one register and leave the flag
/// register alone.
spec fn is_move(instruction: Instruction) -> bool {
    match instruction {
        Instruction::Load { .. }
        | Instruction::AddByte { .. }
        | Instruction::Copy { .. }
        | Instruction::Or { .. }
        | Instruction::And { .. }
        | Instruction::Xor { .. }
        | Instruction::Random { .. }
        | Instruction::ReadDelay { .. } => true,
        _ => false,
    }
}

/// The instructions that also set the flag register.
spec fn is_flagged(instruction: Instruction) -> bool {
    match instruction {
        Instruction::Add { .. }
        | Instruction::Subtract { .. }
        | Instruction::ShiftRight { .. }
        | Instruction::SubtractFrom { .. }
        | Instruction::ShiftLeft { .. } => true,
        _ => false,
    }
}

/// The instructions that set the index register or a timer, or move bytes
/// between the registers and memory.
spec fn is_memory(instruction: Instruction) -> bool {
    match instruction {
        Instruction::LoadIndex { .. }
        | Instruction::SetDelay { .. }
        | Instruction::SetSound { .. }
        | Instruction::AddIndex { .. }
        | Instruction::Glyph { .. }
        | Instruction::Decimal { .. }
        | Instruction::Store { .. }
        | Instruction::Restore { .. } => true,
        _ => false,
    }
}

impl View for Chip8 {
    type V = MachineState;

    closed spec fn view(&self) -> MachineState {
        MachineState {
            memory: self.memory@,
            v: self.v@,
            i: self.i,
            pc: self.pc,
            stack: self.stack@,
            delay_timer: self.delay_timer,
            sound_timer: self.sound_timer,
            display: self.display@,
            quirks: self.quirks,
        }
    }
}

impl Chip8 {
    /// Every machine stands for a well-formed state: its stack is bounded
    /// and its display valid.
    proof fn lemma_wf(&self)
        requires
            self.stack.bounded(),
            self.display.valid(),
        ensures
            self@.wf(),
    {
        self.stack.lemma_bounded();
        self.display.lemma_valid();
    }

    /// A machine with the font in memory, ready to run a program loaded at
    /// `PROGRAM_START`, with shifts in place and sprites clipped at the
    /// bottom edge.
    pub fn new() -> (chip8: Chip8)
        ensures
            chip8@ == MachineState::initial(Quirks::standard()),
            chip8@.wf(),
    {
        Chip8::with_quirks(Quirks::default())
    }

    /// A machine like that of [`Chip8::new`], of the variant that `quirks`
    /// describes.
    pub fn with_quirks(quirks: Quirks) -> (chip8: Chip8)
        ensures
            chip8@ == MachineState::initial(quirks),
            chip8@.wf(),
    {
        let display = Display::new();
        let mut chip8 = Chip8 {
            memory: [0;4096],
            pc: PROGRAM_START,
            i: 0,
            stack: CallStack::new(),
            delay_timer: 0,
            sound_timer: 0,
            v: [0;16],
            display,
            quirks,
        };
        assert(chip8.memory@ =~= Seq::new(4096, |addr: int| 0u8));
        chip8.load_font();
        assert(chip8@ =~= MachineState::initial(quirks));
        chip8
    }

    /// Writes the glyphs of the font to the 80 bytes from `FONT_START` on.
    fn load_font(&mut self)
        ensures
            final(self)@ == (MachineState { memory: with_font(old(self)@.memory), ..old(self)@ }),
    {
        let mut k: usize = 0;
        while k < FONT_SIZE
            invariant
                k <= FONT_SIZE,
                forall|addr: int|
                    0 <= addr < 4096 ==> self.memory@[addr] == if FONT_START <= addr < FONT_START
                        + k {
                        FONT[addr - FONT_START]
                    } else {
                        old(self).memory@[addr]
                    },
                self.v == old(self).v,
                self.i == old(self).i,
                self.pc == old(self).pc,
                self.stack == old(self).stack,
                self.delay_timer == old(self).delay_timer,
                self.sound_timer == old(self).sound_timer,
                self.display == old(self).display,
                self.quirks == old(self).quirks,
            decreases FONT_SIZE - k,
        {
            self.memory[FONT_START as usize + k] = FONT[k];
            k += 1;
        }
        assert(self.memory@ =~= with_font(old(self).memory@));
    }

    /// Writes `program` to memory from `PROGRAM_START` on. A program that
    /// does not fit is refused and nothing changes.
    pub fn load_cartridge(&mut self, program: &[u8]) -> (result: Result<(), Chip8Error>)
        ensures
            outcome(old(self)@.loaded(program@), old(self)@, result, final(self)@),
            final(self)@.wf(),
    {
        proof {
            use_type_invariant(&self.stack);
            use_type_invariant(&self.display);
            self.lemma_wf();
        }
        let start = PROGRAM_START as usize;
        let length = program.len();
        if length > MEMORY_SIZE - start {
            return Err(Chip8Error::OutOfBounds);
        }
        let mut k: usize = 0;
        while k < length
            invariant
                k <= length,
                length == program@.len(),
                start == 0x200,
                start + length <= 4096,
                self.memory@ == write_bytes(old(self).memory@, 0x200, program@.subrange(0, k as int)),
                self.v == old(self).v,
                self.i == old(self).i,
                self.pc == old(self).pc,
                self.stack == old(self).stack,
                self.delay_timer == old(self).delay_timer,
                self.sound_timer == old(self).sound_timer,
                self.display == old(self).display,
                self.quirks == old(self).quirks,
            decreases length - k,
        {
            self.memory[start + k] = program[k];
            k += 1;
            assert(self.memory@ =~= write_bytes(
                old(self).memory@,
                0x200,
                program@.subrange(0, k as int),
            ));
        }
        assert(program@.subrange(0, length as int) =~= program@);
        Ok(())
    }

    /// The program counter.
    pub fn pc(&self) -> (pc: u16)
        ensures
            pc == self@.pc,
    {
        self.pc
    }

    /// The index register.
    pub fn i(&self) -> (i: u16)
        ensures
            i == self@.i,
    {
        self.i
    }

    /// The sixteen registers `V0` to `VF`.
    pub fn registers(&self) -> (v: &[u8; 16])
        ensures
            v@ == self@.v,
    {
        &self.v
    }

    /// The 4096 bytes of memory.
    pub fn memory(&self) -> (memory: &[u8; 4096])
        ensures
            memory@ == self@.memory,
    {
        &self.memory
    }

    /// The number of return addresses on the call stack.
    pub fn stack_depth(&self) -> (depth: usize)
        ensures
            depth == self@.stack.len(),
            depth <= 16,
    {
        self.stack.depth()
    }

    /// The delay timer.
    pub fn delay_timer(&self) -> (value: u8)
        ensures
            value == self@.delay_timer,
    {
        self.delay_timer
    }

    /// The sound timer. The host sounds its tone while this is not zero.
    pub fn sound_timer(&self) -> (value: u8)
        ensures
            value == self@.sound_timer,
    {
        self.sound_timer
    }

    /// The variant of the machine.
    pub fn quirks(&self) -> (quirks: Quirks)
        ensures
            quirks == self@.quirks,
    {
        self.quirks
    }

    /// The framebuffer and the keypad.
    pub fn display(&self) -> (display: &Display)
        ensures
            display@ == self@.display,
    {
        &self.display
    }

    /// Latches the keypad for the cycles that follow: which keys are held
    /// down, and which key, if any, was newly pressed.
    pub fn set_keys(&mut self, held: [bool; 16], pressed: Option<u8>)
        ensures
            final(self)@ == (MachineState {
                display: DisplayState {
                    held: held@,
                    pressed: keypad_key(pressed),
                    ..old(self)@.display
                },
                ..old(self)@
            }),
            final(self)@.wf(),
    {
        self.display.set_keys(held, pressed);
        proof {
            use_type_invariant(&self.stack);
            use_type_invariant(&self.display);
            self.lemma_wf();
        }
    }

    /// Hands out the frame to present and marks the picture as presented.
    pub fn present(&mut self) -> (frame: Vec<u32>)
        ensures
            frame@ == frame_of(old(self)@.display.pixels),
            final(self)@ == (MachineState {
                display: DisplayState { dirty: false, ..old(self)@.display },
                ..old(self)@
            }),
            final(self)@.wf(),
    {
        let frame = self.display.update();
        proof {
            use_type_invariant(&self.stack);
            use_type_invariant(&self.display);
            self.lemma_wf();
        }
        frame
    }

    /// Calls the subroutine at `addr`: the program counter goes on the
    /// stack and execution continues at `addr`.
    fn call(&mut self, addr: u16) -> (result: Result<(), Chip8Error>)
        ensures
            outcome(
                old(self)@.applied(Instruction::Call { addr }, 0),
                old(self)@,
                result,
                final(self)@,
            ),
    {
        match self.stack.push(self.pc) {
            Ok(()) => {
                self.pc = addr;
                Ok(())
            },
            Err(error) => Err(error),
        }
    }

    /// Returns from a subroutine to the address on top of the stack.
    fn ret(&mut self) -> (result: Result<(), Chip8Error>)
        ensures
            outcome(old(self)@.applied(Instruction::Return, 0), old(self)@, result, final(self)@),
    {
        match self.stack.pop() {
            Ok(addr) => {
                self.pc = addr;
                Ok(())
            },
            Err(error) => Err(error),
        }
    }

    /// Turns every pixel off.
    fn clear_screen(&mut self)
        ensures
            final(self)@ == (MachineState {
                display: DisplayState {
                    pixels: DisplayState::blank().pixels,
                    ..old(self)@.display
                },
                ..old(self)@
            }),
    {
        self.display.clear();
    }

    /// Continues at `addr`.
    fn jump(&mut self, addr: u16)
        ensures
            final(self)@ == (MachineState { pc: addr, ..old(self)@ }),
    {
        self.pc = addr;
    }

    /// Sets the index register.
    fn set_index(&mut self, value: u16)
        ensures
            final(self)@ == (MachineState { i: value, ..old(self)@ }),
    {
        self.i = value;
    }

    /// Sets the delay timer.
    fn set_delay(&mut self, value: u8)
        ensures
            final(self)@ == (MachineState { delay_timer: value, ..old(self)@ }),
    {
        self.delay_timer = value;
    }

    /// Sets the sound timer.
    fn set_sound(&mut self, value: u8)
        ensures
            final(self)@ == (MachineState { sound_timer: value, ..old(self)@ }),
    {
        self.sound_timer = value;
    }

    /// Skips the next instruction if the key that register `x` names is
    /// held down, for `expected` true, or is not, for `expected` false. A
    /// value that names no key of the keypad is refused.
    fn skip_on_key(&mut self, x: usize, expected: bool) -> (result: Result<(), Chip8Error>)
        requires
            x < 16,
        ensures
            outcome(
                if old(self)@.v[x as int] >= 16 {
                    Err(Chip8Error::OutOfBounds)
                } else {
                    Ok(
                        old(self)@.skip_if(
                            old(self)@.display.held[old(self)@.v[x as int] as int] == expected,
                        ),
                    )
                },
                old(self)@,
                result,
                final(self)@,
            ),
    {
        let key = self.v[x];
        if key >= 16 {
            return Err(Chip8Error::OutOfBounds);
        }
        self.skip_if(self.display.check_key(key) == expected);
        Ok(())
    }

    /// Stores the newly pressed key in register `x`; with no key pressed,
    /// moves the program counter back so that the instruction runs again.
    fn wait_key(&mut self, x: usize)
        requires
            x < 16,
        ensures
            final(self)@ == match old(self)@.display.pressed {
                Some(key) => old(self)@.with_register(x as int, key),
                None => old(self)@.rewound(),
            },
    {
        match self.display.get_key() {
            Ok(code) => {
                self.set_register(x, code);
            },
            Err(_) => {
                self.pc = self.pc.wrapping_sub(2);
            },
        }
    }

    /// Moves the program counter past the next instruction.
    fn skip(&mut self)
        ensures
            final(self)@ == old(self)@.advanced(),
    {
        self.pc = self.pc.wrapping_add(2);
    }

    /// Skips the next instruction if `condition` holds.
    fn skip_if(&mut self, condition: bool)
        ensures
            final(self)@ == old(self)@.skip_if(condition),
    {
        if condition {
            self.skip();
        }
    }

    /// The register that a shift instruction reads.
    fn shift_source(&self, x: usize, y: usize) -> (source: u8)
        requires
            x < 16,
            y < 16,
        ensures
            source == self@.shift_source(x as int, y as int),
    {
        if self.quirks.shift_uses_vy {
            self.v[y]
        } else {
            self.v[x]
        }
    }

    /// Stores `value` in register `x`.
    fn set_register(&mut self, x: usize, value: u8)
        requires
            x < 16,
        ensures
            final(self)@ == old(self)@.with_register(x as int, value),
    {
        self.v[x] = value;
    }

    /// Stores `value` in register `x` and then `flag` in the flag register.
    fn set_flagged(&mut self, x: usize, value: u8, flag: bool)
        requires
            x < 16,
        ensures
            final(self)@ == old(self)@.with_flagged(x as int, value, flag),
    {
        self.v[x] = value;
        self.v[FLAG] = if flag { 1 } else { 0 };
        assert(self.v@ =~= old(self).v@.update(x as int, value).update(
            0xF,
            if flag { 1u8 } else { 0u8 },
        ));
    }

    /// Stores `left + right`, wrapping, in register `x`, and then in the flag
    /// register whether the sum overflowed.
    fn add_with_carry(&mut self, x: usize, left: u8, right: u8)
        requires
            x < 16,
        ensures
            final(self)@ == old(self)@.with_flagged(
                x as int,
                wrap8(left + right),
                left + right > 0xFF,
            ),
    {
        let overflow = right > 0xFF - left;
        let sum = left.wrapping_add(right);
        assert(sum == wrap8(left + right));
        self.set_flagged(x, sum, overflow);
    }

    /// Stores `left - right`, wrapping, in register `x`, and then in the flag
    /// register whether the difference did not underflow.
    fn subtract_with_borrow(&mut self, x: usize, left: u8, right: u8)
        requires
            x < 16,
        ensures
            final(self)@ == old(self)@.with_flagged(
                x as int,
                wrap8(left - right),
                left - right >= 0,
            ),
    {
        let underflow = left < right;
        let difference = left.wrapping_sub(right);
        assert(difference == wrap8(left - right));
        self.set_flagged(x, difference, !underflow);
    }

    /// Draws the sprite of `n` rows found at the index register at the
    /// place that registers `vx` and `vy` give, sets the flag register to
    /// tell of a collision, and asks for the picture to be presented.
    fn draw(&mut self, vx: usize, vy: usize, n: usize) -> (result: Result<(), Chip8Error>)
        requires
            vx < 16,
            vy < 16,
            n < 16,
        ensures
            outcome(
                old(self)@.applied(Instruction::Draw { x: vx as u8, y: vy as u8, rows: n as u8 }, 0),
                old(self)@,
                result,
                final(self)@,
            ),
    {
        let (x, y) = (self.v[vx] as usize, self.v[vy] as usize);
        let base = self.i as usize;
        if n > 0 && base + n > MEMORY_SIZE {
            return Err(Chip8Error::OutOfBounds);
        }
        let wrap = self.quirks.wrap_rows;
        let ghost before = self.display@.pixels;
        let ghost rows = if n == 0 {
            Seq::<u8>::empty()
        } else {
            self.memory@.subrange(base as int, base + n)
        };
        self.v[FLAG] = 0;
        let mut i: usize = 0;
        while i < n
            invariant
                i <= n,
                n < 16,
                x < 256,
                y < 256,
                base == self.i,
                n > 0 ==> base + n <= 4096,
                wrap == self.quirks.wrap_rows,
                before == old(self).display@.pixels,
                rows.len() == n,
                forall|k: int| 0 <= k < n ==> rows[k] == self.memory@[base + k],
                self.display@ == (DisplayState {
                    pixels: draw_pixels(before, x as int, y as int, rows.subrange(0, i as int), wrap),
                    ..old(self).display@
                }),
                self.v@ == old(self).v@.update(
                    0xF,
                    if draw_collides(before, x as int, y as int, rows.subrange(0, i as int), wrap) {
                        1u8
                    } else {
                        0u8
                    },
                ),
                self.memory == old(self).memory,
                self.i == old(self).i,
                self.pc == old(self).pc,
                self.stack == old(self).stack,
                self.delay_timer == old(self).delay_timer,
                self.sound_timer == old(self).sound_timer,
                self.quirks == old(self).quirks,
            decreases n - i,
        {
            let bytes = self.memory[base + i];
            let line = if wrap { (y + i) % 32 } else { y + i };
            proof {
                let next = rows.subrange(0, i + 1);
                assert(next.drop_last() =~= rows.subrange(0, i as int));
                assert(next.last() == bytes);
                assert(line == sprite_line(y as int, i as int, wrap));
            }
            match self.display.fill(x, line, bytes) {
                Ok(collision) => if collision {
                    self.v[FLAG] = 1
                },
                Err(HeightError) => (),
            }
            i += 1;
        }
        self.display.request_update();
        proof {
            assert(rows.subrange(0, n as int) =~= rows);
            assert(self@ =~= old(self)@.applied(
                Instruction::Draw { x: vx as u8, y: vy as u8, rows: n as u8 },
                0,
            )->Ok_0);
        }
        Ok(())
    }

    /// Writes the three decimal digits of register `x` to memory at the
    /// index register.
    fn store_decimal(&mut self, x: usize) -> (result: Result<(), Chip8Error>)
        requires
            x < 16,
        ensures
            outcome(
                old(self)@.applied(Instruction::Decimal { x: x as u8 }, 0),
                old(self)@,
                result,
                final(self)@,
            ),
    {
        let base = self.i as usize;
        if base + 3 > MEMORY_SIZE {
            return Err(Chip8Error::OutOfBounds);
        }
        let value = self.v[x];
        self.memory[base] = value / 100;
        self.memory[base + 1] = value / 10 % 10;
        self.memory[base + 2] = value % 10;
        assert(self.memory@ =~= write_bytes(old(self).memory@, base as int, decimal_digits(value)));
        Ok(())
    }

    /// Writes registers `V0` to `V[x]` to memory at the index register.
    fn store_registers(&mut self, x: usize) -> (result: Result<(), Chip8Error>)
        requires
            x < 16,
        ensures
            outcome(
                old(self)@.applied(Instruction::Store { x: x as u8 }, 0),
                old(self)@,
                result,
                final(self)@,
            ),
    {
        let base = self.i as usize;
        if base + x + 1 > MEMORY_SIZE {
            return Err(Chip8Error::OutOfBounds);
        }
        let mut k: usize = 0;
        while k <= x
            invariant
                k <= x + 1,
                x < 16,
                base + x + 1 <= 4096,
                self.memory@ == write_bytes(old(self).memory@, base as int, self.v@.subrange(0, k as int)),
                self.v == old(self).v,
                self.i == old(self).i,
                self.pc == old(self).pc,
                self.stack == old(self).stack,
                self.delay_timer == old(self).delay_timer,
                self.sound_timer == old(self).sound_timer,
                self.display == old(self).display,
                self.quirks == old(self).quirks,
            decreases x + 1 - k,
        {
            self.memory[base + k] = self.v[k];
            k += 1;
            assert(self.memory@ =~= write_bytes(
                old(self).memory@,
                base as int,
                self.v@.subrange(0, k as int),
            ));
        }
        Ok(())
    }

    /// Reads registers `V0` to `V[x]` from memory at the index register.
    fn load_registers(&mut self, x: usize) -> (result: Result<(), Chip8Error>)
        requires
            x < 16,
        ensures
            outcome(
                old(self)@.applied(Instruction::Restore { x: x as u8 }, 0),
                old(self)@,
                result,
                final(self)@,
            ),
    {
        let base = self.i as usize;
        if base + x + 1 > MEMORY_SIZE {
            return Err(Chip8Error::OutOfBounds);
        }
        let mut k: usize = 0;
        while k <= x
            invariant
                k <= x + 1,
                x < 16,
                base + x + 1 <= 4096,
                forall|r: int|
                    0 <= r < 16 ==> self.v@[r] == if r < k {
                        self.memory@[base + r]
                    } else {
                        old(self).v@[r]
                    },
                self.memory == old(self).memory,
                self.i == old(self).i,
                self.pc == old(self).pc,
                self.stack == old(self).stack,
                self.delay_timer == old(self).delay_timer,
                self.sound_timer == old(self).sound_timer,
                self.display == old(self).display,
                self.quirks == old(self).quirks,
            decreases x + 1 - k,
        {
            self.v[k] = self.memory[base + k];
            k += 1;
        }
        assert(self@ =~= old(self)@.applied(Instruction::Restore { x: x as u8 }, 0)->Ok_0);
        Ok(())
    }

    /// Carries out an instruction that moves the program counter, reads the
    /// keypad or draws. Any other instruction is refused.
    fn execute_flow(&mut self, instruction: Instruction) -> (result: Result<(), Chip8Error>)
        requires
            instruction.wf(),
        ensures
            is_flow(instruction) ==> outcome(
                old(self)@.applied(instruction, 0),
                old(self)@,
                result,
                final(self)@,
            ),
            !is_flow(instruction) ==> result is Err && final(self)@ == old(self)@,
    {
        match instruction {
            Instruction::ClearScreen => {
                self.clear_screen();
                Ok(())
            },
            Instruction::Return => self.ret(),
            Instruction::Jump { addr } => {
                self.jump(addr);
                Ok(())
            },
            Instruction::Call { addr } => self.call(addr),
            Instruction::SkipIfEqual { x, byte } => {
                self.skip_if(self.v[x as usize] == byte);
                Ok(())
            },
            Instruction::SkipIfNotEqual { x, byte } => {
                self.skip_if(self.v[x as usize] != byte);
                Ok(())
            },
            Instruction::SkipIfRegistersEqual { x, y } => {
                self.skip_if(self.v[x as usize] == self.v[y as usize]);
                Ok(())
            },
            Instruction::SkipIfRegistersDiffer { x, y } => {
                self.skip_if(self.v[x as usize] != self.v[y as usize]);
                Ok(())
            },
            Instruction::JumpOffset { addr } => {
                self.jump((self.v[0] as u16).wrapping_add(addr));
                Ok(())
            },
            Instruction::Draw { x, y, rows } => self.draw(x as usize, y as usize, rows as usize),
            Instruction::SkipIfKey { x } => self.skip_on_key(x as usize, true),
            Instruction::SkipIfNotKey { x } => self.skip_on_key(x as usize, false),
            Instruction::WaitKey { x } => {
                self.wait_key(x as usize);
                Ok(())
            },
            _ => Err(Chip8Error::InvalidOpcode),
        }
    }

    /// Carries out an instruction that stores a value in one register and
    /// leaves the flag register alone, with `random` as the byte that chance
    /// provides. Any other instruction is refused.
    fn execute_move(&mut self, instruction: Instruction, random: u8) -> (result: Result<
        (),
        Chip8Error,
    >)
        requires
            instruction.wf(),
        ensures
            is_move(instruction) ==> outcome(
                old(self)@.applied(instruction, random),
                old(self)@,
                result,
                final(self)@,
            ),
            !is_move(instruction) ==> result is Err && final(self)@ == old(self)@,
    {
        match instruction {
            Instruction::Load { x, byte } => {
                self.set_register(x as usize, byte);
                Ok(())
            },
            Instruction::AddByte { x, byte } => {
                self.set_register(x as usize, self.v[x as usize].wrapping_add(byte));
                Ok(())
            },
            Instruction::Copy { x, y } => {
                self.set_register(x as usize, self.v[y as usize]);
                Ok(())
            },
            Instruction::Or { x, y } => {
                self.set_register(x as usize, self.v[x as usize] | self.v[y as usize]);
                Ok(())
            },
            Instruction::And { x, y } => {
                self.set_register(x as usize, self.v[x as usize] & self.v[y as usize]);
                Ok(())
            },
            Instruction::Xor { x, y } => {
                self.set_register(x as usize, self.v[x as usize] ^ self.v[y as usize]);
                Ok(())
            },
            Instruction::Random { x, byte } => {
                self.set_register(x as usize, random & byte);
                Ok(())
            },
            Instruction::ReadDelay { x } => {
                self.set_register(x as usize, self.delay_timer);
                Ok(())
            },
            _ => Err(Chip8Error::InvalidOpcode),
        }
    }

    /// Carries out an instruction that stores a value in one register and
    /// a carry, a borrow or a shifted-out bit in the flag register. Any
    /// other instruction is refused.
    fn execute_flagged(&mut self, instruction: Instruction) -> (result: Result<(), Chip8Error>)
        requires
            instruction.wf(),
        ensures
            is_flagged(instruction) ==> outcome(
                old(self)@.applied(instruction, 0),
                old(self)@,
                result,
                final(self)@,
            ),
            !is_flagged(instruction) ==> result is Err && final(self)@ == old(self)@,
    {
        match instruction {
            Instruction::Add { x, y } => {
                self.add_with_carry(x as usize, self.v[x as usize], self.v[y as usize]);
                Ok(())
            },
            Instruction::Subtract { x, y } => {
                self.subtract_with_borrow(x as usize, self.v[x as usize], self.v[y as usize]);
                Ok(())
            },
            Instruction::ShiftRight { x, y } => {
                let source = self.shift_source(x as usize, y as usize);
                let bottom_bit = source % 2;
                assert(source >> 1u8 == source / 2) by (bit_vector);
                self.set_flagged(x as usize, source >> 1, bottom_bit == 1);
                Ok(())
            },
            Instruction::SubtractFrom { x, y } => {
                self.subtract_with_borrow(x as usize, self.v[y as usize], self.v[x as usize]);
                Ok(())
            },
            Instruction::ShiftLeft { x, y } => {
                let source = self.shift_source(x as usize, y as usize);
                let top_bit = source / 0x80;
                assert(source << 1u8 == (source * 2) % 0x100) by (bit_vector);
                self.set_flagged(x as usize, source << 1, top_bit == 1);
                Ok(())
            },
            _ => Err(Chip8Error::InvalidOpcode),
        }
    }

    /// Carries out an instruction that sets the index register or a timer,
    /// or moves bytes between the registers and memory. Any other
    /// instruction is refused.
    fn execute_memory(&mut self, instruction: Instruction) -> (result: Result<(), Chip8Error>)
        requires
            instruction.wf(),
        ensures
            is_memory(instruction) ==> outcome(
                old(self)@.applied(instruction, 0),
                old(self)@,
                result,
                final(self)@,
            ),
            !is_memory(instruction) ==> result is Err && final(self)@ == old(self)@,
    {
        match instruction {
            Instruction::LoadIndex { addr } => {
                self.set_index(addr);
                Ok(())
            },
            Instruction::SetDelay { x } => {
                self.set_delay(self.v[x as usize]);
                Ok(())
            },
            Instruction::SetSound { x } => {
                self.set_sound(self.v[x as usize]);
                Ok(())
            },
            Instruction::AddIndex { x } => {
                self.set_index(self.i.wrapping_add(self.v[x as usize] as u16));
                Ok(())
            },
            Instruction::Glyph { x } => {
                self.set_index(FONT_START + self.v[x as usize] as u16 * GLYPH_SIZE);
                Ok(())
            },
            Instruction::Decimal { x } => self.store_decimal(x as usize),
            Instruction::Store { x } => self.store_registers(x as usize),
            Instruction::Restore { x } => self.load_registers(x as usize),
            _ => Err(Chip8Error::InvalidOpcode),
        }
    }

    /// Carries out `instruction`, with `random` as the byte that chance
    /// provides. The program counter already points past the instruction.
    fn execute(&mut self, instruction: Instruction, random: u8) -> (result: Result<(), Chip8Error>)
        requires
            instruction.wf(),
        ensures
            outcome(old(self)@.applied(instruction, random), old(self)@, result, final(self)@),
    {
        match instruction {
            Instruction::Load { .. }
            | Instruction::AddByte { .. }
            | Instruction::Copy { .. }
            | Instruction::Or { .. }
            | Instruction::And { .. }
            | Instruction::Xor { .. }
            | Instruction::Random { .. }
            | Instruction::ReadDelay { .. } => self.execute_move(instruction, random),
            Instruction::Add { .. }
            | Instruction::Subtract { .. }
            | Instruction::ShiftRight { .. }
            | Instruction::SubtractFrom { .. }
            | Instruction::ShiftLeft { .. } => self.execute_flagged(instruction),
            Instruction::LoadIndex { .. }
            | Instruction::SetDelay { .. }
            | Instruction::SetSound { .. }
            | Instruction::AddIndex { .. }
            | Instruction::Glyph { .. }
            | Instruction::Decimal { .. }
            | Instruction::Store { .. }
            | Instruction::Restore { .. } => self.execute_memory(instruction),
            _ => {
                let result = self.execute_flow(instruction);
                assert(is_flow(instruction));
                result
            },
        }
    }

    /// Carries out the instruction that `opcode` stands for, with `random`
    /// as the byte that chance provides. The program counter already points
    /// past the instruction. A word that is no instruction, and an
    /// instruction that fails, leave the machine as it was.
    pub fn execute_with(&mut self, opcode: u16, random: u8) -> (result: Result<(), Chip8Error>)
        ensures
            outcome(old(self)@.executed(opcode, random), old(self)@, result, final(self)@),
            final(self)@.wf(),
    {
        proof {
            lemma_decoded_wf(opcode);
        }
        let result = match decode(opcode) {
            Some(instruction) => self.execute(instruction, random),
            None => Err(Chip8Error::InvalidOpcode),
        };
        proof {
            use_type_invariant(&self.stack);
            use_type_invariant(&self.display);
            self.lemma_wf();
        }
        result
    }

    /// Carries out the instruction that `opcode` stands for, drawing a
    /// random byte where the instruction asks for one. What happens is what
    /// [`Chip8::execute_with`] does for some byte.
    pub fn execute_opcode(&mut self, opcode: u16) -> (result: Result<(), Chip8Error>)
        ensures
            exists|random: u8| #[trigger]
                outcome(old(self)@.executed(opcode, random), old(self)@, result, final(self)@),
            opcode / 0x1000 != 0xC ==> outcome(
                old(self)@.executed(opcode, 0),
                old(self)@,
                result,
                final(self)@,
            ),
            final(self)@.wf(),
    {
        assert(opcode >> 12u16 == opcode / 0x1000) by (bit_vector);
        let random = if opcode >> 12 == 0xC {
            random_byte()
        } else {
            0
        };
        self.execute_with(opcode, random)
    }

    /// The word at the program counter, high byte first, if both of its
    /// bytes lie in memory.
    fn fetch(&self) -> (opcode: Option<u16>)
        ensures
            opcode == self@.fetched(),
    {
        if self.pc as usize + 1 < MEMORY_SIZE {
            let high = self.memory[self.pc as usize] as u16;
            let low = self.memory[self.pc as usize + 1] as u16;
            assert((high << 8u16) | low == high * 0x100 + low) by (bit_vector)
                requires
                    high < 0x100,
                    low < 0x100,
            ;
            Some((high << 8) | low)
        } else {
            None
        }
    }

    /// Whether the next cycle asks chance for a byte.
    fn needs_chance(&self) -> (needed: bool)
        ensures
            needed == self@.needs_chance(),
    {
        match self.fetch() {
            Some(opcode) => {
                assert(opcode >> 12u16 == opcode / 0x1000) by (bit_vector);
                opcode >> 12 == 0xC
            },
            None => false,
        }
    }

    /// Ends a cycle whose instruction gave `executed`: on success both
    /// timers count down by one, on failure the program counter goes back to
    /// the instruction that failed.
    fn finish(&mut self, executed: Result<(), Chip8Error>) -> (result: Result<(), Chip8Error>)
        requires
            old(self)@.pc >= 2 || executed is Ok,
        ensures
            result == executed,
            executed is Ok ==> final(self)@ == old(self)@.ticked(),
            executed is Err ==> final(self)@ == (MachineState {
                pc: (old(self)@.pc - 2) as u16,
                ..old(self)@
            }),
    {
        match executed {
            Ok(()) => {
                self.delay_timer = self.delay_timer.saturating_sub(1);
                self.sound_timer = self.sound_timer.saturating_sub(1);
            },
            Err(_) => {
                self.pc = self.pc - 2;
            },
        }
        executed
    }

    /// Runs one cycle with `random` as the byte that chance provides:
    /// fetches the word at the program counter, moves the program counter
    /// past it, carries the instruction out, and lets both timers count down
    /// by one, stopping at zero. On a failure the machine is left as it was
    /// before the cycle.
    pub fn cycle_with(&mut self, random: u8) -> (result: Result<(), Chip8Error>)
        ensures
            outcome(old(self)@.cycled(random), old(self)@, result, final(self)@),
            final(self)@.wf(),
    {
        proof {
            use_type_invariant(&self.stack);
            use_type_invariant(&self.display);
            self.lemma_wf();
        }
        match self.fetch() {
            Some(opcode) => {
                self.pc = self.pc + 2;
                let executed = self.execute_with(opcode, random);
                let result = self.finish(executed);
                proof {
                    if let Ok(next) = old(self)@.cycled(random) {
                        assert(self@ =~= next);
                    } else {
                        assert(self@ =~= old(self)@);
                    }
                }
                result
            },
            None => Err(Chip8Error::OutOfBounds),
        }
    }

    /// Runs one cycle, drawing a random byte where the word at the program
    /// counter asks for one. What happens is what [`Chip8::cycle_with`] does
    /// for some byte.
    pub fn cycle(&mut self) -> (result: Result<(), Chip8Error>)
        ensures
            exists|random: u8| #[trigger]
                outcome(old(self)@.cycled(random), old(self)@, result, final(self)@),
            !old(self)@.needs_chance() ==> outcome(
                old(self)@.cycled(0),
                old(self)@,
                result,
                final(self)@,
            ),
            final(self)@.wf(),
    {
        let random = if self.needs_chance() {
            random_byte()
        } else {
            0
        };
        self.cycle_with(random)
    }
}

} // verus!
