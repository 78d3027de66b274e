//! The 64x32 monochrome framebuffer and the latched state of the 16-key
//! keypad.
//!
//! Pixels are stored row by row; the cell in column `x` of row `y` has index
//! `y * 64 + x`. Sprites are drawn one 8-pixel row at a time by XOR, wrapping
//! at the right edge of the screen.

use vstd::prelude::*;
use crate::utility::{bit_at, byte_to_bools};

verus! {

/// Number of pixel columns.
pub const WIDTH: usize = 64;

/// Number of pixel rows.
pub const HEIGHT: usize = 32;

/// Number of keys on the keypad.
pub const KEYS: usize = 16;

/// Colour handed to the renderer for a lit pixel.
pub const LIT: u32 = 0xFFFFFF;

/// Colour handed to the renderer for a dark pixel.
pub const DARK: u32 = 0x000000;

/// A sprite row was aimed below the bottom edge of the screen.
#[derive(Clone, Copy, Debug, PartialEq, Eq)]
pub struct HeightError;

/// No key of the keypad was pressed.
#[derive(Clone, Copy, Debug, PartialEq, Eq)]
pub struct NoKeysError;

/// What a [`Display`] stands for: the pixel grid, whether a frame is waiting
/// to be presented, and the keypad as it was last latched.
#[verifier::ext_equal]
pub struct DisplayState {
    /// The 2048 cells, row by row; `true` is a lit pixel.
    pub pixels: Seq<bool>,
    /// A sprite was drawn since the last frame was handed out.
    pub dirty: bool,
    /// For each of the 16 keys, whether it is held down.
    pub held: Seq<bool>,
    /// The key that was newly pressed, if any.
    pub pressed: Option<u8>,
}

impl DisplayState {
    /// The grid has 2048 cells, the keypad 16 keys, and a pressed key is one
    /// of them.
    pub open spec fn wf(self) -> bool {
        &&& self.pixels.len() == 2048
        &&& self.held.len() == 16
        &&& (self.pressed matches Some(key) ==> key < 16)
    }

    /// The cell in column `x` of row `y`.
    pub open spec fn pixel(self, x: int, y: int) -> bool {
        self.pixels[y * 64 + x]
    }

    /// The state of a display that was just created.
    pub open spec fn blank() -> DisplayState {
        DisplayState {
            pixels: Seq::new(2048, |idx: int| false),
            dirty: false,
            held: Seq::new(16, |key: int| false),
            pressed: None,
        }
    }
}

/// How many columns `column` lies to the right of `x`, wrapping at the right
/// edge: a value in `0..64`.
pub open spec fn column_offset(column: int, x: int) -> int {
    (column - x) % 64
}

/// The `i`-th pixel of a sprite row, counted from the left: the most
/// significant bit comes first.
pub open spec fn sprite_bit(row: u8, i: int) -> bool {
    bit_at(row, 7 - i)
}

/// The grid after the first `count` pixels of `row` were XORed into row `y`,
/// starting at column `x` and wrapping at the right edge.
pub open spec fn blit_bits(pixels: Seq<bool>, x: int, y: int, row: u8, count: int) -> Seq<bool> {
    Seq::new(
        pixels.len(),
        |idx: int|
            if idx / 64 == y && column_offset(idx % 64, x) < count {
                pixels[idx] != sprite_bit(row, column_offset(idx % 64, x))
            } else {
                pixels[idx]
            },
    )
}

/// The grid after one whole sprite row was drawn at (`x`, `y`).
pub open spec fn blit(pixels: Seq<bool>, x: int, y: int, row: u8) -> Seq<bool> {
    blit_bits(pixels, x, y, row, 8)
}

/// Whether pixel `i` of `row` is set and lands on a cell that is lit.
pub open spec fn blit_hits_at(pixels: Seq<bool>, x: int, y: int, row: u8, i: int) -> bool {
    sprite_bit(row, i) && pixels[y * 64 + (x + i) % 64]
}

/// Whether one of the first `count` pixels of `row` is set and lands on a
/// cell that is lit.
pub open spec fn blit_hits(pixels: Seq<bool>, x: int, y: int, row: u8, count: int) -> bool {
    exists|i: int| 0 <= i < count && #[trigger] blit_hits_at(pixels, x, y, row, i)
}

/// Whether drawing `row` at (`x`, `y`) turns a lit pixel off: one of its
/// eight pixels is set and lands on a cell that is lit.
pub open spec fn blit_collides(pixels: Seq<bool>, x: int, y: int, row: u8) -> bool {
    ||| blit_hits_at(pixels, x, y, row, 0)
    ||| blit_hits_at(pixels, x, y, row, 1)
    ||| blit_hits_at(pixels, x, y, row, 2)
    ||| blit_hits_at(pixels, x, y, row, 3)
    ||| blit_hits_at(pixels, x, y, row, 4)
    ||| blit_hits_at(pixels, x, y, row, 5)
    ||| blit_hits_at(pixels, x, y, row, 6)
    ||| blit_hits_at(pixels, x, y, row, 7)
}

/// A row collides exactly when one of its eight pixels hits.
pub proof fn lemma_blit_collides(pixels: Seq<bool>, x: int, y: int, row: u8)
    ensures
        blit_collides(pixels, x, y, row) <==> blit_hits(pixels, x, y, row, 8),
{
    if blit_hits(pixels, x, y, row, 8) {
        let i = choose|i: int| 0 <= i < 8 && #[trigger] blit_hits_at(pixels, x, y, row, i);
        assert(blit_collides(pixels, x, y, row));
    }
}

/// The key that a latched code stands for: codes from 16 on are no key.
pub open spec fn keypad_key(pressed: Option<u8>) -> Option<u8> {
    match pressed {
        Some(key) => if key < 16 { Some(key) } else { None },
        None => None,
    }
}

/// The colours of a frame: one per cell, row by row.
pub open spec fn frame_of(pixels: Seq<bool>) -> Seq<u32> {
    Seq::new(pixels.len(), |idx: int| if pixels[idx] { LIT } else { DARK })
}

/// The framebuffer together with the keypad state that the host latched.
pub struct Display {
    buffer: [bool; 2048],
    dirty: bool,
    held: [bool; 16],
    pressed: Option<u8>,
}

impl View for Display {
    type V = DisplayState;

    closed spec fn view(&self) -> DisplayState {
        DisplayState {
            pixels: self.buffer@,
            dirty: self.dirty,
            held: self.held@,
            pressed: self.pressed,
        }
    }
}

impl Display {
    /// A pressed key is always one of the 16 keys of the keypad.
    #[verifier::type_invariant]
    pub closed spec fn valid(self) -> bool {
        self.pressed matches Some(key) ==> key < 16
    }

    /// A valid display stands for a well-formed state.
    pub proof fn lemma_valid(self)
        requires
            self.valid(),
        ensures
            self@.wf(),
    {
    }

    /// A dark screen with no key held or pressed.
    pub fn new() -> (display: Display)
        ensures
            display@ == DisplayState::blank(),
            display@.wf(),
    {
        let display = Display { buffer: [false;2048], dirty: false, held: [false;16], pressed: None };
        assert(display@ =~= DisplayState::blank());
        display
    }

    /// Turns every pixel off.
    pub fn clear(&mut self)
        ensures
            forall|idx: int| 0 <= idx < 2048 ==> !final(self)@.pixels[idx],
            final(self)@ == (DisplayState { pixels: DisplayState::blank().pixels, ..old(self)@ }),
    {
        proof {
            use_type_invariant(&*self);
        }
        self.buffer = [false;2048];
        assert(self@ =~= (DisplayState { pixels: DisplayState::blank().pixels, ..old(self)@ }));
    }

    /// Draws the eight pixels of `bytes`, most significant bit first, into
    /// row `y` starting at column `x`. Each pixel is XORed into its cell;
    /// columns past the right edge wrap to the left edge. The result tells
    /// whether a lit pixel was turned off. A row below the bottom edge is
    /// refused and nothing changes.
    pub fn fill(&mut self, x: usize, y: usize, bytes: u8) -> (result: Result<bool, HeightError>)
        ensures
            y >= 32 ==> result is Err && final(self)@ == old(self)@,
            y < 32 ==> result == Ok::<bool, HeightError>(
                blit_collides(old(self)@.pixels, x as int, y as int, bytes),
            ) && final(self)@ == (DisplayState {
                pixels: blit(old(self)@.pixels, x as int, y as int, bytes),
                ..old(self)@
            }),
    {
        proof {
            use_type_invariant(&*self);
        }
        if !(y < HEIGHT) {
            return Err(HeightError);
        }
        let byte_array = byte_to_bools(bytes);
        let mut collision = false;
        let ghost before = self.buffer@;
        assert(self.buffer@ =~= blit_bits(before, x as int, y as int, bytes, 0));
        let mut i: usize = 0;
        while i < 8
            invariant
                i <= 8,
                y < 32,
                before.len() == 2048,
                forall|k: int| 0 <= k < 8 ==> byte_array[k] == sprite_bit(bytes, k),
                self.buffer@ == blit_bits(before, x as int, y as int, bytes, i as int),
                collision == blit_hits(before, x as int, y as int, bytes, i as int),
                self.dirty == old(self).dirty,
                self.held == old(self).held,
                self.pressed == old(self).pressed,
                self.valid(),
            decreases 8 - i,
        {
            let px = (x % WIDTH + i) % WIDTH;
            let idx = y * WIDTH + px;
            proof {
                assert(px as int == (x + i) % 64);
                assert(idx / 64 == y && idx % 64 == px);
                assert(column_offset(px as int, x as int) == i);
            }
            if self.buffer[idx] && byte_array[i] {
                collision = true;
            }
            self.buffer[idx] = self.buffer[idx] != byte_array[i];
            proof {
                let next = blit_bits(before, x as int, y as int, bytes, i + 1);
                assert forall|c: int| 0 <= c < 2048 implies self.buffer@[c] == next[c] by {
                    if c != idx && c / 64 == y {
                        assert(c % 64 != px);
                    }
                }
                assert(self.buffer@ =~= next);
                if blit_hits(before, x as int, y as int, bytes, i + 1) {
                    let w = choose|w: int|
                        0 <= w < i + 1 && #[trigger] blit_hits_at(
                            before,
                            x as int,
                            y as int,
                            bytes,
                            w,
                        );
                    if w < i {
                        assert(blit_hits(before, x as int, y as int, bytes, i as int));
                    }
                }
                if collision {
                    if blit_hits(before, x as int, y as int, bytes, i as int) {
                        let w = choose|w: int|
                            0 <= w < i && #[trigger] blit_hits_at(
                                before,
                                x as int,
                                y as int,
                                bytes,
                                w,
                            );
                        assert(blit_hits_at(before, x as int, y as int, bytes, w));
                    } else {
                        assert(blit_hits_at(before, x as int, y as int, bytes, i as int));
                    }
                }
            }
            i += 1;
        }
        proof {
            lemma_blit_collides(before, x as int, y as int, bytes);
        }
        assert(self@ =~= (DisplayState {
            pixels: blit(old(self)@.pixels, x as int, y as int, bytes),
            ..old(self)@
        }));
        Ok(collision)
    }

    /// Whether the cell in column `x` of row `y` is lit.
    pub fn pixel(&self, x: usize, y: usize) -> (lit: bool)
        requires
            x < 64,
            y < 32,
        ensures
            lit == self@.pixel(x as int, y as int),
    {
        self.buffer[y * WIDTH + x]
    }

    /// Whether a sprite was drawn since the last frame was handed out.
    pub fn needs_update(&self) -> (dirty: bool)
        ensures
            dirty == self@.dirty,
    {
        self.dirty
    }

    /// Records that the picture changed and should be presented.
    pub fn request_update(&mut self)
        ensures
            final(self)@ == (DisplayState { dirty: true, ..old(self)@ }),
    {
        proof {
            use_type_invariant(&*self);
        }
        self.dirty = true;
    }

    /// Hands out the frame to present, one colour per cell and row by row,
    /// and marks the picture as presented.
    pub fn update(&mut self) -> (frame: Vec<u32>)
        ensures
            frame@ == frame_of(old(self)@.pixels),
            final(self)@ == (DisplayState { dirty: false, ..old(self)@ }),
    {
        proof {
            use_type_invariant(&*self);
        }
        let mut frame: Vec<u32> = Vec::with_capacity(WIDTH * HEIGHT);
        let mut idx: usize = 0;
        while idx < 2048
            invariant
                idx <= 2048,
                frame@.len() == idx,
                forall|k: int| 0 <= k < idx ==> frame@[k] == frame_of(self.buffer@)[k],
            decreases 2048 - idx,
        {
            frame.push(if self.buffer[idx] { LIT } else { DARK });
            idx += 1;
        }
        self.dirty = false;
        assert(frame@ =~= frame_of(old(self)@.pixels));
        frame
    }

    /// Latches the keypad: which keys are held down, and which key, if any,
    /// was newly pressed. A pressed code that is no key of the keypad counts
    /// as no key.
    pub fn set_keys(&mut self, held: [bool; 16], pressed: Option<u8>)
        ensures
            final(self)@ == (DisplayState {
                held: held@,
                pressed: keypad_key(pressed),
                ..old(self)@
            }),
    {
        proof {
            use_type_invariant(&*self);
        }
        self.held = held;
        self.pressed = match pressed {
            Some(key) => if key < 16 { Some(key) } else { None },
            None => None,
        };
    }

    /// Whether key `key` is held down.
    pub fn check_key(&self, key: u8) -> (down: bool)
        requires
            key < 16,
        ensures
            down == self@.held[key as int],
    {
        self.held[key as usize]
    }

    /// The key that was newly pressed.
    pub fn get_key(&self) -> (result: Result<u8, NoKeysError>)
        ensures
            match self@.pressed {
                Some(key) => result == Ok::<u8, NoKeysError>(key) && key < 16,
                None => result is Err,
            },
    {
        proof {
            use_type_invariant(self);
        }
        match self.pressed {
            Some(code) => Ok(code),
            None => Err(NoKeysError),
        }
    }
}

/// Whether `code` is the code of the physical key behind one of the 16 keys
/// of the keypad.
pub open spec fn on_keypad(layout: Seq<u32>, code: u32) -> bool {
    exists|key: int| 0 <= key < 16 && #[trigger] layout[key] == code
}

/// The key of the keypad that was pressed: `layout` gives the code of the
/// physical key behind each of the 16 keys, and `pressed` the codes of the
/// physical keys that were pressed, in the order in which the host reports
/// them. The first reported code that belongs to the keypad decides; where
/// several keys of the keypad share that code, the lowest wins. There is no
/// key only where none of the reported codes belongs to the keypad.
pub fn first_pressed(layout: &[u32; 16], pressed: &[u32]) -> (result: Result<u8, NoKeysError>)
    ensures
        match result {
            Ok(key) => {
                &&& key < 16
                &&& forall|lower: int| 0 <= lower < key ==> layout@[lower] != layout@[key as int]
                &&& exists|p: int|
                    {
                        &&& 0 <= p < pressed@.len()
                        &&& #[trigger] pressed@[p] == layout@[key as int]
                        &&& forall|earlier: int|
                            0 <= earlier < p ==> !on_keypad(layout@, #[trigger] pressed@[earlier])
                    }
            },
            Err(_) => forall|p: int|
                0 <= p < pressed@.len() ==> !on_keypad(layout@, #[trigger] pressed@[p]),
        },
{
    let count = pressed.len();
    let mut p: usize = 0;
    while p < count
        invariant
            p <= count,
            count == pressed@.len(),
            forall|earlier: int|
                0 <= earlier < p ==> !on_keypad(layout@, #[trigger] pressed@[earlier]),
        decreases count - p,
    {
        let code = pressed[p];
        let mut key: u8 = 0;
        while key < 16
            invariant
                key <= 16,
                p < count,
                count == pressed@.len(),
                code == pressed@[p as int],
                forall|lower: int| 0 <= lower < key ==> layout@[lower] != code,
                forall|earlier: int|
                    0 <= earlier < p ==> !on_keypad(layout@, #[trigger] pressed@[earlier]),
            decreases 16 - key,
        {
            if layout[key as usize] == code {
                assert(pressed@[p as int] == layout@[key as int]);
                return Ok(key);
            }
            key += 1;
        }
        assert(!on_keypad(layout@, pressed@[p as int]));
        p += 1;
    }
    Err(NoKeysError)
}

/// Drawing the same sprite row twice at the same place restores every cell,
/// and the second drawing collides exactly when some set bit of the row
/// landed on a cell that was dark before the first drawing.
pub proof fn lemma_blit_twice_restores(pixels: Seq<bool>, x: int, y: int, row: u8)
    requires
        pixels.len() == 2048,
        0 <= x,
        0 <= y < 32,
    ensures
        blit(blit(pixels, x, y, row), x, y, row) == pixels,
        blit_collides(blit(pixels, x, y, row), x, y, row) <==> exists|i: int|
            0 <= i < 8 && #[trigger] sprite_bit(row, i) && !pixels[y * 64 + (x + i) % 64],
{
    let once = blit(pixels, x, y, row);
    assert(blit(once, x, y, row) =~= pixels);
    assert forall|i: int| 0 <= i < 8 implies once[y * 64 + (x + i) % 64] == (pixels[y * 64 + (x
        + i) % 64] != sprite_bit(row, i)) by {
        let column = (x + i) % 64;
        let idx = y * 64 + column;
        assert(idx / 64 == y && idx % 64 == column);
        assert(column_offset(column, x) == i);
    }
    lemma_blit_collides(once, x, y, row);
    if blit_hits(once, x, y, row, 8) {
        let w = choose|w: int| 0 <= w < 8 && #[trigger] blit_hits_at(once, x, y, row, w);
        assert(sprite_bit(row, w) && !pixels[y * 64 + (x + w) % 64]);
    }
    if exists|i: int| 0 <= i < 8 && #[trigger] sprite_bit(row, i) && !pixels[y * 64 + (x + i) % 64] {
        let w = choose|w: int|
            0 <= w < 8 && #[trigger] sprite_bit(row, w) && !pixels[y * 64 + (x + w) % 64];
        assert(blit_hits_at(once, x, y, row, w));
    }
}

/// A sprite row changes no cell outside its own row of the grid, and within
/// that row only the eight columns it covers.
pub proof fn lemma_blit_touches(pixels: Seq<bool>, x: int, y: int, row: u8, column: int, line: int)
    requires
        pixels.len() == 2048,
        0 <= column < 64,
        0 <= line < 32,
        line != y || column_offset(column, x) >= 8,
    ensures
        blit(pixels, x, y, row)[line * 64 + column] == pixels[line * 64 + column],
{
    let idx = line * 64 + column;
    assert(idx / 64 == line && idx % 64 == column);
}

/// After a clear every cell of the grid is dark.
pub proof fn lemma_blank_is_dark(x: int, y: int)
    requires
        0 <= x < 64,
        0 <= y < 32,
    ensures
        !DisplayState::blank().pixel(x, y),
{
}

} // verus!
