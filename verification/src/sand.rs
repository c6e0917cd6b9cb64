//! Particle simulation (sand or water) for loading screens.
//!
//! Canvas: 5 chars wide, 4 chars tall (25 px by 32 px), centered on the LCD. Particles are
//! emitted from the center top (pixel 12, 0).
//!
//! Sand falls and piles up in heaps. Water falls, then spreads horizontally: it fills flat and
//! flows around obstacles.
//!
//! CGRAM slots are claimed dynamically as particles spread into new char cells. After all 8 slots
//! are claimed, unclaimed cells become walls. `release` writes blank glyphs to every claimed slot
//! and so hands CGRAM back to the screen renderer.
//!
//! Chance comes in from outside: one random word for every pixel of the canvas and one for the
//! particle that a reset starts over with.

use vstd::prelude::*;

use crate::bits;
use crate::cgram;
use crate::cgram::CgramPool;
use crate::lcd;
use crate::lcd::{Lcd, LcdOp};

verus! {

pub const COLS: usize = 5;

pub const ROWS: usize = 4;

/// Canvas width in pixels.
pub const W: usize = 25;

/// Canvas height in pixels.
pub const H: usize = 32;

pub const SOURCE_X: usize = 12;

pub const SOURCE_CX: usize = 2;

pub const SOURCE_CY: usize = 0;

/// Ticks the source pixel must stay blocked before the grid resets.
pub const BLOCKED_RESET_TICKS: u8 = 250;

/// Random words that one step may draw on: one per pixel, and one more.
pub const WORDS: usize = 801;

#[derive(Clone, Copy, PartialEq, Eq, Structural, Debug)]
pub enum Particle {
    Sand,
    Water,
}

/// The particle that a random word stands for.
pub open spec fn particle_of(word: u32) -> Particle {
    if word & 1 == 0 {
        Particle::Sand
    } else {
        Particle::Water
    }
}

/// Picks a particle by a random word.
pub fn rand_particle(word: u32) -> (r: Particle)
    ensures
        r == particle_of(word),
{
    if word & 1 == 0 {
        Particle::Sand
    } else {
        Particle::Water
    }
}

/// What a grid is, mathematically.
pub ghost struct SandModel {
    /// Occupied pixels, as (x, y).
    pub pixels: Set<(int, int)>,
    pub tick: int,
    /// The glyphs that were last sent out.
    pub sent: Seq<Seq<u8>>,
    pub particle: Particle,
    /// CGRAM slots in use.
    pub used: Set<int>,
    /// Where each slot is shown, as (column, row) of character cells.
    pub at: Seq<(int, int)>,
    /// Character cells that have a slot.
    pub claimed: Set<(int, int)>,
    pub blocked: int,
}

pub open spec fn in_canvas(x: int, y: int) -> bool {
    0 <= x < 25 && 0 <= y < 32
}

/// The character cell of a pixel.
pub open spec fn cell_of(x: int, y: int) -> (int, int) {
    (x / 5, y / 8)
}

/// The cell that particles are emitted into. It never needs a slot.
pub open spec fn source_cell() -> (int, int) {
    (2, 0)
}

pub open spec fn in_cells(c: (int, int)) -> bool {
    0 <= c.0 < 5 && 0 <= c.1 < 4
}

/// Every slot is taken.
pub open spec fn all_taken(used: Set<int>) -> bool {
    forall|s: int| 0 <= s < 8 ==> #[trigger] used.contains(s)
}

/// Some pixel of the cell is occupied.
pub open spec fn occupied(pixels: Set<(int, int)>, c: (int, int)) -> bool {
    exists|p: (int, int)| #[trigger] pixels.contains(p) && cell_of(p.0, p.1) == c
}

/// The character code on the display at a cell: the slot that shows it, or a blank.
pub open spec fn slot_code(used: Set<int>, at: Seq<(int, int)>, c: (int, int)) -> u8 {
    if exists|s: int| #[trigger] used.contains(s) && at[s] == c {
        (choose|s: int| #[trigger] used.contains(s) && at[s] == c) as u8
    } else {
        0x20
    }
}

impl SandModel {
    /// Slots and cells agree: each slot in use shows one cell, no two show the same, and the
    /// claimed cells are those that are shown. Nothing lies outside the canvas.
    pub open spec fn valid(self) -> bool {
        &&& self.pixels.finite()
        &&& forall|p: (int, int)| #[trigger] self.pixels.contains(p) ==> in_canvas(p.0, p.1)
        &&& self.at.len() == 8
        &&& self.sent.len() == 8
        &&& 0 <= self.tick < 256
        &&& 0 <= self.blocked < BLOCKED_RESET_TICKS
        &&& forall|s: int| #[trigger] self.used.contains(s) ==> 0 <= s < 8
        &&& forall|s: int|
            #[trigger] self.used.contains(s) ==> in_cells(self.at[s]) && self.at[s]
                != source_cell() && self.claimed.contains(self.at[s])
        &&& forall|s: int, t: int|
            #[trigger] self.used.contains(s) && #[trigger] self.used.contains(t) && self.at[s]
                == self.at[t] ==> s == t
        &&& forall|c: (int, int)|
            #[trigger] self.claimed.contains(c) ==> exists|s: int| #[trigger]
                self.used.contains(s) && self.at[s] == c
    }

    /// A particle may move to this pixel: it is free, on the canvas, and not behind a wall.
    pub open spec fn can_enter(self, x: int, y: int) -> bool {
        &&& in_canvas(x, y)
        &&& all_taken(self.used) ==> cell_of(x, y) == source_cell() || self.claimed.contains(
            cell_of(x, y),
        )
        &&& !self.pixels.contains((x, y))
    }

    /// How many pixels, at most three, lie open to one side (`dir` is -1 or 1).
    pub open spec fn reach(self, x: int, y: int, dir: int) -> int {
        if !self.can_enter(x + dir, y) {
            0
        } else if !self.can_enter(x + 2 * dir, y) {
            1
        } else if !self.can_enter(x + 3 * dir, y) {
            2
        } else {
            3
        }
    }

    /// Where the particle at (x, y) goes next, if anywhere. It falls if it can, with one chance in
    /// sixteen to drift aside; else it slides down diagonally, to a random side where both are
    /// open; else water runs to the farther open end of its row, by chance where both are alike.
    pub open spec fn target(self, word: u32, x: int, y: int) -> Option<(int, int)> {
        let drift = if word & 0x10 == 0 {
            x - 1
        } else {
            x + 1
        };
        let left = self.can_enter(x - 1, y + 1);
        let right = self.can_enter(x + 1, y + 1);
        let run_left = self.reach(x, y, -1);
        let run_right = self.reach(x, y, 1);
        if self.can_enter(x, y + 1) {
            if word & 0x0F == 0 && self.can_enter(drift, y + 1) {
                Some((drift, y + 1))
            } else {
                Some((x, y + 1))
            }
        } else if left || right {
            if left && (!right || word & 1 == 0) {
                Some((x - 1, y + 1))
            } else {
                Some((x + 1, y + 1))
            }
        } else if self.particle == Particle::Water && (run_left > 0 || run_right > 0) {
            if run_left > run_right || (run_left == run_right && word & 1 == 0) {
                Some((x - run_left, y))
            } else {
                Some((x + run_right, y))
            }
        } else {
            None
        }
    }

    /// One particle, if there is one, moved on.
    pub open spec fn fall(self, word: u32, x: int, y: int) -> SandModel {
        match self.target(word, x, y) {
            Some(p) if self.pixels.contains((x, y)) => SandModel {
                pixels: self.pixels.insert(p).remove((x, y)),
                ..self
            },
            _ => self,
        }
    }

    /// The first `n` pixels of row `y`, left to right on even ticks and right to left on odd ones.
    pub open spec fn sweep_row(self, words: Seq<u32>, y: int, n: nat) -> SandModel
        decreases n,
    {
        if n == 0 {
            self
        } else {
            let x = if self.tick % 2 == 0 {
                n - 1
            } else {
                25 - n
            };
            self.sweep_row(words, y, (n - 1) as nat).fall(words[y * 25 + x], x, y)
        }
    }

    /// The lowest `n` rows but the bottom one, from below.
    pub open spec fn sweep(self, words: Seq<u32>, n: nat) -> SandModel
        decreases n,
    {
        if n == 0 {
            self
        } else {
            self.sweep(words, (n - 1) as nat).sweep_row(words, 31 - n, 25)
        }
    }

    /// A fresh grid.
    pub open spec fn fresh(particle: Particle) -> SandModel {
        SandModel {
            pixels: Set::empty(),
            tick: 0,
            sent: Seq::new(8, |i: int| cgram::BLANK@),
            particle,
            used: Set::empty(),
            at: Seq::new(8, |i: int| (0int, 0int)),
            claimed: Set::empty(),
            blocked: 0,
        }
    }

    /// A new particle at the source; where the source stays blocked too long, a fresh grid.
    pub open spec fn emit(self, word: u32) -> SandModel {
        if !self.pixels.contains((12, 0)) {
            SandModel {
                tick: (self.tick + 1) % 256,
                pixels: self.pixels.insert((12, 0)),
                blocked: 0,
                ..self
            }
        } else if self.blocked + 1 >= BLOCKED_RESET_TICKS {
            SandModel::fresh(particle_of(word))
        } else {
            SandModel { tick: (self.tick + 1) % 256, blocked: self.blocked + 1, ..self }
        }
    }

    /// The first `n` slots, those whose cell has run empty given back.
    pub open spec fn reclaim(self, n: nat) -> SandModel
        decreases n,
    {
        if n == 0 {
            self
        } else {
            let m = self.reclaim((n - 1) as nat);
            let c = m.at[n - 1];
            if m.used.contains(n - 1) && !occupied(m.pixels, c) {
                SandModel { used: m.used.remove(n - 1), claimed: m.claimed.remove(c), ..m }
            } else {
                m
            }
        }
    }

    /// A slot for this cell, if it is occupied, has none yet, and one is left.
    pub open spec fn claim_cell(self, c: (int, int)) -> SandModel {
        if c != source_cell() && !self.claimed.contains(c) && !all_taken(self.used) && occupied(
            self.pixels,
            c,
        ) {
            let s = choose|s: int| cgram::lowest_free(self.used, s);
            SandModel {
                used: self.used.insert(s),
                at: self.at.update(s, c),
                claimed: self.claimed.insert(c),
                ..self
            }
        } else {
            self
        }
    }

    /// The first `n` cells, row by row, given slots.
    pub open spec fn assign(self, n: nat) -> SandModel
        decreases n,
    {
        if n == 0 {
            self
        } else {
            self.assign((n - 1) as nat).claim_cell(((n - 1) % 5, (n - 1) / 5))
        }
    }

    /// The pixel in the given place of a slot's cell is occupied.
    pub open spec fn dot(self, s: int, row: int, col: int) -> bool {
        self.pixels.contains((self.at[s].0 * 5 + col, self.at[s].1 * 8 + row))
    }

    /// What a slot has to show: five pixels to a row, the leftmost one in bit 4. A slot that is
    /// not in use shows nothing.
    pub open spec fn glyph(self, s: int) -> Seq<u8> {
        bits::glyph_of(|row: int, col: int| self.used.contains(s) && self.dot(s, row, col))
    }

    /// The character codes of one row of the canvas.
    pub open spec fn codes(self, row: int) -> Seq<u8> {
        Seq::new(5, |cx: int| slot_code(self.used, self.at, (cx, row)))
    }

    /// Fresh glyphs for those of the first `n` slots that changed since they were last sent.
    pub open spec fn glyph_updates(self, n: nat, backlight: u8) -> Seq<LcdOp>
        decreases n,
    {
        if n == 0 {
            Seq::empty()
        } else if self.glyph(n - 1) != self.sent[n - 1] {
            self.glyph_updates((n - 1) as nat, backlight) + lcd::char_ops(
                (n - 1) as u8,
                self.glyph(n - 1),
                backlight,
            )
        } else {
            self.glyph_updates((n - 1) as nat, backlight)
        }
    }

    /// The first `n` rows of the canvas, written from column `col` on.
    pub open spec fn canvas_rows(self, col: u8, n: nat, backlight: u8) -> Seq<LcdOp>
        decreases n,
    {
        if n == 0 {
            Seq::empty()
        } else {
            self.canvas_rows(col, (n - 1) as nat, backlight) + lcd::cursor_ops(
                col,
                (n - 1) as u8,
                backlight,
            ) + lcd::data_ops(self.codes(n - 1), backlight)
        }
    }

    /// One tick of the simulation.
    pub open spec fn stepped(self, words: Seq<u32>) -> SandModel {
        self.emit(words[800]).sweep(words, 31).reclaim(8).assign(20)
    }
}

pub struct SandGrid {
    cells: [[bool; 32]; 25],
    tick: u8,
    prev_glyphs: [[u8; 8]; 8],
    pub particle: Particle,
    pool: CgramPool,
    slot_to_char: [(usize, usize); 8],
    char_has_slot: [[bool; 4]; 5],
    blocked_ticks: u8,
}

impl View for SandGrid {
    type V = SandModel;

    closed spec fn view(&self) -> SandModel {
        SandModel {
            pixels: Set::new(
                |p: (int, int)| 0 <= p.0 < 25 && 0 <= p.1 < 32 && self.cells[p.0][p.1],
            ),
            tick: self.tick as int,
            sent: Seq::new(8, |i: int| self.prev_glyphs[i]@),
            particle: self.particle,
            used: self.pool@,
            at: Seq::new(
                8,
                |i: int| (self.slot_to_char[i].0 as int, self.slot_to_char[i].1 as int),
            ),
            claimed: Set::new(
                |c: (int, int)| 0 <= c.0 < 5 && 0 <= c.1 < 4 && self.char_has_slot[c.0][c.1],
            ),
            blocked: self.blocked_ticks as int,
        }
    }
}

/// Grids that agree on all but the pixels have models that agree on all but the pixels.
proof fn lemma_only_cells_differ(a: SandGrid, b: SandGrid)
    requires
        a.tick == b.tick,
        a.prev_glyphs == b.prev_glyphs,
        a.particle == b.particle,
        a.pool == b.pool,
        a.slot_to_char == b.slot_to_char,
        a.char_has_slot == b.char_has_slot,
        a.blocked_ticks == b.blocked_ticks,
    ensures
        b@ == (SandModel { pixels: b@.pixels, ..a@ }),
{
    assert(b@.sent =~= a@.sent);
    assert(b@.at =~= a@.at);
    assert(b@.claimed =~= a@.claimed);
}

impl SandGrid {
    /// An empty canvas with no slot claimed.
    pub fn new(particle: Particle) -> (r: Self)
        ensures
            r@ == SandModel::fresh(particle),
            r@.valid(),
    {
        let r = SandGrid {
            cells: [[false; 32]; 25],
            tick: 0,
            prev_glyphs: [[0u8; 8]; 8],
            particle,
            pool: CgramPool::new(),
            slot_to_char: [(0, 0); 8],
            char_has_slot: [[false; 4]; 5],
            blocked_ticks: 0,
        };
        proof {
            let m = SandModel::fresh(particle);
            assert(r@.pixels =~= m.pixels);
            assert forall|i: int| 0 <= i < 8 implies #[trigger] r@.sent[i] == m.sent[i] by {
                assert(r.prev_glyphs[i]@ =~= cgram::BLANK@);
            }
            assert(r@.sent =~= m.sent);
            assert(r@.at =~= m.at);
            assert(r@.claimed =~= m.claimed);
        }
        r
    }

    /// Write blank glyphs to every claimed CGRAM slot and reset the grid. For handing CGRAM back
    /// to the screen renderer.
    pub fn release(&mut self, lcd: &mut Lcd, word: u32)
        ensures
            final(self)@ == SandModel::fresh(particle_of(word)),
            final(self)@.valid(),
            lcd::queued(
                *old(lcd),
                *final(lcd),
                cgram::release_ops(old(self)@.used, 8, old(lcd).backlight),
            ),
    {
        self.pool.release(lcd);
        *self = SandGrid::new(rand_particle(word));
    }

    fn can_enter(&self, x: usize, y: usize) -> (r: bool)
        ensures
            r == self@.can_enter(x as int, y as int),
    {
        if x >= W || y >= H {
            return false;
        }
        if self.pool.is_full() {
            let cx: usize = x / 5;
            let cy: usize = y / 8;
            if !(cx == SOURCE_CX && cy == SOURCE_CY) && !self.char_has_slot[cx][cy] {
                return false;
            }
        }
        !self.cells[x][y]
    }

    /// Moves the particle at (x, y) to a free pixel.
    fn relocate(&mut self, x: usize, y: usize, nx: usize, ny: usize)
        requires
            x < W,
            y < H,
            nx < W,
            ny < H,
            (nx, ny) != (x, y),
        ensures
            final(self)@ == (SandModel {
                pixels: old(self)@.pixels.insert((nx as int, ny as int)).remove(
                    (x as int, y as int),
                ),
                ..old(self)@
            }),
    {
        self.cells[nx][ny] = true;
        self.cells[x][y] = false;
        proof {
            lemma_only_cells_differ(*old(self), *self);
            assert(self@.pixels =~= old(self)@.pixels.insert((nx as int, ny as int)).remove(
                (x as int, y as int),
            ));
        }
    }

    fn try_fall(&mut self, x: usize, y: usize, word: u32)
        requires
            x < W,
            y < H - 1,
        ensures
            final(self)@ == old(self)@.fall(word, x as int, y as int),
    {
        if !self.cells[x][y] {
            return;
        }
        assert(self@.pixels.contains((x as int, y as int)));
        let by: usize = y + 1;

        // 1. Fall (with slight mid-air drift)
        if self.can_enter(x, by) {
            if word & 0x0F == 0 {
                let nx: usize = if word & 0x10 == 0 {
                    x.wrapping_sub(1)
                } else {
                    x + 1
                };
                if nx < W && self.can_enter(nx, by) {
                    self.relocate(x, y, nx, by);
                    return;
                }
            }
            self.relocate(x, y, x, by);
            return;
        }
        // 2. Diagonal slide

        let xl: usize = x.wrapping_sub(1);
        let xr: usize = x + 1;
        let can_l: bool = xl < W && self.can_enter(xl, by);
        let can_r: bool = xr < W && self.can_enter(xr, by);
        if can_l || can_r {
            let dx: usize = if can_l && (!can_r || word & 1 == 0) {
                xl
            } else {
                xr
            };
            self.relocate(x, y, dx, by);
            return;
        }
        // 3. Water only: spread horizontally when unable to fall. Probe both directions
        // independently and move to the farthest open cell; on equal reach, toss for it.

        if self.particle == Particle::Water {
            let ld: usize = self.reach_left(x, y);
            let rd: usize = self.reach_right(x, y);
            if ld == 0 && rd == 0 {
                return;
            }
            let nx: usize = if ld > rd || (ld == rd && word & 1 == 0) {
                x - ld
            } else {
                x + rd
            };
            self.relocate(x, y, nx, y);
        }
    }

    /// How many pixels to the left, at most three, water can run.
    fn reach_left(&self, x: usize, y: usize) -> (r: usize)
        requires
            x < W,
            y < H,
        ensures
            r == self@.reach(x as int, y as int, -1),
            r <= x,
    {
        if x < 1 || !self.can_enter(x - 1, y) {
            0
        } else if x < 2 || !self.can_enter(x - 2, y) {
            1
        } else if x < 3 || !self.can_enter(x - 3, y) {
            2
        } else {
            3
        }
    }

    /// How many pixels to the right, at most three, water can run.
    fn reach_right(&self, x: usize, y: usize) -> (r: usize)
        requires
            x < W,
            y < H,
        ensures
            r == self@.reach(x as int, y as int, 1),
            x + r < W,
    {
        if !self.can_enter(x + 1, y) {
            0
        } else if !self.can_enter(x + 2, y) {
            1
        } else if !self.can_enter(x + 3, y) {
            2
        } else {
            3
        }
    }

    /// Some pixel of the cell is occupied.
    fn cell_occupied(&self, cx: usize, cy: usize) -> (r: bool)
        requires
            cx < COLS,
            cy < ROWS,
        ensures
            r == occupied(self@.pixels, (cx as int, cy as int)),
    {
        let px0: usize = cx * 5;
        let py0: usize = cy * 8;
        let mut row: usize = 0;
        while row < 8
            invariant
                cx < COLS,
                cy < ROWS,
                px0 == cx * 5,
                py0 == cy * 8,
                row <= 8,
                forall|c: int, r: int|
                    0 <= c < 5 && 0 <= r < row ==> !#[trigger] self@.pixels.contains(
                        (px0 + c, py0 + r),
                    ),
            decreases 8 - row,
        {
            let mut col: usize = 0;
            while col < 5
                invariant
                    cx < COLS,
                    cy < ROWS,
                    px0 == cx * 5,
                    py0 == cy * 8,
                    row < 8,
                    col <= 5,
                    forall|c: int, r: int|
                        0 <= c < 5 && 0 <= r < row ==> !#[trigger] self@.pixels.contains(
                            (px0 + c, py0 + r),
                        ),
                    forall|c: int|
                        0 <= c < col ==> !#[trigger] self@.pixels.contains((px0 + c, py0 + row)),
                decreases 5 - col,
            {
                if self.cells[px0 + col][py0 + row] {
                    proof {
                        let p = (px0 + col, py0 + row);
                        assert(self@.pixels.contains(p));
                        assert(cell_of(p.0, p.1) == (cx as int, cy as int));
                    }
                    return true;
                }
                col += 1;
            }
            row += 1;
        }
        proof {
            assert forall|p: (int, int)| #[trigger]
                self@.pixels.contains(p) implies cell_of(p.0, p.1) != (cx as int, cy as int) by {
                if cell_of(p.0, p.1) == (cx as int, cy as int) {
                    let c = p.0 - px0;
                    let r = p.1 - py0;
                    assert(p == (px0 + c, py0 + r));
                    assert(self@.pixels.contains((px0 + c, py0 + r)));
                }
            }
        }
        false
    }

    fn emit(&mut self, word: u32)
        requires
            old(self)@.valid(),
        ensures
            final(self)@ == old(self)@.emit(word),
            final(self)@.valid(),
    {
        proof {
            lemma_emit_keeps_valid(self@, word);
        }
        if !self.cells[SOURCE_X][0] {
            self.tick = self.tick.wrapping_add(1);
            self.cells[SOURCE_X][0] = true;
            self.blocked_ticks = 0;
            proof {
                let m = old(self)@.emit(word);
                assert(!old(self)@.pixels.contains((12, 0)));
                assert(self@.pixels =~= m.pixels);
                assert(self@.sent =~= m.sent);
                assert(self@.at =~= m.at);
                assert(self@.claimed =~= m.claimed);
            }
        } else {
            assert(self@.pixels.contains((12, 0)));
            let blocked: u8 = self.blocked_ticks + 1;
            if blocked >= BLOCKED_RESET_TICKS {
                *self = SandGrid::new(rand_particle(word));
            } else {
                self.tick = self.tick.wrapping_add(1);
                self.blocked_ticks = blocked;
                proof {
                    let m = old(self)@.emit(word);
                    assert(self@.pixels =~= m.pixels);
                    assert(self@.sent =~= m.sent);
                    assert(self@.at =~= m.at);
                    assert(self@.claimed =~= m.claimed);
                }
            }
        }
    }

    fn sweep(&mut self, words: &[u32])
        requires
            words@.len() == WORDS,
        ensures
            final(self)@ == old(self)@.sweep(words@, 31),
    {
        let mut n: usize = 0;
        while n < 31
            invariant
                n <= 31,
                words@.len() == WORDS,
                self@ == old(self)@.sweep(words@, n as nat),
            decreases 31 - n,
        {
            let y: usize = 30 - n;
            let ghost start = self@;
            let even: bool = self.tick % 2 == 0;
            let mut k: usize = 0;
            while k < 25
                invariant
                    k <= 25,
                    y < 31,
                    words@.len() == WORDS,
                    even == (start.tick % 2 == 0),
                    self@ == start.sweep_row(words@, y as int, k as nat),
                decreases 25 - k,
            {
                let x: usize = if even {
                    k
                } else {
                    24 - k
                };
                self.try_fall(x, y, words[y * 25 + x]);
                k += 1;
            }
            n += 1;
        }
    }

    /// Unclaims slots whose cells are completely empty so they can be reused.
    fn reclaim(&mut self)
        requires
            old(self)@.valid(),
        ensures
            final(self)@ == old(self)@.reclaim(8),
            final(self)@.valid(),
    {
        let mut slot: usize = 0;
        while slot < 8
            invariant
                slot <= 8,
                self@ == old(self)@.reclaim(slot as nat),
                self@.valid(),
            decreases 8 - slot,
        {
            let ghost m = self@;
            if self.pool.is_used(slot as u8) {
                assert(m.used.contains(slot as int));
                let (cx, cy) = self.slot_to_char[slot];
                assert(m.at[slot as int] == (cx as int, cy as int));
                if !self.cell_occupied(cx, cy) {
                    self.pool.free(slot as u8);
                    self.char_has_slot[cx][cy] = false;
                    proof {
                        let c = (cx as int, cy as int);
                        assert(self@.pixels =~= m.pixels);
                        assert(self@.sent =~= m.sent);
                        assert(self@.at =~= m.at);
                        assert(self@.claimed =~= m.claimed.remove(c));
                        assert(self@ == old(self)@.reclaim((slot + 1) as nat));
                        lemma_unclaim_keeps_valid(m, slot as int);
                    }
                }
            }
            slot += 1;
        }
    }

    /// Claims slots for occupied cells that have none.
    fn assign(&mut self)
        requires
            old(self)@.valid(),
        ensures
            final(self)@ == old(self)@.assign(20),
            final(self)@.valid(),
    {
        let mut k: usize = 0;
        while k < 20
            invariant
                k <= 20,
                self@ == old(self)@.assign(k as nat),
                self@.valid(),
            decreases 20 - k,
        {
            let cx: usize = k % 5;
            let cy: usize = k / 5;
            let ghost m = self@;
            let ghost c = (cx as int, cy as int);
            if !(cx == SOURCE_CX && cy == SOURCE_CY) && !self.char_has_slot[cx][cy]
                && !self.pool.is_full() && self.cell_occupied(cx, cy) {
                if let Some(slot) = self.pool.claim() {
                    self.slot_to_char[slot as usize] = (cx, cy);
                    self.char_has_slot[cx][cy] = true;
                    proof {
                        let s = choose|s: int| cgram::lowest_free(m.used, s);
                        assert(cgram::lowest_free(m.used, slot as int));
                        if s < slot {
                            assert(m.used.contains(s));
                        }
                        if slot < s {
                            assert(m.used.contains(slot as int));
                        }
                        assert(s == slot);
                        assert(self@.pixels =~= m.pixels);
                        assert(self@.sent =~= m.sent);
                        assert(self@.at =~= m.at.update(s, c));
                        assert(self@.claimed =~= m.claimed.insert(c));
                        assert(self@ == m.claim_cell(c));
                        lemma_claim_keeps_valid(m, c);
                    }
                }
            } else {
                assert(self@ == m.claim_cell(c));
            }
            k += 1;
        }
    }

    /// One tick: emit, let everything fall, give back the slots of empty cells, claim slots for
    /// newly occupied ones.
    pub fn step(&mut self, words: &[u32])
        requires
            old(self)@.valid(),
            words@.len() == WORDS,
        ensures
            final(self)@ == old(self)@.stepped(words@),
            final(self)@.valid(),
    {
        self.emit(words[800]);
        proof {
            lemma_sweep_keeps_valid(self@, words@, 31);
        }
        self.sweep(words);
        self.reclaim();
        self.assign();
    }

    /// The glyphs of all slots.
    pub fn glyphs(&self) -> (r: [[u8; 8]; 8])
        requires
            self@.valid(),
        ensures
            forall|s: int| 0 <= s < 8 ==> #[trigger] r[s]@ == self@.glyph(s),
    {
        let mut out: [[u8; 8]; 8] = [[0u8; 8]; 8];
        let mut slot: usize = 0;
        while slot < 8
            invariant
                slot <= 8,
                self@.valid(),
                forall|s: int| 0 <= s < slot ==> #[trigger] out[s]@ == self@.glyph(s),
            decreases 8 - slot,
        {
            let mut g: [u8; 8] = [0u8; 8];
            if self.pool.is_used(slot as u8) {
                assert(self@.used.contains(slot as int));
                let (cx, cy) = self.slot_to_char[slot];
                assert(self@.at[slot as int] == (cx as int, cy as int));
                let px0: usize = cx * 5;
                let py0: usize = cy * 8;
                let mut row: usize = 0;
                while row < 8
                    invariant
                        row <= 8,
                        px0 + 4 < W,
                        py0 + 7 < H,
                        slot < 8,
                        self@.used.contains(slot as int),
                        self@.at[slot as int].0 * 5 == px0,
                        self@.at[slot as int].1 * 8 == py0,
                        forall|k: int|
                            0 <= k < row ==> #[trigger] g[k] == self@.glyph(slot as int)[k],
                    decreases 8 - row,
                {
                    let y: usize = py0 + row;
                    let mut byte: u8 = 0;
                    if self.cells[px0][y] {
                        byte += 16;
                    }
                    if self.cells[px0 + 1][y] {
                        byte += 8;
                    }
                    if self.cells[px0 + 2][y] {
                        byte += 4;
                    }
                    if self.cells[px0 + 3][y] {
                        byte += 2;
                    }
                    if self.cells[px0 + 4][y] {
                        byte += 1;
                    }
                    g[row] = byte;
                    row += 1;
                }
            }
            assert(g@ =~= self@.glyph(slot as int));
            out[slot] = g;
            slot += 1;
        }
        out
    }

    /// Notes the glyphs as sent and tells which of them differ from what was sent before.
    pub fn diff_and_update(&mut self, new_glyphs: &[[u8; 8]; 8]) -> (dirty: [bool; 8])
        ensures
            forall|i: int|
                0 <= i < 8 ==> #[trigger] dirty[i] == (new_glyphs[i]@ != old(self)@.sent[i]),
            final(self)@ == (SandModel {
                sent: Seq::new(8, |i: int| new_glyphs[i]@),
                ..old(self)@
            }),
    {
        let mut dirty: [bool; 8] = [false; 8];
        let mut i: usize = 0;
        while i < 8
            invariant
                i <= 8,
                self.cells == old(self).cells,
                self.tick == old(self).tick,
                self.particle == old(self).particle,
                self.pool == old(self).pool,
                self.slot_to_char == old(self).slot_to_char,
                self.char_has_slot == old(self).char_has_slot,
                self.blocked_ticks == old(self).blocked_ticks,
                forall|k: int|
                    0 <= k < i ==> #[trigger] dirty[k] == (new_glyphs[k]@ != old(
                        self,
                    ).prev_glyphs[k]@),
                forall|k: int| 0 <= k < i ==> #[trigger] self.prev_glyphs[k]@ == new_glyphs[k]@,
                forall|k: int|
                    i <= k < 8 ==> #[trigger] self.prev_glyphs[k] == old(self).prev_glyphs[k],
            decreases 8 - i,
        {
            assert(self.prev_glyphs[i as int] == old(self).prev_glyphs[i as int]);
            if !bits::bytes_equal(new_glyphs[i].as_slice(), self.prev_glyphs[i].as_slice()) {
                dirty[i] = true;
                self.prev_glyphs[i] = new_glyphs[i];
            } else {
                dirty[i] = false;
            }
            i += 1;
        }
        proof {
            assert(self@.sent =~= Seq::new(8, |i: int| new_glyphs[i]@));
            assert(self@.pixels =~= old(self)@.pixels);
            assert(self@.at =~= old(self)@.at);
            assert(self@.claimed =~= old(self)@.claimed);
        }
        dirty
    }

    /// The character codes of the canvas, row by row.
    pub fn display_chars(&self) -> (r: [[u8; 5]; 4])
        requires
            self@.valid(),
        ensures
            forall|row: int| 0 <= row < 4 ==> #[trigger] r[row]@ == self@.codes(row),
    {
        let mut out: [[u8; 5]; 4] = [[0x20u8; 5]; 4];
        let mut slot: usize = 0;
        while slot < 8
            invariant
                slot <= 8,
                self@.valid(),
                forall|row: int, cx: int|
                    0 <= row < 4 && 0 <= cx < 5 ==> (#[trigger] out[row][cx] == 0x20 && !(exists|
                        s: int,
                    |
                        0 <= s < slot && #[trigger] self@.used.contains(s) && self@.at[s] == (
                            cx,
                            row,
                        ))) || (out[row][cx] < slot && self@.used.contains(out[row][cx] as int)
                        && self@.at[out[row][cx] as int] == (cx, row)),
            decreases 8 - slot,
        {
            if self.pool.is_used(slot as u8) {
                assert(self@.used.contains(slot as int));
                let (cx, cy) = self.slot_to_char[slot];
                assert(self@.at[slot as int] == (cx as int, cy as int));
                out[cy][cx] = slot as u8;
            }
            slot += 1;
        }
        proof {
            assert forall|row: int| 0 <= row < 4 implies #[trigger] out[row]@ == self@.codes(
                row,
            ) by {
                assert forall|cx: int| 0 <= cx < 5 implies out[row][cx] == #[trigger] self@.codes(
                    row,
                )[cx] by {
                    let b = out[row][cx];
                    if exists|s: int| #[trigger]
                        self@.used.contains(s) && self@.at[s] == (cx, row) {
                        let s = choose|s: int| #[trigger]
                            self@.used.contains(s) && self@.at[s] == (cx, row);
                        assert(self@.used.contains(s));
                    }
                }
                assert(out[row]@ =~= self@.codes(row));
            }
        }
        out
    }

    /// Brings the display up to date: changed glyphs first, then the character codes.
    pub fn render(&mut self, lcd: &mut Lcd, sand_col: u8)
        requires
            old(self)@.valid(),
            0x54 + sand_col <= 255,
        ensures
            final(self)@ == (SandModel {
                sent: Seq::new(8, |s: int| old(self)@.glyph(s)),
                ..old(self)@
            }),
            final(self)@.valid(),
            lcd::queued(
                *old(lcd),
                *final(lcd),
                old(self)@.glyph_updates(8, old(lcd).backlight) + old(self)@.canvas_rows(
                    sand_col,
                    4,
                    old(lcd).backlight,
                ),
            ),
    {
        let ghost m = self@;
        let ghost light = lcd.backlight;
        let g: [[u8; 8]; 8] = self.glyphs();
        let dirty: [bool; 8] = self.diff_and_update(&g);
        proof {
            assert(self@.used == m.used);
            assert(self@.claimed == m.claimed);
            assert(self@.at == m.at);
            assert(self@.valid());
        }
        let dc: [[u8; 5]; 4] = self.display_chars();
        proof {
            assert(self@.sent =~= Seq::new(8, |s: int| m.glyph(s)));
            assert forall|row: int| 0 <= row < 4 implies #[trigger] self@.codes(row) == m.codes(
                row,
            ) by {
                assert(self@.codes(row) =~= m.codes(row));
            }
        }
        let mut s: usize = 0;
        assert(lcd.ops@ =~= old(lcd).ops@ + m.glyph_updates(0, light));
        while s < 8
            invariant
                s <= 8,
                forall|k: int| 0 <= k < 8 ==> #[trigger] g[k]@ == m.glyph(k),
                forall|k: int| 0 <= k < 8 ==> #[trigger] dirty[k] == (g[k]@ != m.sent[k]),
                light == old(lcd).backlight,
                lcd::queued(*old(lcd), *lcd, m.glyph_updates(s as nat, light)),
            decreases 8 - s,
        {
            if dirty[s] {
                lcd.create_char(s as u8, &g[s]);
            }
            s += 1;
            assert(lcd.ops@ =~= old(lcd).ops@ + m.glyph_updates(s as nat, light));
        }
        let ghost first = m.glyph_updates(8, light);
        let mut row: usize = 0;
        assert(lcd.ops@ =~= old(lcd).ops@ + (first + m.canvas_rows(sand_col, 0, light)));
        while row < 4
            invariant
                row <= 4,
                0x54 + sand_col <= 255,
                forall|k: int| 0 <= k < 4 ==> #[trigger] dc[k]@ == m.codes(k),
                light == old(lcd).backlight,
                lcd::queued(
                    *old(lcd),
                    *lcd,
                    first + m.canvas_rows(sand_col, row as nat, light),
                ),
            decreases 4 - row,
        {
            lcd.set_cursor(sand_col, row as u8);
            lcd.write_raw(dc[row].as_slice());
            row += 1;
            assert(lcd.ops@ =~= old(lcd).ops@ + (first + m.canvas_rows(
                sand_col,
                row as nat,
                light,
            )));
        }
    }
}

/// A move keeps a grid valid and keeps the number of particles.
proof fn lemma_fall_keeps_valid(m: SandModel, word: u32, x: int, y: int)
    requires
        m.valid(),
    ensures
        m.fall(word, x, y).valid(),
        m.fall(word, x, y).pixels.len() == m.pixels.len(),
        m.fall(word, x, y).tick == m.tick,
{
    let n = m.fall(word, x, y);
    if n.pixels != m.pixels {
        let p = m.target(word, x, y)->0;
        assert(m.can_enter(p.0, p.1));
        assert(n.used == m.used && n.at == m.at && n.claimed == m.claimed);
    }
}

proof fn lemma_row_keeps_valid(m: SandModel, words: Seq<u32>, y: int, n: nat)
    requires
        m.valid(),
    ensures
        m.sweep_row(words, y, n).valid(),
        m.sweep_row(words, y, n).pixels.len() == m.pixels.len(),
        m.sweep_row(words, y, n).tick == m.tick,
    decreases n,
{
    if n > 0 {
        lemma_row_keeps_valid(m, words, y, (n - 1) as nat);
        let x = if m.tick % 2 == 0 {
            n - 1
        } else {
            25 - n
        };
        lemma_fall_keeps_valid(m.sweep_row(words, y, (n - 1) as nat), words[y * 25 + x], x, y);
    }
}

proof fn lemma_sweep_keeps_valid(m: SandModel, words: Seq<u32>, n: nat)
    requires
        m.valid(),
    ensures
        m.sweep(words, n).valid(),
        m.sweep(words, n).pixels.len() == m.pixels.len(),
    decreases n,
{
    if n > 0 {
        lemma_sweep_keeps_valid(m, words, (n - 1) as nat);
        lemma_row_keeps_valid(m.sweep(words, (n - 1) as nat), words, 31 - n, 25);
    }
}

proof fn lemma_emit_keeps_valid(m: SandModel, word: u32)
    requires
        m.valid(),
    ensures
        m.emit(word).valid(),
{
    let n = m.emit(word);
    if m.pixels.contains((12, 0)) && m.blocked + 1 >= BLOCKED_RESET_TICKS {
        assert(n.used == Set::<int>::empty());
        assert(n.claimed == Set::<(int, int)>::empty());
    } else {
        assert(n.used == m.used && n.at == m.at && n.claimed == m.claimed);
        assert forall|c: (int, int)| #[trigger] n.claimed.contains(c) implies exists|s: int|
         #[trigger] n.used.contains(s) && n.at[s] == c by {
            assert(m.claimed.contains(c));
        }
    }
}

proof fn lemma_unclaim_keeps_valid(m: SandModel, s: int)
    requires
        m.valid(),
        m.used.contains(s),
    ensures
        (SandModel { used: m.used.remove(s), claimed: m.claimed.remove(m.at[s]), ..m }).valid(),
{
    let n = SandModel { used: m.used.remove(s), claimed: m.claimed.remove(m.at[s]), ..m };
    assert forall|c: (int, int)| #[trigger] n.claimed.contains(c) implies exists|t: int| #[trigger]
        n.used.contains(t) && n.at[t] == c by {
        assert(m.claimed.contains(c));
        let t = choose|t: int| #[trigger] m.used.contains(t) && m.at[t] == c;
        assert(n.used.contains(t));
    }
    assert forall|t: int| #[trigger] n.used.contains(t) implies in_cells(n.at[t]) && n.at[t]
        != source_cell() && n.claimed.contains(n.at[t]) by {
        assert(m.used.contains(t));
    }
    assert forall|a: int, b: int| #[trigger]
        n.used.contains(a) && #[trigger] n.used.contains(b) && n.at[a] == n.at[b] implies a
        == b by {
        assert(m.used.contains(a) && m.used.contains(b));
    }
}

/// While a slot is left there is a lowest one.
proof fn lemma_some_slot_left(used: Set<int>)
    requires
        !all_taken(used),
    ensures
        exists|s: int| cgram::lowest_free(used, s),
{
    let t = choose|t: int| 0 <= t < 8 && !used.contains(t);
    lemma_lowest_below(used, t);
}

proof fn lemma_lowest_below(used: Set<int>, t: int)
    requires
        0 <= t < 8,
        !used.contains(t),
    ensures
        exists|s: int| cgram::lowest_free(used, s),
    decreases t,
{
    if exists|u: int| 0 <= u < t && !used.contains(u) {
        let u = choose|u: int| 0 <= u < t && !used.contains(u);
        lemma_lowest_below(used, u);
    } else {
        assert(cgram::lowest_free(used, t));
    }
}

proof fn lemma_claim_keeps_valid(m: SandModel, c: (int, int))
    requires
        m.valid(),
        in_cells(c),
    ensures
        m.claim_cell(c).valid(),
{
    let n = m.claim_cell(c);
    if c != source_cell() && !m.claimed.contains(c) && !all_taken(m.used) && occupied(
        m.pixels,
        c,
    ) {
        lemma_some_slot_left(m.used);
        let s = choose|s: int| cgram::lowest_free(m.used, s);
        assert forall|d: (int, int)| #[trigger] n.claimed.contains(d) implies exists|t: int|
         #[trigger] n.used.contains(t) && n.at[t] == d by {
            if d == c {
                assert(n.used.contains(s));
            } else {
                assert(m.claimed.contains(d));
                let t = choose|t: int| #[trigger] m.used.contains(t) && m.at[t] == d;
                assert(n.used.contains(t));
            }
        }
        assert forall|t: int| #[trigger] n.used.contains(t) implies in_cells(n.at[t]) && n.at[t]
            != source_cell() && n.claimed.contains(n.at[t]) by {
            if t != s {
                assert(m.used.contains(t));
            }
        }
        assert forall|a: int, b: int| #[trigger]
            n.used.contains(a) && #[trigger] n.used.contains(b) && n.at[a] == n.at[b] implies a
            == b by {
            if a != s {
                assert(m.used.contains(a));
            }
            if b != s {
                assert(m.used.contains(b));
            }
        }
    }
}

proof fn lemma_reclaim(m: SandModel, n: nat)
    requires
        m.valid(),
        n <= 8,
    ensures
        m.reclaim(n).valid(),
        m.reclaim(n).pixels == m.pixels,
        forall|s: int| #[trigger]
            m.reclaim(n).used.contains(s) && s < n ==> occupied(m.pixels, m.reclaim(n).at[s]),
        forall|s: int| m.reclaim(n).used.contains(s) ==> #[trigger] m.used.contains(s),
        m.reclaim(n).at == m.at,
    decreases n,
{
    if n > 0 {
        lemma_reclaim(m, (n - 1) as nat);
        let k = m.reclaim((n - 1) as nat);
        if k.used.contains(n - 1) && !occupied(k.pixels, k.at[n - 1]) {
            lemma_unclaim_keeps_valid(k, n - 1);
        }
    }
}

proof fn lemma_assign(m: SandModel, n: nat)
    requires
        m.valid(),
        n <= 20,
        forall|s: int| #[trigger] m.used.contains(s) ==> occupied(m.pixels, m.at[s]),
    ensures
        m.assign(n).valid(),
        m.assign(n).pixels == m.pixels,
        m.assign(n).blocked == m.blocked,
        forall|s: int| #[trigger]
            m.assign(n).used.contains(s) ==> occupied(m.pixels, m.assign(n).at[s]),
        all_taken(m.assign(n).used) || forall|c: (int, int)| #[trigger]
            in_cells(c) && c.1 * 5 + c.0 < n && c != source_cell() && occupied(m.pixels, c)
                ==> m.assign(n).claimed.contains(c),
    decreases n,
{
    if n > 0 {
        lemma_assign(m, (n - 1) as nat);
        let k = m.assign((n - 1) as nat);
        let c = ((n - 1) % 5, (n - 1) / 5);
        lemma_claim_keeps_valid(k, c);
        let r = k.claim_cell(c);
        if !all_taken(k.used) {
            lemma_some_slot_left(k.used);
            let s = choose|s: int| cgram::lowest_free(k.used, s);
            assert forall|t: int| #[trigger] r.used.contains(t) implies occupied(
                m.pixels,
                r.at[t],
            ) by {
                if !k.used.contains(t) {
                    assert(t == s);
                }
            }
            assert forall|d: (int, int)| #[trigger]
                in_cells(d) && d.1 * 5 + d.0 < n && d != source_cell() && occupied(
                    m.pixels,
                    d,
                ) implies r.claimed.contains(d) by {
                if d.1 * 5 + d.0 == n - 1 {
                    assert(d == c);
                } else {
                    assert(k.claimed.contains(d));
                }
            }
        }
    }
}

/// The grid resets in this tick.
pub open spec fn resets(m: SandModel) -> bool {
    m.pixels.contains((12, 0)) && m.blocked + 1 >= BLOCKED_RESET_TICKS
}

/// No particle is lost or made on the way: a tick adds the one that is emitted, where the source
/// is free, and no other. A reset leaves none.
pub proof fn law_step_counts_particles(m: SandModel, words: Seq<u32>)
    requires
        m.valid(),
    ensures
        m.stepped(words).pixels.len() == if resets(m) {
            0
        } else if m.pixels.contains((12, 0)) {
            m.pixels.len()
        } else {
            m.pixels.len() + 1
        },
{
    let e = m.emit(words[800]);
    lemma_emit_keeps_valid(m, words[800]);
    lemma_sweep_keeps_valid(e, words, 31);
    let w = e.sweep(words, 31);
    lemma_reclaim(w, 8);
    lemma_assign(w.reclaim(8), 20);
}

/// A tick keeps the grid valid, and after it the slots are where the particles are: every slot in
/// use shows a cell that holds some, and every such cell but the source has a slot unless all
/// eight are taken.
pub proof fn law_step_assigns_slots(m: SandModel, words: Seq<u32>)
    requires
        m.valid(),
    ensures
        m.stepped(words).valid(),
        forall|s: int| #[trigger]
            m.stepped(words).used.contains(s) ==> occupied(
                m.stepped(words).pixels,
                m.stepped(words).at[s],
            ),
        all_taken(m.stepped(words).used) || forall|c: (int, int)| #[trigger]
            in_cells(c) && c != source_cell() && occupied(m.stepped(words).pixels, c)
                ==> m.stepped(words).claimed.contains(c),
{
    let e = m.emit(words[800]);
    lemma_emit_keeps_valid(m, words[800]);
    lemma_sweep_keeps_valid(e, words, 31);
    let w = e.sweep(words, 31);
    lemma_reclaim(w, 8);
    lemma_assign(w.reclaim(8), 20);
}

/// A particle moves to a free pixel of the canvas that no wall bars. It goes down by one, at most
/// one to the side; only water also stays on its row, at most three to the side. Nothing rises.
pub proof fn law_motion(m: SandModel, word: u32, x: int, y: int, p: (int, int))
    requires
        m.target(word, x, y) == Some(p),
    ensures
        m.can_enter(p.0, p.1),
        p.1 == y + 1 ==> -1 <= p.0 - x <= 1,
        p.1 != y + 1 ==> m.particle == Particle::Water && p.1 == y && p.0 != x && -3 <= p.0 - x
            <= 3,
{
}

/// The cell is a wall: every slot is taken and none is for this cell.
pub open spec fn wall(m: SandModel, c: (int, int)) -> bool {
    all_taken(m.used) && c != source_cell() && !m.claimed.contains(c)
}

proof fn lemma_row_respects_walls(m: SandModel, words: Seq<u32>, y: int, n: nat)
    ensures
        m.sweep_row(words, y, n).used == m.used,
        m.sweep_row(words, y, n).claimed == m.claimed,
        forall|p: (int, int)| #[trigger]
            m.sweep_row(words, y, n).pixels.contains(p) && wall(m, cell_of(p.0, p.1))
                ==> m.pixels.contains(p),
    decreases n,
{
    if n > 0 {
        lemma_row_respects_walls(m, words, y, (n - 1) as nat);
        let k = m.sweep_row(words, y, (n - 1) as nat);
        let x = if m.tick % 2 == 0 {
            n - 1
        } else {
            25 - n
        };
        if let Some(p) = k.target(words[y * 25 + x], x, y) {
            law_motion(k, words[y * 25 + x], x, y, p);
        }
    }
}

/// Once all eight slots are taken, no particle moves into a cell that has none.
pub proof fn law_walls_hold(m: SandModel, words: Seq<u32>, n: nat)
    ensures
        m.sweep(words, n).used == m.used,
        m.sweep(words, n).claimed == m.claimed,
        forall|p: (int, int)| #[trigger]
            m.sweep(words, n).pixels.contains(p) && wall(m, cell_of(p.0, p.1))
                ==> m.pixels.contains(p),
    decreases n,
{
    if n > 0 {
        law_walls_hold(m, words, (n - 1) as nat);
        lemma_row_respects_walls(m.sweep(words, (n - 1) as nat), words, 31 - n, 25);
    }
}

/// What a slot shows is what is there: a pixel of its glyph is lit where a particle is.
pub proof fn law_glyph_shows_particles(m: SandModel, s: int, row: int, col: int)
    requires
        0 <= row < 8,
        0 <= col < 5,
    ensures
        bits::lit(m.glyph(s), row, col) == (m.used.contains(s) && m.dot(s, row, col)),
        bits::five_wide(m.glyph(s)),
{
    bits::lemma_glyph_lit(|r: int, c: int| m.used.contains(s) && m.dot(s, r, c), row, col);
}

proof fn lemma_nothing_to_update(m: SandModel, n: nat, backlight: u8)
    requires
        n <= 8,
        forall|s: int| 0 <= s < 8 ==> #[trigger] m.sent[s] == m.glyph(s),
    ensures
        m.glyph_updates(n, backlight) == Seq::<LcdOp>::empty(),
    decreases n,
{
    if n > 0 {
        lemma_nothing_to_update(m, (n - 1) as nat, backlight);
        assert(m.sent[n - 1] == m.glyph(n - 1));
    }
}

/// A grid that was drawn and has not moved since sends no glyph again.
pub proof fn law_unchanged_glyphs_stay(m: SandModel, backlight: u8)
    ensures
        (SandModel { sent: Seq::new(8, |s: int| m.glyph(s)), ..m }).glyph_updates(8, backlight)
            == Seq::<LcdOp>::empty(),
{
    let n = SandModel { sent: Seq::new(8, |s: int| m.glyph(s)), ..m };
    assert forall|s: int| 0 <= s < 8 implies #[trigger] n.sent[s] == n.glyph(s) by {
        assert(n.glyph(s) =~= m.glyph(s));
    }
    lemma_nothing_to_update(n, 8, backlight);
}

/// A pixel can be entered where it is free and on the canvas, 25 by 32, unless all eight slots are
/// taken and neither the pixel's character cell has one nor particles are emitted there.
pub proof fn law_free_pixels_are_open(m: SandModel, x: int, y: int)
    ensures
        m.can_enter(x, y) <==> 0 <= x < 25 && 0 <= y < 32 && !m.pixels.contains((x, y)) && ((exists|
            s: int,
        |
            0 <= s < 8 && !#[trigger] m.used.contains(s)) || (10 <= x < 15 && y < 8)
            || m.claimed.contains((x / 5, y / 8))),
{
}

/// A particle rests only where it can go nowhere lower: if any of the three pixels below it is open,
/// it moves to an open one of them, and where just one is open, to that. Straight down goes first,
/// but for one word in sixteen; to the sides it goes by the word, left as well as right.
pub proof fn law_particle_falls(m: SandModel, word: u32, x: int, y: int)
    ensures
        ({
            let down = m.can_enter(x, y + 1);
            let left = m.can_enter(x - 1, y + 1);
            let right = m.can_enter(x + 1, y + 1);
            let t = m.target(word, x, y);
            &&& down || left || right ==> t is Some && (t->0).1 == y + 1 && x - 1 <= (t->0).0 <= x + 1
                && m.can_enter((t->0).0, (t->0).1)
            &&& down && !left && !right ==> t == Some((x, y + 1))
            &&& left && !down && !right ==> t == Some((x - 1, y + 1))
            &&& right && !down && !left ==> t == Some((x + 1, y + 1))
            &&& down && word % 16 != 0 ==> t == Some((x, y + 1))
            &&& down && word % 32 == 0 && left ==> t == Some((x - 1, y + 1))
            &&& down && word % 32 == 16 && right ==> t == Some((x + 1, y + 1))
            &&& !down && left && right && word % 2 == 0 ==> t == Some((x - 1, y + 1))
            &&& !down && left && right && word % 2 == 1 ==> t == Some((x + 1, y + 1))
            &&& !down && !left && !right && m.particle == Particle::Sand ==> t is None
        }),
{
    assert((word & 0x0F == 0) == (word % 16 == 0)) by (bit_vector);
    assert(word & 1 == word % 2) by (bit_vector);
    assert(word % 32 == 0 ==> word & 0x10 == 0 && word & 0x0F == 0) by (bit_vector);
    assert(word % 32 == 16 ==> word & 0x10 != 0 && word & 0x0F == 0) by (bit_vector);
}

/// Every pixel up to `n` places to one side is open.
pub open spec fn open_run(m: SandModel, x: int, y: int, dir: int, n: int) -> bool {
    forall|k: int| 1 <= k <= n ==> #[trigger] m.can_enter(x + k * dir, y)
}

/// Water that cannot go lower runs along its row: it stays only where both sides are shut; else it
/// goes through open pixels as far as it can, up to three, and to no side where the other has more
/// room.
pub proof fn law_water_spreads(m: SandModel, word: u32, x: int, y: int)
    requires
        m.particle == Particle::Water,
        !m.can_enter(x, y + 1),
        !m.can_enter(x - 1, y + 1),
        !m.can_enter(x + 1, y + 1),
    ensures
        ({
            let t = m.target(word, x, y);
            &&& t is None <==> !m.can_enter(x - 1, y) && !m.can_enter(x + 1, y)
            &&& t matches Some(p) ==> {
                let dir: int = if p.0 < x {
                    -1
                } else {
                    1
                };
                let n = (p.0 - x) * dir;
                &&& p.1 == y
                &&& 1 <= n <= 3
                &&& open_run(m, x, y, dir, n)
                &&& n < 3 ==> !open_run(m, x, y, dir, n + 1)
                &&& n < 3 ==> !open_run(m, x, y, -dir, n + 1)
                &&& dir == 1 && word % 2 == 0 ==> !open_run(m, x, y, -1, n)
                &&& dir == -1 && word % 2 == 1 ==> !open_run(m, x, y, 1, n)
            }
        }),
{
    assert(word & 1 == word % 2) by (bit_vector);
    lemma_reach(m, x, y, -1);
    lemma_reach(m, x, y, 1);
    assert(m.can_enter(x + 1 * -1, y) == m.can_enter(x - 1, y));
    assert(m.can_enter(x + 1 * 1, y) == m.can_enter(x + 1, y));
    let a = m.reach(x, y, -1);
    let b = m.reach(x, y, 1);
    if m.target(word, x, y) is Some {
        let p = m.target(word, x, y)->0;
        if p.0 < x {
            assert((p.0 - x) * -1 == a) by (nonlinear_arith)
                requires
                    p.0 == x - a,
            ;
            if a < 3 {
                assert(!open_run(m, x, y, 1, a + 1)) by {
                    lemma_longer_run(m, x, y, 1, b, a);
                }
            }
            if word % 2 == 1 {
                lemma_longer_run(m, x, y, 1, b, a - 1);
            }
        } else {
            assert((p.0 - x) * 1 == b) by (nonlinear_arith)
                requires
                    p.0 == x + b,
            ;
            if b < 3 {
                lemma_longer_run(m, x, y, -1, a, b);
            }
            if word % 2 == 0 {
                lemma_longer_run(m, x, y, -1, a, b - 1);
            }
        }
    }
}

/// A run that ends after `n` pixels is not one of more than `k`, for any `k` from there on.
proof fn lemma_longer_run(m: SandModel, x: int, y: int, dir: int, n: int, k: int)
    requires
        n == m.reach(x, y, dir),
        dir == 1 || dir == -1,
        n <= k < 3,
    ensures
        !open_run(m, x, y, dir, k + 1),
{
    lemma_reach(m, x, y, dir);
    if open_run(m, x, y, dir, k + 1) {
        assert(open_run(m, x, y, dir, n + 1)) by {
            assert forall|j: int| 1 <= j <= n + 1 implies #[trigger] m.can_enter(x + j * dir, y) by {
                assert(1 <= j <= k + 1);
            }
        }
    }
}

proof fn lemma_reach(m: SandModel, x: int, y: int, dir: int)
    requires
        dir == 1 || dir == -1,
    ensures
        0 <= m.reach(x, y, dir) <= 3,
        open_run(m, x, y, dir, m.reach(x, y, dir)),
        m.reach(x, y, dir) < 3 ==> !open_run(m, x, y, dir, m.reach(x, y, dir) + 1),
        m.reach(x, y, dir) == 0 <==> !m.can_enter(x + dir, y),
{
    let n = m.reach(x, y, dir);
    assert(x + 1 * dir == x + dir);
    assert forall|k: int| 1 <= k <= n implies #[trigger] m.can_enter(x + k * dir, y) by {
        assert(k == 1 || k == 2 || k == 3);
    }
    if n < 3 {
        if open_run(m, x, y, dir, n + 1) {
            assert(m.can_enter(x + (n + 1) * dir, y));
            assert(n == 0 || n == 1 || n == 2);
            assert((n + 1) * dir == if n == 0 {
                dir
            } else if n == 1 {
                2 * dir
            } else {
                3 * dir
            });
        }
    }
}

proof fn lemma_empty_row(m: SandModel, words: Seq<u32>, y: int, n: nat)
    requires
        forall|x: int| !#[trigger] m.pixels.contains((x, y)),
    ensures
        m.sweep_row(words, y, n) == m,
    decreases n,
{
    if n > 0 {
        lemma_empty_row(m, words, y, (n - 1) as nat);
    }
}

proof fn lemma_one_in_row(m: SandModel, words: Seq<u32>, x: int, y: int, n: nat)
    requires
        0 <= x < 25,
        n <= 25,
        m.pixels.contains((x, y)),
        forall|k: int| k != x ==> !#[trigger] m.pixels.contains((k, y)),
        m.target(words[y * 25 + x], x, y) is Some,
        (m.target(words[y * 25 + x], x, y)->0).1 == y + 1,
    ensures
        m.sweep_row(words, y, n) == if (m.tick % 2 == 0 && x < n) || (m.tick % 2 != 0 && 25 - n
            <= x) {
            m.fall(words[y * 25 + x], x, y)
        } else {
            m
        },
    decreases n,
{
    if n > 0 {
        lemma_one_in_row(m, words, x, y, (n - 1) as nat);
    }
}

/// A grid with one particle and the one that was just emitted, and a slot left.
spec fn two_particles(m: SandModel, x: int, y: int) -> bool {
    &&& 0 <= x < 25
    &&& 1 <= y < 32
    &&& m.pixels == set![(x, y), (12int, 0int)]
    &&& exists|s: int| 0 <= s < 8 && !#[trigger] m.used.contains(s)
}

proof fn lemma_two_swept(m: SandModel, words: Seq<u32>, x: int, y: int, n: nat) -> (p: (int, int))
    requires
        two_particles(m, x, y),
        n <= 30,
    ensures
        ({
            let e = m.sweep(words, n);
            &&& e == SandModel { pixels: set![p, (12int, 0int)], ..m }
            &&& p == if y < 31 && 31 - n <= y {
                (p.0, y + 1)
            } else {
                (x, y)
            }
            &&& x - 1 <= p.0 <= x + 1
            &&& 0 <= p.0 < 25
        }),
    decreases n,
{
    if n == 0 {
        (x, y)
    } else {
        let q = lemma_two_swept(m, words, x, y, (n - 1) as nat);
        let e = m.sweep(words, (n - 1) as nat);
        let row = 31 - n;
        if row == y {
            assert(e.pixels.contains((x, y)));
            assert(e.can_enter(x, y + 1));
            law_particle_falls(e, words[y * 25 + x], x, y);
            lemma_one_in_row(e, words, x, y, 25);
            let p = e.target(words[y * 25 + x], x, y)->0;
            assert(e.pixels.insert(p).remove((x, y)) =~= set![p, (12int, 0int)]);
            p
        } else {
            assert forall|k: int| !#[trigger] e.pixels.contains((k, row)) by {}
            lemma_empty_row(e, words, row, 25);
            q
        }
    }
}

/// Wherever a particle is alone, a tick takes it down by one row, at most one pixel aside, and no
/// farther; on the bottom it stays. The one that is emitted meanwhile falls from the source into the
/// row below.
pub proof fn law_lone_particle_falls(grid: &mut SandGrid, words: &[u32], x: int, y: int)
    requires
        old(grid)@.valid(),
        words@.len() == WORDS,
        0 <= x < 25,
        1 <= y < 32,
        old(grid)@.pixels == set![(x, y)],
        exists|s: int| 0 <= s < 8 && !#[trigger] old(grid)@.used.contains(s),
        call_ensures(SandGrid::step, (grid, words), ()),
    ensures
        exists|p: (int, int), q: (int, int)|
            final(grid)@.pixels == #[trigger] set![p, q] && x - 1 <= p.0 <= x + 1 && p.1 == (if y
                < 31 {
                y + 1
            } else {
                y
            }) && (y == 31 ==> p.0 == x) && 11 <= q.0 <= 13 && q.1 == 1,
{
    let m = old(grid)@;
    let e = m.emit(words@[800]);
    assert(e.pixels =~= set![(x, y), (12int, 0int)]);
    let s = choose|s: int| 0 <= s < 8 && !#[trigger] m.used.contains(s);
    assert(!e.used.contains(s));
    let p = lemma_two_swept(e, words@, x, y, 30);
    let f = e.sweep(words@, 30);
    assert(f.pixels.contains((12, 0)));
    assert(f.can_enter(12, 1)) by {
        assert(p.1 != 1);
    }
    law_particle_falls(f, words@[12], 12, 0);
    assert(0 * 25 + 12 == 12);
    lemma_one_in_row(f, words@, 12, 0, 25);
    let q = f.target(words@[12], 12, 0)->0;
    let g = e.sweep(words@, 31);
    assert(g.pixels =~= set![p, q]);
    lemma_emit_keeps_valid(m, words@[800]);
    lemma_sweep_keeps_valid(e, words@, 31);
    lemma_reclaim(g, 8);
    lemma_assign(g.reclaim(8), 20);
    assert(final(grid)@.pixels == set![p, q]);
}

/// What the display shows of the canvas is what is there: the character at a cell with a slot is that
/// slot, and a pixel of its glyph is lit where a particle is; a cell without one is blank.
pub proof fn law_display_shows_canvas(
    grid: SandGrid,
    glyphs: [[u8; 8]; 8],
    chars: [[u8; 5]; 4],
    x: int,
    y: int,
)
    requires
        grid@.valid(),
        call_ensures(SandGrid::glyphs, (&grid,), glyphs),
        call_ensures(SandGrid::display_chars, (&grid,), chars),
        0 <= x < 25,
        0 <= y < 32,
    ensures
        grid@.claimed.contains((x / 5, y / 8)) ==> chars[y / 8][x / 5] < 8 && bits::lit(
            glyphs[chars[y / 8][x / 5] as int]@,
            y % 8,
            x % 5,
        ) == grid@.pixels.contains((x, y)),
        !grid@.claimed.contains((x / 5, y / 8)) ==> chars[y / 8][x / 5] == 0x20,
{
    let m = grid@;
    let c = (x / 5, y / 8);
    assert(chars[y / 8]@ == m.codes(y / 8));
    assert(chars[y / 8][x / 5] == slot_code(m.used, m.at, c));
    if m.claimed.contains(c) {
        let s = choose|s: int| #[trigger] m.used.contains(s) && m.at[s] == c;
        assert(m.used.contains(s) && m.at[s] == c);
        assert(0 <= s < 8);
        assert(glyphs[s]@ == m.glyph(s));
        law_glyph_shows_particles(m, s, y % 8, x % 5);
        assert(c.0 * 5 + x % 5 == x);
        assert(c.1 * 8 + y % 8 == y);
    } else {
        assert(!exists|s: int| #[trigger] m.used.contains(s) && m.at[s] == c);
    }
}

/// Particles come out of the middle of the top row, one a tick while that pixel is free. Where it has
/// been blocked for 250 ticks the canvas is cleared.
pub proof fn law_source_emits(m: SandModel, word: u32)
    requires
        m.valid(),
    ensures
        m.emit(word).pixels == if m.pixels.contains((12, 0)) && m.blocked == 249 {
            Set::empty()
        } else {
            m.pixels.insert((12, 0))
        },
        m.pixels.contains((12, 0)) && m.blocked < 249 ==> m.emit(word).blocked == m.blocked + 1,
        !m.pixels.contains((12, 0)) ==> m.emit(word).blocked == 0,
        m.blocked < 249 ==> m.emit(word).particle == m.particle,
        m.blocked < 249 ==> m.emit(word).tick != m.tick && m.emit(word).tick == (m.tick + 1) % 256,
        m.pixels.contains((12, 0)) && m.blocked == 249 ==> m.emit(word).tick == 0 && m.emit(
            word,
        ).blocked == 0 && m.emit(word).used == Set::<int>::empty() && (m.emit(word).particle
            == Particle::Water <==> word % 2 == 1),
{
    assert(word & 1 == word % 2) by (bit_vector);
    if m.pixels.contains((12, 0)) {
        assert(m.pixels.insert((12, 0)) =~= m.pixels);
    }
}

/// Sand and water come about by chance, each for every other word.
pub proof fn law_particles_by_chance(word: u32, r: Particle)
    requires
        call_ensures(rand_particle, (word,), r),
    ensures
        r == Particle::Sand <==> word % 2 == 0,
        r == Particle::Water <==> word % 2 == 1,
{
    assert(word & 1 == word % 2) by (bit_vector);
}

} // verus!
