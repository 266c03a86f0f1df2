//! The monochrome frame buffer: a grid of pixels that sprites toggle.

use vstd::prelude::*;

verus! {

/// Width of the pixel grid.
pub const COLS: usize = 64;

/// Height of the pixel grid.
pub const ROWS: usize = 32;

/// Number of pixels in the grid.
pub const NUM_OF_BLOCKS: usize = 2048;

/// Index of pixel `(x, y)` in the row-major pixel sequence.
pub open spec fn block_index(x: int, y: int) -> int {
    x + y * (COLS as int)
}

/// Column and row of a pixel index are its remainder and quotient by the
/// grid width, and an index is determined by them.
pub proof fn lemma_block_coords(x: int, y: int)
    requires
        0 <= x < COLS,
        0 <= y,
    ensures
        block_index(x, y) % (COLS as int) == x,
        block_index(x, y) / (COLS as int) == y,
{
    vstd::arithmetic::div_mod::lemma_fundamental_div_mod_converse(block_index(x, y), COLS as int, y, x);
}

/// Every index is the index of its own column and row.
pub proof fn lemma_index_split(k: int)
    requires
        0 <= k,
    ensures
        k == block_index(k % (COLS as int), k / (COLS as int)),
        0 <= k % (COLS as int) < COLS,
        0 <= k / (COLS as int),
{
    vstd::arithmetic::div_mod::lemma_fundamental_div_mod(k, COLS as int);
}

/// Position of pixel `(x, y)` in the buffer.
fn index_of(x: u16, y: u16) -> (k: usize)
    requires
        x < COLS,
        y < ROWS,
    ensures
        k == block_index(x as int, y as int),
        k < NUM_OF_BLOCKS,
{
    proof {
        assert(y * 64 <= 31 * 64) by (nonlinear_arith)
            requires
                y < 32,
        ;
    }
    x as usize + (y as usize) * COLS
}

/// A 64x32 grid of pixels, each on or off.
pub struct Display {
    block_arr: Vec<bool>,
}

impl View for Display {
    /// The pixels in row-major order: `true` is on.
    type V = Seq<bool>;

    closed spec fn view(&self) -> Seq<bool> {
        self.block_arr@
    }
}

impl Display {
    /// The buffer holds exactly one entry per pixel.
    pub open spec fn wf(&self) -> bool {
        self@.len() == NUM_OF_BLOCKS
    }

    /// A grid with every pixel off.
    pub fn new() -> (r: Display)
        ensures
            r.wf(),
            forall|k: int| 0 <= k < NUM_OF_BLOCKS ==> !#[trigger] r@[k],
    {
        let mut block_arr: Vec<bool> = Vec::new();
        let mut k: usize = 0;
        while k < NUM_OF_BLOCKS
            invariant
                k <= NUM_OF_BLOCKS,
                block_arr@.len() == k,
                forall|j: int| 0 <= j < k ==> !#[trigger] block_arr@[j],
            decreases NUM_OF_BLOCKS - k,
        {
            block_arr.push(false);
            k = k + 1;
        }
        Display { block_arr }
    }

    /// Toggles pixel `(x, y)` and reports whether it went from on to off.
    pub fn set_block(&mut self, x: u16, y: u16) -> (erased: bool)
        requires
            old(self).wf(),
            x < COLS,
            y < ROWS,
        ensures
            final(self).wf(),
            final(self)@ == old(self)@.update(
                block_index(x as int, y as int),
                !old(self)@[block_index(x as int, y as int)],
            ),
            erased == old(self)@[block_index(x as int, y as int)],
    {
        let block_idx = index_of(x, y);
        let was_on = self.block_arr[block_idx];
        self.block_arr.set(block_idx, !was_on);
        was_on
    }

    /// Turns every pixel off.
    pub fn clear(&mut self)
        requires
            old(self).wf(),
        ensures
            final(self).wf(),
            forall|k: int| 0 <= k < NUM_OF_BLOCKS ==> !#[trigger] final(self)@[k],
    {
        let mut k: usize = 0;
        while k < NUM_OF_BLOCKS
            invariant
                k <= NUM_OF_BLOCKS,
                self.wf(),
                forall|j: int| 0 <= j < k ==> !#[trigger] self@[j],
            decreases NUM_OF_BLOCKS - k,
        {
            self.block_arr.set(k, false);
            k = k + 1;
        }
    }

    /// Whether pixel `(x, y)` is on.
    pub fn get_block(&self, x: u16, y: u16) -> (on: bool)
        requires
            self.wf(),
            x < COLS,
            y < ROWS,
        ensures
            on == self@[block_index(x as int, y as int)],
    {
        self.block_arr[index_of(x, y)]
    }
}

} // verus!
