//! The stateful grid: a width, a height, and a packed bit array of exactly
//! `width * height` cell flags, with operations to query, seed, edit, and
//! advance it one generation at a time.

use vstd::prelude::*;

use fixedbitset::FixedBitSet;

use crate::bits::bits_of;
use crate::grid::dead_cells;
use crate::grid::idx_of;
use crate::grid::in_bounds;
use crate::grid::lemma_idx_bound;
use crate::grid::lemma_idx_recover;
use crate::grid::live_neighbors;
use crate::grid::next_gen;
use crate::grid::next_state;
use crate::grid::preset_cells;
use crate::grid::render_text;
use crate::grid::seed_cells;
use crate::grid::toggled;
use crate::grid::with_alive;

verus! {

/// Relies on `String::push`: appends one character at the end.
#[verifier::external_body]
fn push_char(s: &mut String, c: char)
    ensures
        final(s)@ == old(s)@.push(c),
{
    s.push(c);
}

/// The state of one cell.
#[derive(Clone, Copy, Debug, PartialEq, Eq)]
pub enum Cell {
    Dead,
    Alive,
}

/// A named multi-cell seed shape, stamped relative to an anchor cell.
#[derive(Clone, Copy, Debug)]
pub enum Pattern {
    Glider,
    Pentomino,
}

/// The one error an operation can report: a coordinate outside the grid.
#[derive(Clone, Copy, Debug, PartialEq, Eq)]
pub enum GridError {
    OutOfBounds,
}

/// The abstract value of a [`Universe`]: its dimensions and its cells as a
/// row-major sequence of liveness flags.
#[verifier::ext_equal]
pub ghost struct GridView {
    pub width: nat,
    pub height: nat,
    pub cells: Seq<bool>,
}

impl GridView {
    /// The structural invariant: one flag per cell, and a cell count that a
    /// machine index can address.
    pub open spec fn wf(self) -> bool {
        &&& self.cells.len() == self.width * self.height
        &&& self.width * self.height <= usize::MAX
        &&& self.width <= u32::MAX
        &&& self.height <= u32::MAX
    }

    /// The grid one generation later, dimensions unchanged.
    pub open spec fn stepped(self) -> GridView {
        GridView { cells: next_gen(self.cells, self.width as int, self.height as int), ..self }
    }
}

/// The grid of cells.
pub struct Universe {
    width: u32,
    height: u32,
    cells: FixedBitSet,
}

impl View for Universe {
    type V = GridView;

    closed spec fn view(&self) -> GridView {
        GridView {
            width: self.width as nat,
            height: self.height as nat,
            cells: bits_of(self.cells),
        }
    }
}

impl Universe {
    /// The structural invariant, established by every constructor and kept by
    /// every operation.
    pub open spec fn wf(&self) -> bool {
        self@.wf()
    }

    /// Row-major linear index of an in-bounds cell.
    fn get_index(&self, row: u32, column: u32) -> (r: usize)
        requires
            self.wf(),
            in_bounds(self@.width as int, self@.height as int, row as int, column as int),
        ensures
            r == idx_of(self@.width as int, row as int, column as int),
            r < self@.cells.len(),
    {
        proof {
            lemma_idx_bound(self@.width as int, self@.height as int, row as int, column as int);
        }
        (row as usize) * (self.width as usize) + (column as usize)
    }

    /// The grid's width in cells.
    pub fn width(&self) -> (r: u32)
        ensures
            r == self@.width,
    {
        self.width
    }

    /// The grid's height in cells.
    pub fn height(&self) -> (r: u32)
        ensures
            r == self@.height,
    {
        self.height
    }

    /// The dead and alive values of the entire universe, as the packed bit
    /// array itself.
    pub fn get_cells(&self) -> (r: &FixedBitSet)
        ensures
            bits_of(*r) == self@.cells,
    {
        &self.cells
    }

    /// A 64 x 64 universe holding the deterministic start pattern: a cell is
    /// alive exactly when its linear index is divisible by 2 or by 7.
    pub fn new() -> (r: Universe)
        ensures
            r.wf(),
            r@.width == 64,
            r@.height == 64,
            r@.cells == seed_cells(4096),
    {
        let width: u32 = 64;
        let height: u32 = 64;
        let size: usize = 4096;
        let mut cells = FixedBitSet::with_capacity(size);
        let mut i: usize = 0;
        while i < size
            invariant
                i <= size,
                bits_of(cells).len() == size,
                forall|k: int| 0 <= k < i ==> bits_of(cells)[k] == (k % 2 == 0 || k % 7 == 0),
            decreases size - i,
        {
            cells.set(i, i % 2 == 0 || i % 7 == 0);
            i = i + 1;
        }
        let r = Universe { width, height, cells };
        proof {
            assert(r@.cells =~= seed_cells(4096));
        }
        r
    }

    /// Replaces the width and resets every cell to dead, keeping nothing of
    /// the old contents.
    pub fn set_width(&mut self, width: u32)
        requires
            old(self).wf(),
            width * old(self)@.height <= usize::MAX,
        ensures
            final(self).wf(),
            final(self)@.width == width,
            final(self)@.height == old(self)@.height,
            final(self)@.cells == dead_cells((width * old(self)@.height) as nat),
    {
        self.width = width;
        let size: usize = (width as usize) * (self.height as usize);
        self.cells = FixedBitSet::with_capacity(size);
        proof {
            assert(self@.cells =~= dead_cells((width * old(self)@.height) as nat));
        }
    }

    /// Replaces the height and resets every cell to dead, keeping nothing of
    /// the old contents.
    pub fn set_height(&mut self, height: u32)
        requires
            old(self).wf(),
            old(self)@.width * height <= usize::MAX,
        ensures
            final(self).wf(),
            final(self)@.width == old(self)@.width,
            final(self)@.height == height,
            final(self)@.cells == dead_cells((old(self)@.width * height) as nat),
    {
        self.height = height;
        let size: usize = (self.width as usize) * (height as usize);
        self.cells = FixedBitSet::with_capacity(size);
        proof {
            assert(self@.cells =~= dead_cells((old(self)@.width * height) as nat));
        }
    }

    /// Replaces the whole cell array, same size, with the deterministic
    /// pattern the code selects. Code 0 makes a cell alive exactly when its
    /// linear index is divisible by 3, by 8, or by 7; every other code yields
    /// an all-dead grid (the array is reallocated either way).
    pub fn set_preset(&mut self, preset: u8)
        requires
            old(self).wf(),
        ensures
            final(self).wf(),
            final(self)@.width == old(self)@.width,
            final(self)@.height == old(self)@.height,
            final(self)@.cells == preset_cells(preset, (old(self)@.width * old(self)@.height) as nat),
    {
        let size: usize = (self.width as usize) * (self.height as usize);
        let mut new_cells = FixedBitSet::with_capacity(size);
        if preset == 0 {
            let mut i: usize = 0;
            while i < size
                invariant
                    i <= size,
                    bits_of(new_cells).len() == size,
                    forall|k: int|
                        0 <= k < i ==> bits_of(new_cells)[k] == (k % 3 == 0 || k % 8 == 0 || k % 7
                            == 0),
                    forall|k: int| i <= k < size ==> !bits_of(new_cells)[k],
                decreases size - i,
            {
                new_cells.set(i, i % 3 == 0 || i % 8 == 0 || i % 7 == 0);
                i = i + 1;
            }
        }
        self.cells = new_cells;
        proof {
            assert(self@.cells =~= preset_cells(
                preset,
                (old(self)@.width * old(self)@.height) as nat,
            ));
        }
    }

    /// Inverts the state of exactly one cell.
    pub fn toggle_cell(&mut self, row: u32, col: u32) -> (r: Result<(), GridError>)
        requires
            old(self).wf(),
        ensures
            final(self).wf(),
            final(self)@.width == old(self)@.width,
            final(self)@.height == old(self)@.height,
            in_bounds(old(self)@.width as int, old(self)@.height as int, row as int, col as int)
                ==> r == Ok::<(), GridError>(()) && final(self)@.cells == toggled(
                old(self)@.cells,
                idx_of(old(self)@.width as int, row as int, col as int),
            ),
            !in_bounds(old(self)@.width as int, old(self)@.height as int, row as int, col as int)
                ==> r == Err::<(), GridError>(GridError::OutOfBounds) && final(self)@ == old(
                self,
            )@,
    {
        if row >= self.height || col >= self.width {
            return Err(GridError::OutOfBounds);
        }
        let idx: usize = self.get_index(row, col);
        self.cells.toggle(idx);
        Ok(())
    }

    /// How many of the eight toroidal neighbors of (`row`, `col`) are alive:
    /// the row above wraps to the bottom edge, the row below to the top, and
    /// likewise for the columns.
    #[verifier::rlimit(50)]
    pub fn live_neighbor_count(&self, row: u32, column: u32) -> (r: u8)
        requires
            self.wf(),
            in_bounds(self@.width as int, self@.height as int, row as int, column as int),
        ensures
            r == live_neighbors(
                self@.cells,
                self@.width as int,
                self@.height as int,
                row as int,
                column as int,
            ),
            r <= 8,
    {
        let north: u32 = if row == 0 {
            self.height - 1
        } else {
            row - 1
        };
        let south: u32 = if row == self.height - 1 {
            0
        } else {
            row + 1
        };
        let west: u32 = if column == 0 {
            self.width - 1
        } else {
            column - 1
        };
        let east: u32 = if column == self.width - 1 {
            0
        } else {
            column + 1
        };
        let mut count: u8 = 0;
        if self.cells.contains(self.get_index(north, west)) {
            count = count + 1;
        }
        if self.cells.contains(self.get_index(north, column)) {
            count = count + 1;
        }
        if self.cells.contains(self.get_index(north, east)) {
            count = count + 1;
        }
        if self.cells.contains(self.get_index(row, west)) {
            count = count + 1;
        }
        if self.cells.contains(self.get_index(row, east)) {
            count = count + 1;
        }
        if self.cells.contains(self.get_index(south, west)) {
            count = count + 1;
        }
        if self.cells.contains(self.get_index(south, column)) {
            count = count + 1;
        }
        if self.cells.contains(self.get_index(south, east)) {
            count = count + 1;
        }
        count
    }

    /// The birth/survival rule on one cell: alive with fewer than two live
    /// neighbors dies, alive with two or three survives, alive with more than
    /// three dies, dead with exactly three is born, and any other dead cell
    /// stays dead.
    pub fn next_cell_state(alive: bool, neighbors: u8) -> (r: bool)
        ensures
            r == next_state(alive, neighbors as int),
    {
        if alive {
            neighbors == 2 || neighbors == 3
        } else {
            neighbors == 3
        }
    }

    /// Advances the grid one generation: every cell's new state is computed
    /// from the previous generation's full contents, then the new grid is
    /// installed at once.
    pub fn tick(&mut self)
        requires
            old(self).wf(),
        ensures
            final(self).wf(),
            final(self)@ == old(self)@.stepped(),
    {
        let ghost w: int = self@.width as int;
        let ghost h: int = self@.height as int;
        let ghost ng: Seq<bool> = next_gen(self@.cells, w, h);
        let mut next = self.cells.clone();
        let mut row: u32 = 0;
        while row < self.height
            invariant
                self == old(self),
                self.wf(),
                row <= self@.height,
                bits_of(next).len() == self@.cells.len(),
                forall|k: int| 0 <= k < row * w ==> bits_of(next)[k] == ng[k],
                w == self@.width as int,
                h == self@.height as int,
                ng == next_gen(self@.cells, w, h),
            decreases self@.height - row,
        {
            let mut col: u32 = 0;
            while col < self.width
                invariant
                    self == old(self),
                    self.wf(),
                    row < self@.height,
                    col <= self@.width,
                    bits_of(next).len() == self@.cells.len(),
                    forall|k: int| 0 <= k < row * w + col ==> bits_of(next)[k] == ng[k],
                    w == self@.width as int,
                    h == self@.height as int,
                    ng == next_gen(self@.cells, w, h),
                decreases self@.width - col,
            {
                let idx: usize = self.get_index(row, col);
                let cell: bool = self.cells.contains(idx);
                let neighbors: u8 = self.live_neighbor_count(row, col);
                let v: bool = Self::next_cell_state(cell, neighbors);
                proof {
                    lemma_idx_bound(w, h, row as int, col as int);
                    lemma_idx_recover(w, row as int, col as int);
                }
                next.set(idx, v);
                col = col + 1;
            }
            proof {
                assert((row + 1) * w == row * w + w) by (nonlinear_arith);
            }
            row = row + 1;
        }
        proof {
            assert(row * w == self@.cells.len()) by (nonlinear_arith)
                requires
                    row == h,
                    self@.cells.len() == w * h,
            ;
        }
        self.cells = next;
        proof {
            assert(self@.cells =~= ng);
            assert(self@ =~= old(self)@.stepped());
        }
    }

    /// Forces alive every listed (row, column) cell. A single out-of-range
    /// pair makes the whole call fail without touching the grid.
    pub fn set_cells(&mut self, cells: &[(u32, u32)]) -> (r: Result<(), GridError>)
        requires
            old(self).wf(),
        ensures
            final(self).wf(),
            final(self)@.width == old(self)@.width,
            final(self)@.height == old(self)@.height,
            (forall|j: int|
                0 <= j < cells@.len() ==> in_bounds(
                    old(self)@.width as int,
                    old(self)@.height as int,
                    cells@[j].0 as int,
                    cells@[j].1 as int,
                )) ==> r == Ok::<(), GridError>(()) && final(self)@.cells == with_alive(
                old(self)@.cells,
                old(self)@.width as int,
                cells@,
            ),
            !(forall|j: int|
                0 <= j < cells@.len() ==> in_bounds(
                    old(self)@.width as int,
                    old(self)@.height as int,
                    cells@[j].0 as int,
                    cells@[j].1 as int,
                )) ==> r == Err::<(), GridError>(GridError::OutOfBounds) && final(self)@ == old(
                self,
            )@,
    {
        let ghost w: int = self@.width as int;
        let ghost h: int = self@.height as int;
        let mut j: usize = 0;
        while j < cells.len()
            invariant
                self == old(self),
                self.wf(),
                j <= cells@.len(),
                w == self@.width as int,
                h == self@.height as int,
                forall|k: int| 0 <= k < j ==> in_bounds(w, h, cells@[k].0 as int, cells@[k].1 as int),
            decreases cells@.len() - j,
        {
            let p = cells[j];
            if p.0 >= self.height || p.1 >= self.width {
                return Err(GridError::OutOfBounds);
            }
            j = j + 1;
        }
        let mut i: usize = 0;
        while i < cells.len()
            invariant
                i <= cells@.len(),
                self.wf(),
                self@.width == old(self)@.width,
                self@.height == old(self)@.height,
                w == self@.width as int,
                h == self@.height as int,
                forall|k: int|
                    0 <= k < cells@.len() ==> in_bounds(w, h, cells@[k].0 as int, cells@[k].1 as int),
                self@.cells == with_alive(old(self)@.cells, w, cells@.take(i as int)),
            decreases cells@.len() - i,
        {
            let p = cells[i];
            let idx: usize = self.get_index(p.0, p.1);
            self.cells.set(idx, true);
            proof {
                assert(cells@.take(i + 1).drop_last() =~= cells@.take(i as int));
                assert(cells@.take(i + 1).last() == cells@[i as int]);
            }
            i = i + 1;
        }
        proof {
            assert(cells@.take(cells@.len() as int) =~= cells@);
        }
        Ok(())
    }

    /// Stamps a pattern with its anchor at (`row`, `col`): each of its five
    /// offsets is added to the anchor modulo the grid dimensions and that cell
    /// is forced alive. An out-of-range anchor fails without touching the
    /// grid.
    pub fn add_pattern(&mut self, row: u32, col: u32, pattern: Pattern) -> (r: Result<
        (),
        GridError,
    >)
        requires
            old(self).wf(),
        ensures
            final(self).wf(),
            final(self)@.width == old(self)@.width,
            final(self)@.height == old(self)@.height,
            in_bounds(old(self)@.width as int, old(self)@.height as int, row as int, col as int)
                ==> r == Ok::<(), GridError>(()) && final(self)@.cells == with_alive(
                old(self)@.cells,
                old(self)@.width as int,
                pattern_points(
                    pattern,
                    old(self)@.width as int,
                    old(self)@.height as int,
                    row as int,
                    col as int,
                ),
            ),
            !in_bounds(old(self)@.width as int, old(self)@.height as int, row as int, col as int)
                ==> r == Err::<(), GridError>(GridError::OutOfBounds) && final(self)@ == old(
                self,
            )@,
    {
        if row >= self.height || col >= self.width {
            return Err(GridError::OutOfBounds);
        }
        let ghost w: int = self@.width as int;
        let ghost h: int = self@.height as int;
        let w64: u64 = self.width as u64;
        let h64: u64 = self.height as u64;
        let r64: u64 = row as u64;
        let c64: u64 = col as u64;
        let mut pts: Vec<(u32, u32)> = Vec::new();
        match pattern {
            Pattern::Glider => {
                pts.push(((r64 % h64) as u32, ((c64 + w64 - 1) % w64) as u32));
                pts.push((((r64 + 1) % h64) as u32, (c64 % w64) as u32));
                pts.push((((r64 + 1) % h64) as u32, ((c64 + 1) % w64) as u32));
                pts.push(((r64 % h64) as u32, ((c64 + 1) % w64) as u32));
                pts.push((((r64 + h64 - 1) % h64) as u32, ((c64 + 1) % w64) as u32));
            },
            Pattern::Pentomino => {
                pts.push(((r64 % h64) as u32, ((c64 + w64 - 1) % w64) as u32));
                pts.push(((r64 % h64) as u32, (c64 % w64) as u32));
                pts.push((((r64 + 1) % h64) as u32, (c64 % w64) as u32));
                pts.push((((r64 + h64 - 1) % h64) as u32, (c64 % w64) as u32));
                pts.push((((r64 + h64 - 1) % h64) as u32, ((c64 + 1) % w64) as u32));
            },
        }
        proof {
            assert(pts@ =~= pattern_points(pattern, w, h, row as int, col as int));
            assert(forall|j: int|
                0 <= j < pts@.len() ==> in_bounds(w, h, pts@[j].0 as int, pts@[j].1 as int));
        }
        self.set_cells(pts.as_slice())
    }

    /// The packed storage as 32-bit words, for zero-copy inspection by a host
    /// renderer: grid bit `i` sits in word `i / 32` at bit position `i % 32`.
    pub fn cells(&self) -> (r: &[u32])
        ensures
            r@.len() == (self@.cells.len() + 31) / 32,
            forall|i: int|
                0 <= i < self@.cells.len() ==> self@.cells[i] == ((r@[i / 32] >> ((i % 32) as u32))
                    & 1 == 1),
    {
        self.cells.as_slice()
    }

    /// A textual snapshot: one line per row, a filled square for a live cell,
    /// a hollow one for a dead cell, every row terminated by a newline.
    pub fn render(&self) -> (r: String)
        requires
            self.wf(),
        ensures
            r@ == render_text(self@.cells, self@.width as int, self@.height as int),
    {
        let ghost w: int = self@.width as int;
        let ghost h: int = self@.height as int;
        let ghost rt: Seq<char> = render_text(self@.cells, w, h);
        let mut s = String::new();
        let mut row: u32 = 0;
        while row < self.height
            invariant
                self.wf(),
                row <= self@.height,
                w == self@.width as int,
                h == self@.height as int,
                rt == render_text(self@.cells, w, h),
                s@.len() == row * (w + 1),
                forall|k: int| 0 <= k < s@.len() ==> s@[k] == rt[k],
            decreases self@.height - row,
        {
            let mut col: u32 = 0;
            while col < self.width
                invariant
                    self.wf(),
                    row < self@.height,
                    col <= self@.width,
                    w == self@.width as int,
                    h == self@.height as int,
                    rt == render_text(self@.cells, w, h),
                    s@.len() == row * (w + 1) + col,
                    forall|k: int| 0 <= k < s@.len() ==> s@[k] == rt[k],
                decreases self@.width - col,
            {
                let idx: usize = self.get_index(row, col);
                let alive: bool = self.cells.contains(idx);
                let g: char = if alive {
                    '◼'
                } else {
                    '◻'
                };
                proof {
                    lemma_idx_recover(w + 1, row as int, col as int);
                    assert(row * (w + 1) + col < h * (w + 1)) by (nonlinear_arith)
                        requires
                            0 <= col < w + 1,
                            0 <= row < h,
                    ;
                }
                push_char(&mut s, g);
                col = col + 1;
            }
            proof {
                lemma_idx_recover(w + 1, row as int, w);
                assert(row * (w + 1) + w < h * (w + 1)) by (nonlinear_arith)
                    requires
                        0 <= w,
                        0 <= row < h,
                ;
            }
            push_char(&mut s, '\n');
            proof {
                assert((row + 1) * (w + 1) == row * (w + 1) + w + 1) by (nonlinear_arith);
            }
            row = row + 1;
        }
        proof {
            assert(s@ =~= rt);
        }
        s
    }
}

/// The five cells a pattern covers when anchored at (`row`, `col`): each
/// (row-delta, column-delta) offset is added to the anchor modulo the grid
/// dimensions, so placement wraps around the edges. A delta of `width - 1` or
/// `height - 1` stands for one step in the negative direction.
pub open spec fn pattern_points(p: Pattern, width: int, height: int, row: int, col: int) -> Seq<
    (u32, u32),
> {
    match p {
        Pattern::Glider => seq![
            ((row % height) as u32, ((col + width - 1) % width) as u32),
            (((row + 1) % height) as u32, (col % width) as u32),
            (((row + 1) % height) as u32, ((col + 1) % width) as u32),
            ((row % height) as u32, ((col + 1) % width) as u32),
            (((row + height - 1) % height) as u32, ((col + 1) % width) as u32),
        ],
        Pattern::Pentomino => seq![
            ((row % height) as u32, ((col + width - 1) % width) as u32),
            ((row % height) as u32, (col % width) as u32),
            (((row + 1) % height) as u32, (col % width) as u32),
            (((row + height - 1) % height) as u32, (col % width) as u32),
            (((row + height - 1) % height) as u32, ((col + 1) % width) as u32),
        ],
    }
}

} // verus!

