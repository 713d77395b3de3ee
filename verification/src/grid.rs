//! The mathematical model of the automaton: a grid is a row-major sequence of
//! booleans with toroidal (wraparound) adjacency, and one generation step maps
//! every cell through a fixed birth/survival rule applied to its live-neighbor
//! count.

use vstd::arithmetic::div_mod::lemma_add_mod_noop_right;
use vstd::arithmetic::div_mod::lemma_fundamental_div_mod_converse;
use vstd::arithmetic::div_mod::lemma_mod_add_multiples_vanish;
use vstd::arithmetic::div_mod::lemma_mod_bound;
use vstd::prelude::*;

verus! {

/// 1 for a live cell, 0 for a dead one.
pub open spec fn b2i(b: bool) -> int {
    if b {
        1
    } else {
        0
    }
}

/// Row-major linear index of cell (`row`, `col`) on a grid `width` cells wide.
pub open spec fn idx_of(width: int, row: int, col: int) -> int {
    row * width + col
}

/// One step in the negative direction along an axis of length `n`, wrapping
/// from 0 to `n - 1`.
pub open spec fn wrap_dec(i: int, n: int) -> int {
    if i == 0 {
        n - 1
    } else {
        i - 1
    }
}

/// One step in the positive direction along an axis of length `n`, wrapping
/// from `n - 1` to 0.
pub open spec fn wrap_inc(i: int, n: int) -> int {
    if i == n - 1 {
        0
    } else {
        i + 1
    }
}

/// Whether (`row`, `col`) addresses a cell of a `width` x `height` grid.
pub open spec fn in_bounds(width: int, height: int, row: int, col: int) -> bool {
    0 <= row < height && 0 <= col < width
}

/// How many of the eight toroidal neighbors of (`row`, `col`) are alive.
pub open spec fn live_neighbors(
    cells: Seq<bool>,
    width: int,
    height: int,
    row: int,
    col: int,
) -> int {
    let rn: int = wrap_dec(row, height);
    let rs: int = wrap_inc(row, height);
    let cw: int = wrap_dec(col, width);
    let ce: int = wrap_inc(col, width);
    b2i(cells[idx_of(width, rn, cw)]) + b2i(cells[idx_of(width, rn, col)]) + b2i(
        cells[idx_of(width, rn, ce)],
    ) + b2i(cells[idx_of(width, row, cw)]) + b2i(cells[idx_of(width, row, ce)]) + b2i(
        cells[idx_of(width, rs, cw)],
    ) + b2i(cells[idx_of(width, rs, col)]) + b2i(cells[idx_of(width, rs, ce)])
}

/// The birth/survival rule: a live cell survives with exactly two or three
/// live neighbors, a dead cell is born with exactly three, and every other
/// combination leaves the cell dead.
pub open spec fn next_state(alive: bool, neighbors: int) -> bool {
    if alive {
        neighbors == 2 || neighbors == 3
    } else {
        neighbors == 3
    }
}

/// The next generation of a whole grid: every cell mapped through
/// `next_state` on its live-neighbor count in the current generation.
pub open spec fn next_gen(cells: Seq<bool>, width: int, height: int) -> Seq<bool> {
    Seq::new(
        (width * height) as nat,
        |i: int| next_state(cells[i], live_neighbors(cells, width, height, i / width, i % width)),
    )
}

/// An all-dead grid of `n` cells.
pub open spec fn dead_cells(n: nat) -> Seq<bool> {
    Seq::new(n, |i: int| false)
}

/// The deterministic start pattern: alive exactly at the linear indices
/// divisible by 2 or by 7.
pub open spec fn seed_cells(n: nat) -> Seq<bool> {
    Seq::new(n, |i: int| i % 2 == 0 || i % 7 == 0)
}

/// The grid a preset code yields: code 0 is alive exactly at the linear
/// indices divisible by 3, by 8, or by 7; every other code is all dead.
pub open spec fn preset_cells(preset: u8, n: nat) -> Seq<bool> {
    Seq::new(n, |i: int| preset == 0 && (i % 3 == 0 || i % 8 == 0 || i % 7 == 0))
}

/// The grid after forcing alive, in order, each listed (row, column) cell.
pub open spec fn with_alive(cells: Seq<bool>, width: int, pts: Seq<(u32, u32)>) -> Seq<bool>
    decreases pts.len(),
{
    if pts.len() == 0 {
        cells
    } else {
        with_alive(cells, width, pts.drop_last()).update(
            idx_of(width, pts.last().0 as int, pts.last().1 as int),
            true,
        )
    }
}

/// The glyph one cell is rendered as.
pub open spec fn glyph(alive: bool) -> char {
    if alive {
        '◼'
    } else {
        '◻'
    }
}

/// The textual snapshot of a grid: one line per row, one glyph per cell,
/// every row terminated by a newline.
pub open spec fn render_text(cells: Seq<bool>, width: int, height: int) -> Seq<char> {
    Seq::new(
        (height * (width + 1)) as nat,
        |k: int|
            if k % (width + 1) == width {
                '\n'
            } else {
                glyph(cells[(k / (width + 1)) * width + k % (width + 1)])
            },
    )
}

/// The grid with the cell at linear index `i` inverted.
pub open spec fn toggled(cells: Seq<bool>, i: int) -> Seq<bool> {
    cells.update(i, !cells[i])
}

/// A row-major index is within the grid whenever its coordinates are.
pub proof fn lemma_idx_bound(width: int, height: int, row: int, col: int)
    requires
        0 <= row < height,
        0 <= col < width,
    ensures
        0 <= idx_of(width, row, col) < width * height,
{
    assert(0 <= row * width + col < width * height) by (nonlinear_arith)
        requires
            0 <= row < height,
            0 <= col < width,
    ;
}

/// Dividing a row-major index by the grid's width recovers the coordinates.
pub proof fn lemma_idx_recover(width: int, row: int, col: int)
    requires
        0 <= row,
        0 <= col < width,
    ensures
        idx_of(width, row, col) / width == row,
        idx_of(width, row, col) % width == col,
{
    lemma_fundamental_div_mod_converse(row * width + col, width, row, col);
}

/// The wrapping decrement agrees with subtraction modulo the axis length.
proof fn lemma_wrap_dec_mod(i: int, n: int)
    requires
        0 <= i < n,
    ensures
        wrap_dec(i, n) == (i + n - 1) % n,
{
    if i == 0 {
        vstd::arithmetic::div_mod::lemma_small_mod((n - 1) as nat, n as nat);
    } else {
        lemma_mod_add_multiples_vanish(i - 1, n);
        vstd::arithmetic::div_mod::lemma_small_mod((i - 1) as nat, n as nat);
    }
}

/// The wrapping increment agrees with addition modulo the axis length.
proof fn lemma_wrap_inc_mod(i: int, n: int)
    requires
        0 <= i < n,
    ensures
        wrap_inc(i, n) == (i + 1) % n,
{
    if i == n - 1 {
        vstd::arithmetic::div_mod::lemma_mod_self_0(n);
    } else {
        vstd::arithmetic::div_mod::lemma_small_mod((i + 1) as nat, n as nat);
    }
}

/// The wrapping decrement commutes with shifting the coordinate modulo the
/// axis length.
proof fn lemma_wrap_dec_shift(i: int, d: int, n: int)
    requires
        0 <= i < n,
        0 <= d < n,
    ensures
        wrap_dec((i + d) % n, n) == (wrap_dec(i, n) + d) % n,
{
    lemma_mod_bound(i + d, n);
    lemma_wrap_dec_mod((i + d) % n, n);
    lemma_wrap_dec_mod(i, n);
    lemma_add_mod_noop_right(n - 1, i + d, n);
    lemma_add_mod_noop_right(d, i + n - 1, n);
}

/// The wrapping increment commutes with shifting the coordinate modulo the
/// axis length.
proof fn lemma_wrap_inc_shift(i: int, d: int, n: int)
    requires
        0 <= i < n,
        0 <= d < n,
    ensures
        wrap_inc((i + d) % n, n) == (wrap_inc(i, n) + d) % n,
{
    lemma_mod_bound(i + d, n);
    lemma_wrap_inc_mod((i + d) % n, n);
    lemma_wrap_inc_mod(i, n);
    lemma_add_mod_noop_right(1, i + d, n);
    lemma_add_mod_noop_right(d, i + 1, n);
}

/// The grid rotated by (`dr`, `dc`): the cell that sat at (r, c) sits at
/// ((r + dr) % height, (c + dc) % width).
pub open spec fn rotated(cells: Seq<bool>, width: int, height: int, dr: int, dc: int) -> Seq<
    bool,
> {
    Seq::new(
        (width * height) as nat,
        |i: int|
            cells[idx_of(
                width,
                (i / width + (height - dr)) % height,
                (i % width + (width - dc)) % width,
            )],
    )
}

/// Rotating a grid moves each cell where it should: the rotated grid, read at
/// a rotated position, shows the original cell.
proof fn lemma_rotated_lookup(
    cells: Seq<bool>,
    width: int,
    height: int,
    dr: int,
    dc: int,
    row: int,
    col: int,
)
    requires
        0 <= dr < height,
        0 <= dc < width,
        0 <= row < height,
        0 <= col < width,
    ensures
        rotated(cells, width, height, dr, dc)[idx_of(
            width,
            (row + dr) % height,
            (col + dc) % width,
        )] == cells[idx_of(width, row, col)],
{
    lemma_mod_bound(row + dr, height);
    lemma_mod_bound(col + dc, width);
    let r2: int = (row + dr) % height;
    let c2: int = (col + dc) % width;
    lemma_idx_bound(width, height, r2, c2);
    lemma_idx_recover(width, r2, c2);
    lemma_add_mod_noop_right(height - dr, row + dr, height);
    lemma_mod_add_multiples_vanish(row, height);
    vstd::arithmetic::div_mod::lemma_small_mod(row as nat, height as nat);
    lemma_add_mod_noop_right(width - dc, col + dc, width);
    lemma_mod_add_multiples_vanish(col, width);
    vstd::arithmetic::div_mod::lemma_small_mod(col as nat, width as nat);
    assert((r2 + (height - dr)) % height == row);
    assert((c2 + (width - dc)) % width == col);
}

/// Toroidal symmetry of the neighbor count: rotating the whole grid and the
/// queried cell by the same (row, column) offset, both taken modulo the grid
/// dimensions, leaves the live-neighbor count unchanged.
pub proof fn lemma_neighbors_rotated(
    cells: Seq<bool>,
    width: int,
    height: int,
    dr: int,
    dc: int,
    row: int,
    col: int,
)
    requires
        0 <= dr < height,
        0 <= dc < width,
        0 <= row < height,
        0 <= col < width,
    ensures
        live_neighbors(
            rotated(cells, width, height, dr, dc),
            width,
            height,
            (row + dr) % height,
            (col + dc) % width,
        ) == live_neighbors(cells, width, height, row, col),
{
    lemma_mod_bound(row + dr, height);
    lemma_mod_bound(col + dc, width);
    lemma_wrap_dec_shift(row, dr, height);
    lemma_wrap_inc_shift(row, dr, height);
    lemma_wrap_dec_shift(col, dc, width);
    lemma_wrap_inc_shift(col, dc, width);
    let rn: int = wrap_dec(row, height);
    let rs: int = wrap_inc(row, height);
    let cw: int = wrap_dec(col, width);
    let ce: int = wrap_inc(col, width);
    lemma_rotated_lookup(cells, width, height, dr, dc, rn, cw);
    lemma_rotated_lookup(cells, width, height, dr, dc, rn, col);
    lemma_rotated_lookup(cells, width, height, dr, dc, rn, ce);
    lemma_rotated_lookup(cells, width, height, dr, dc, row, cw);
    lemma_rotated_lookup(cells, width, height, dr, dc, row, ce);
    lemma_rotated_lookup(cells, width, height, dr, dc, rs, cw);
    lemma_rotated_lookup(cells, width, height, dr, dc, rs, col);
    lemma_rotated_lookup(cells, width, height, dr, dc, rs, ce);
}

/// The birth/survival rule spelled out row by row of the (state, count)
/// table: a live cell with fewer than two live neighbors dies, with two or
/// three survives, with more than three dies; a dead cell with exactly three
/// is born, and any other dead cell stays as it was.
pub proof fn lemma_rule_table(alive: bool, neighbors: int)
    requires
        0 <= neighbors <= 8,
    ensures
        alive && neighbors < 2 ==> !next_state(alive, neighbors),
        alive && (neighbors == 2 || neighbors == 3) ==> next_state(alive, neighbors),
        alive && neighbors > 3 ==> !next_state(alive, neighbors),
        !alive && neighbors == 3 ==> next_state(alive, neighbors),
        !alive && neighbors != 3 ==> next_state(alive, neighbors) == alive,
{
}

/// Toggling the same cell twice restores the grid exactly.
pub proof fn lemma_toggle_twice(cells: Seq<bool>, i: int)
    requires
        0 <= i < cells.len(),
    ensures
        toggled(toggled(cells, i), i) == cells,
{
    assert(toggled(toggled(cells, i), i) =~= cells);
}

/// A grid described cell by cell: the flag at linear index `i` is the
/// predicate's value on the coordinates `i` addresses.
pub open spec fn grid_of(width: int, height: int, p: spec_fn(int, int) -> bool) -> Seq<bool> {
    Seq::new((width * height) as nat, |i: int| p(i / width, i % width))
}

/// A pointwise-described grid reads back the predicate at every in-bounds
/// coordinate pair.
proof fn lemma_grid_of_lookup(width: int, height: int, p: spec_fn(int, int) -> bool, row: int, col: int)
    requires
        in_bounds(width, height, row, col),
    ensures
        grid_of(width, height, p)[idx_of(width, row, col)] == p(row, col),
{
    lemma_idx_bound(width, height, row, col);
    lemma_idx_recover(width, row, col);
}

/// On a pointwise-described grid the live-neighbor count is the number of the
/// eight wrapped neighbor coordinates the predicate holds at.
proof fn lemma_neighbors_pointwise(
    width: int,
    height: int,
    p: spec_fn(int, int) -> bool,
    row: int,
    col: int,
)
    requires
        in_bounds(width, height, row, col),
    ensures
        live_neighbors(grid_of(width, height, p), width, height, row, col) == b2i(
            p(wrap_dec(row, height), wrap_dec(col, width)),
        ) + b2i(p(wrap_dec(row, height), col)) + b2i(p(wrap_dec(row, height), wrap_inc(col, width)))
            + b2i(p(row, wrap_dec(col, width))) + b2i(p(row, wrap_inc(col, width))) + b2i(
            p(wrap_inc(row, height), wrap_dec(col, width)),
        ) + b2i(p(wrap_inc(row, height), col)) + b2i(
            p(wrap_inc(row, height), wrap_inc(col, width)),
        ),
{
    let rn: int = wrap_dec(row, height);
    let rs: int = wrap_inc(row, height);
    let cw: int = wrap_dec(col, width);
    let ce: int = wrap_inc(col, width);
    lemma_grid_of_lookup(width, height, p, rn, cw);
    lemma_grid_of_lookup(width, height, p, rn, col);
    lemma_grid_of_lookup(width, height, p, rn, ce);
    lemma_grid_of_lookup(width, height, p, row, cw);
    lemma_grid_of_lookup(width, height, p, row, ce);
    lemma_grid_of_lookup(width, height, p, rs, cw);
    lemma_grid_of_lookup(width, height, p, rs, col);
    lemma_grid_of_lookup(width, height, p, rs, ce);
}

/// The coordinates a linear index of a grid addresses are in bounds.
proof fn lemma_coords_of_idx(width: int, height: int, i: int)
    requires
        0 < width,
        0 <= i < width * height,
    ensures
        in_bounds(width, height, i / width, i % width),
        i == idx_of(width, i / width, i % width),
{
    lemma_mod_bound(i, width);
    vstd::arithmetic::div_mod::lemma_fundamental_div_mod(i, width);
    vstd::arithmetic::mul::lemma_mul_is_commutative(width, i / width);
    assert(0 <= i / width < height) by (nonlinear_arith)
        requires
            0 < width,
            0 <= i < width * height,
            i == width * (i / width) + i % width,
            0 <= i % width < width,
    ;
}

/// A square block of four live cells placed at anchor (`r0`, `c0`).
pub open spec fn block_cells(r0: int, c0: int) -> spec_fn(int, int) -> bool {
    |r: int, c: int| r0 <= r <= r0 + 1 && c0 <= c <= c0 + 1
}

/// The classic still life: a 2 x 2 block of live cells whose surrounding ring
/// is dead, far enough from the edges that wraparound cannot interfere, is
/// unchanged by a generation step.
pub proof fn lemma_block_still_life(width: int, height: int, r0: int, c0: int)
    requires
        1 <= r0,
        r0 + 2 < height,
        1 <= c0,
        c0 + 2 < width,
    ensures
        next_gen(grid_of(width, height, block_cells(r0, c0)), width, height) == grid_of(
            width,
            height,
            block_cells(r0, c0),
        ),
{
    let p = block_cells(r0, c0);
    let g = grid_of(width, height, p);
    assert forall|i: int| 0 <= i < width * height implies next_gen(g, width, height)[i] == g[i] by {
        lemma_coords_of_idx(width, height, i);
        let r: int = i / width;
        let c: int = i % width;
        lemma_grid_of_lookup(width, height, p, r, c);
        lemma_neighbors_pointwise(width, height, p, r, c);
    }
    assert(next_gen(g, width, height) =~= g);
}

/// A horizontal line of three live cells starting at (`r0`, `c0`).
pub open spec fn blinker_row(r0: int, c0: int) -> spec_fn(int, int) -> bool {
    |r: int, c: int| r == r0 && c0 <= c <= c0 + 2
}

/// A vertical line of three live cells centered at (`r0`, `c0 + 1`), the
/// middle of the corresponding horizontal line.
pub open spec fn blinker_column(r0: int, c0: int) -> spec_fn(int, int) -> bool {
    |r: int, c: int| r0 - 1 <= r <= r0 + 1 && c == c0 + 1
}

/// The classic oscillator: a horizontal three-cell blinker far enough from
/// the edges becomes the corresponding vertical three-cell line after one
/// step, and that vertical line becomes the horizontal one again after the
/// next.
#[verifier::rlimit(50)]
pub proof fn lemma_blinker_oscillates(width: int, height: int, r0: int, c0: int)
    requires
        2 <= r0,
        r0 + 2 < height,
        1 <= c0,
        c0 + 3 < width,
    ensures
        next_gen(grid_of(width, height, blinker_row(r0, c0)), width, height) == grid_of(
            width,
            height,
            blinker_column(r0, c0),
        ),
        next_gen(grid_of(width, height, blinker_column(r0, c0)), width, height) == grid_of(
            width,
            height,
            blinker_row(r0, c0),
        ),
{
    let ph = blinker_row(r0, c0);
    let pv = blinker_column(r0, c0);
    let gh = grid_of(width, height, ph);
    let gv = grid_of(width, height, pv);
    assert forall|i: int| 0 <= i < width * height implies next_gen(gh, width, height)[i]
        == gv[i] by {
        lemma_coords_of_idx(width, height, i);
        let r: int = i / width;
        let c: int = i % width;
        lemma_grid_of_lookup(width, height, ph, r, c);
        lemma_grid_of_lookup(width, height, pv, r, c);
        lemma_neighbors_pointwise(width, height, ph, r, c);
    }
    assert(next_gen(gh, width, height) =~= gv);
    assert forall|i: int| 0 <= i < width * height implies next_gen(gv, width, height)[i]
        == gh[i] by {
        lemma_coords_of_idx(width, height, i);
        let r: int = i / width;
        let c: int = i % width;
        lemma_grid_of_lookup(width, height, ph, r, c);
        lemma_grid_of_lookup(width, height, pv, r, c);
        lemma_neighbors_pointwise(width, height, pv, r, c);
    }
    assert(next_gen(gv, width, height) =~= gh);
}

/// A grid with no cells is unchanged by a generation step.
pub proof fn lemma_step_empty(cells: Seq<bool>, width: int, height: int)
    requires
        cells.len() == 0,
        width * height == 0,
    ensures
        next_gen(cells, width, height) == cells,
{
    assert(next_gen(cells, width, height) =~= cells);
}

} // verus!
