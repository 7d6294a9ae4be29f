use vstd::prelude::*;
use vstd::arithmetic::div_mod::{
    lemma_small_mod, lemma_mod_add_multiples_vanish, lemma_mod_self_0,
};
use crate::cell::{CellCoord, CellValue};
use crate::params::Params;

verus! {

/// A well-formed world: `height` rows of `width` cells each, with at least one
/// cell in each dimension.
pub open spec fn wf_grid(g: Seq<Seq<CellValue>>, width: int, height: int) -> bool {
    &&& width >= 1
    &&& height >= 1
    &&& g.len() == height
    &&& forall|y: int| 0 <= y < height ==> (#[trigger] g[y]).len() == width
}

/// 1 for an alive cell, 0 for a dead one.
pub open spec fn alive_weight(c: CellValue) -> int {
    if c is Alive {
        1
    } else {
        0
    }
}

/// The coordinate one step towards zero on an axis of length `n`, wrapping to
/// the far edge.
pub open spec fn wrap_dec(i: int, n: int) -> int {
    if i == 0 {
        n - 1
    } else {
        i - 1
    }
}

/// The coordinate one step away from zero on an axis of length `n`, wrapping
/// to zero at the far edge.
pub open spec fn wrap_inc(i: int, n: int) -> int {
    if i == n - 1 {
        0
    } else {
        i + 1
    }
}

/// Both wrap steps agree with the toroidal formula `(i + delta + n) % n`.
pub proof fn lemma_wrap_is_toroidal_mod(i: int, n: int)
    requires
        0 <= i < n,
    ensures
        wrap_dec(i, n) == (i - 1 + n) % n,
        wrap_inc(i, n) == (i + 1 + n) % n,
{
    lemma_mod_add_multiples_vanish(i - 1, n);
    lemma_mod_add_multiples_vanish(i + 1, n);
    if i == 0 {
        lemma_small_mod((n - 1) as nat, n as nat);
    } else {
        lemma_small_mod((i - 1) as nat, n as nat);
    }
    if i == n - 1 {
        lemma_mod_self_0(n);
    } else {
        lemma_small_mod((i + 1) as nat, n as nat);
    }
}

/// How many of the eight toroidal neighbor positions of `(x, y)` hold an alive
/// cell. On an axis of length 1 the wrapped positions coincide, and such a
/// position is counted once for each neighbor offset that reaches it, exactly
/// as the `(coord + delta + dimension) % dimension` rule does.
pub open spec fn spec_neighbor_count(
    g: Seq<Seq<CellValue>>,
    width: int,
    height: int,
    x: int,
    y: int,
) -> int {
    let xl = wrap_dec(x, width);
    let xr = wrap_inc(x, width);
    let yu = wrap_dec(y, height);
    let yd = wrap_inc(y, height);
    alive_weight(g[yu][xl]) + alive_weight(g[yu][x]) + alive_weight(g[yu][xr])
        + alive_weight(g[y][xl]) + alive_weight(g[y][xr]) + alive_weight(g[yd][xl])
        + alive_weight(g[yd][x]) + alive_weight(g[yd][xr])
}

/// The standard rule: an alive cell with two or three alive neighbors stays
/// alive, otherwise it dies; a dead cell with exactly three alive neighbors
/// becomes alive, otherwise it stays dead.
pub open spec fn spec_next_state(cell: CellValue, count: int) -> CellValue {
    if cell is Alive {
        if count == 2 || count == 3 {
            CellValue::Alive
        } else {
            CellValue::Dead
        }
    } else {
        if count == 3 {
            CellValue::Alive
        } else {
            CellValue::Dead
        }
    }
}

/// The cell at `(x, y)` after one turn.
pub open spec fn spec_next_cell(
    g: Seq<Seq<CellValue>>,
    width: int,
    height: int,
    x: int,
    y: int,
) -> CellValue {
    spec_next_state(g[y][x], spec_neighbor_count(g, width, height, x, y))
}

/// Row `y` of the world after one turn.
pub open spec fn spec_row(g: Seq<Seq<CellValue>>, width: int, height: int, y: int) -> Seq<
    CellValue,
> {
    Seq::new(width as nat, |x: int| spec_next_cell(g, width, height, x, y))
}

/// The whole world after one turn.
pub open spec fn spec_step(g: Seq<Seq<CellValue>>, width: int, height: int) -> Seq<
    Seq<CellValue>,
> {
    Seq::new(height as nat, |y: int| spec_row(g, width, height, y))
}

/// A turn keeps the world well formed.
pub proof fn lemma_step_wf(g: Seq<Seq<CellValue>>, width: int, height: int)
    requires
        wf_grid(g, width, height),
    ensures
        wf_grid(spec_step(g, width, height), width, height),
{
}

/// Read one cell of the world.
pub fn cell_at(world: &Vec<Vec<CellValue>>, params: &Params, x: usize, y: usize) -> (c: CellValue)
    requires
        wf_grid(world.deep_view(), params.image_width as int, params.image_height as int),
        x < params.image_width,
        y < params.image_height,
    ensures
        c == world.deep_view()[y as int][x as int],
{
    proof {
        assert(world.deep_view()[y as int].len() == params.image_width);
    }
    world[y][x]
}

/// The number of the eight toroidal neighbors of `(x, y)` that are alive.
#[verifier::rlimit(30)]
pub fn neighbor_count(world: &Vec<Vec<CellValue>>, params: &Params, x: usize, y: usize) -> (count:
    usize)
    requires
        wf_grid(world.deep_view(), params.image_width as int, params.image_height as int),
        x < params.image_width,
        y < params.image_height,
    ensures
        count == spec_neighbor_count(
            world.deep_view(),
            params.image_width as int,
            params.image_height as int,
            x as int,
            y as int,
        ),
{
    let w = params.image_width;
    let h = params.image_height;
    let xl = if x == 0 { w - 1 } else { x - 1 };
    let xr = if x == w - 1 { 0 } else { x + 1 };
    let yu = if y == 0 { h - 1 } else { y - 1 };
    let yd = if y == h - 1 { 0 } else { y + 1 };
    let mut count: usize = 0;
    if cell_at(world, params, xl, yu).is_alive() {
        count += 1;
    }
    if cell_at(world, params, x, yu).is_alive() {
        count += 1;
    }
    if cell_at(world, params, xr, yu).is_alive() {
        count += 1;
    }
    if cell_at(world, params, xl, y).is_alive() {
        count += 1;
    }
    if cell_at(world, params, xr, y).is_alive() {
        count += 1;
    }
    if cell_at(world, params, xl, yd).is_alive() {
        count += 1;
    }
    if cell_at(world, params, x, yd).is_alive() {
        count += 1;
    }
    if cell_at(world, params, xr, yd).is_alive() {
        count += 1;
    }
    count
}

/// Apply the rule to one cell, given its alive-neighbor count.
pub fn next_state(cell: CellValue, count: usize) -> (r: CellValue)
    ensures
        r == spec_next_state(cell, count as int),
{
    match cell {
        CellValue::Alive => if count == 2 || count == 3 {
            CellValue::Alive
        } else {
            CellValue::Dead
        },
        CellValue::Dead => if count == 3 {
            CellValue::Alive
        } else {
            CellValue::Dead
        },
    }
}

/// Compute row `y` of the next world from the current one.
pub fn compute_row(world: &Vec<Vec<CellValue>>, params: &Params, y: usize) -> (row: Vec<CellValue>)
    requires
        wf_grid(world.deep_view(), params.image_width as int, params.image_height as int),
        y < params.image_height,
    ensures
        row@ == spec_row(
            world.deep_view(),
            params.image_width as int,
            params.image_height as int,
            y as int,
        ),
{
    let w = params.image_width;
    let h = params.image_height;
    let ghost g = world.deep_view();
    let mut row: Vec<CellValue> = Vec::new();
    let mut x: usize = 0;
    while x < w
        invariant
            wf_grid(g, w as int, h as int),
            g == world.deep_view(),
            w == params.image_width,
            h == params.image_height,
            y < h,
            x <= w,
            row@.len() == x,
            forall|j: int| 0 <= j < x ==> row@[j] == spec_next_cell(g, w as int, h as int, j, y as int),
        decreases w - x,
    {
        let cell = world[y][x];
        let count = neighbor_count(world, params, x, y);
        row.push(next_state(cell, count));
        proof {
            assert(g[y as int][x as int] == world@[y as int].deep_view()[x as int]);
        }
        x += 1;
    }
    proof {
        assert(row@ =~= spec_row(g, w as int, h as int, y as int));
    }
    row
}

/// Calculate the whole next world from the current one: every cell follows the
/// rule applied to its eight toroidal neighbors in the current world.
pub fn calculate_new_alive(world: &Vec<Vec<CellValue>>, params: &Params) -> (new_world: Vec<
    Vec<CellValue>,
>)
    requires
        wf_grid(world.deep_view(), params.image_width as int, params.image_height as int),
    ensures
        new_world.deep_view() == spec_step(
            world.deep_view(),
            params.image_width as int,
            params.image_height as int,
        ),
{
    let w = params.image_width;
    let h = params.image_height;
    let ghost g = world.deep_view();
    let mut new_world: Vec<Vec<CellValue>> = Vec::new();
    let mut y: usize = 0;
    while y < h
        invariant
            wf_grid(g, w as int, h as int),
            g == world.deep_view(),
            w == params.image_width,
            h == params.image_height,
            y <= h,
            new_world@.len() == y,
            forall|i: int|
                0 <= i < y ==> (#[trigger] new_world@[i]).deep_view() == spec_row(
                    g,
                    w as int,
                    h as int,
                    i,
                ),
        decreases h - y,
    {
        let row = compute_row(world, params, y);
        proof {
            assert(row.deep_view() =~= row@);
        }
        new_world.push(row);
        y += 1;
    }
    proof {
        assert(new_world.deep_view() =~= spec_step(g, w as int, h as int));
    }
    new_world
}

/// The coordinates of the alive cells among the first `x` cells of row `y`,
/// in order of increasing `x`.
pub open spec fn spec_row_alive(g: Seq<Seq<CellValue>>, y: int, x: int) -> Seq<CellCoord>
    decreases x,
{
    if x <= 0 {
        Seq::empty()
    } else {
        spec_row_alive(g, y, x - 1) + if g[y][x - 1] is Alive {
            seq![CellCoord { x: (x - 1) as usize, y: y as usize }]
        } else {
            Seq::empty()
        }
    }
}

/// The coordinates of the alive cells in the first `y` rows, row-major.
pub open spec fn spec_alive_cells(g: Seq<Seq<CellValue>>, width: int, y: int) -> Seq<CellCoord>
    decreases y,
{
    if y <= 0 {
        Seq::empty()
    } else {
        spec_alive_cells(g, width, y - 1) + spec_row_alive(g, y - 1, width)
    }
}

/// A row holds at most `x` alive cells among its first `x` cells, and the
/// world holds at most `y * width` alive cells in its first `y` rows.
pub proof fn lemma_alive_cells_bound(g: Seq<Seq<CellValue>>, width: int, y: int)
    requires
        width >= 0,
        y >= 0,
    ensures
        spec_alive_cells(g, width, y).len() <= y * width,
    decreases y,
{
    if y > 0 {
        lemma_alive_cells_bound(g, width, y - 1);
        lemma_row_alive_bound(g, y - 1, width);
        assert((y - 1) * width + width == y * width) by (nonlinear_arith);
    }
}

proof fn lemma_row_alive_bound(g: Seq<Seq<CellValue>>, y: int, x: int)
    requires
        x >= 0,
    ensures
        spec_row_alive(g, y, x).len() <= x,
    decreases x,
{
    if x > 0 {
        lemma_row_alive_bound(g, y, x - 1);
    }
}

/// The coordinates of all alive cells of the world, in row-major order.
pub fn get_alive_cells(world: &Vec<Vec<CellValue>>, params: &Params) -> (alive: Vec<CellCoord>)
    requires
        wf_grid(world.deep_view(), params.image_width as int, params.image_height as int),
    ensures
        alive@ == spec_alive_cells(
            world.deep_view(),
            params.image_width as int,
            params.image_height as int,
        ),
{
    let w = params.image_width;
    let h = params.image_height;
    let ghost g = world.deep_view();
    let mut alive: Vec<CellCoord> = Vec::new();
    let mut y: usize = 0;
    while y < h
        invariant
            wf_grid(g, w as int, h as int),
            g == world.deep_view(),
            w == params.image_width,
            h == params.image_height,
            y <= h,
            alive@ == spec_alive_cells(g, w as int, y as int),
        decreases h - y,
    {
        let mut x: usize = 0;
        while x < w
            invariant
                wf_grid(g, w as int, h as int),
                g == world.deep_view(),
                w == params.image_width,
                h == params.image_height,
                y < h,
                x <= w,
                alive@ == spec_alive_cells(g, w as int, y as int) + spec_row_alive(
                    g,
                    y as int,
                    x as int,
                ),
            decreases w - x,
        {
            if cell_at(world, params, x, y).is_alive() {
                alive.push(CellCoord { x, y });
            }
            proof {
                assert(alive@ =~= spec_alive_cells(g, w as int, y as int) + spec_row_alive(
                    g,
                    y as int,
                    x + 1,
                ));
            }
            x += 1;
        }
        y += 1;
    }
    alive
}

/// The number of alive cells in the world.
pub fn alive_count(world: &Vec<Vec<CellValue>>, params: &Params) -> (n: usize)
    requires
        wf_grid(world.deep_view(), params.image_width as int, params.image_height as int),
    ensures
        n == spec_alive_cells(
            world.deep_view(),
            params.image_width as int,
            params.image_height as int,
        ).len(),
{
    get_alive_cells(world, params).len()
}

/// The coordinates among the first `x` cells of row `y` where the two worlds
/// differ, in order of increasing `x`.
pub open spec fn spec_row_flips(
    o: Seq<Seq<CellValue>>,
    n: Seq<Seq<CellValue>>,
    y: int,
    x: int,
) -> Seq<CellCoord>
    decreases x,
{
    if x <= 0 {
        Seq::empty()
    } else {
        spec_row_flips(o, n, y, x - 1) + if o[y][x - 1] != n[y][x - 1] {
            seq![CellCoord { x: (x - 1) as usize, y: y as usize }]
        } else {
            Seq::empty()
        }
    }
}

/// The coordinates in the first `y` rows where the two worlds differ,
/// row-major.
pub open spec fn spec_flips(
    o: Seq<Seq<CellValue>>,
    n: Seq<Seq<CellValue>>,
    width: int,
    y: int,
) -> Seq<CellCoord>
    decreases y,
{
    if y <= 0 {
        Seq::empty()
    } else {
        spec_flips(o, n, width, y - 1) + spec_row_flips(o, n, y - 1, width)
    }
}

/// The coordinates of every cell that changed between the two worlds, in
/// row-major order: exactly the flip notifications one turn must emit.
pub fn get_flipped_cells(
    old_world: &Vec<Vec<CellValue>>,
    new_world: &Vec<Vec<CellValue>>,
    params: &Params,
) -> (flips: Vec<CellCoord>)
    requires
        wf_grid(old_world.deep_view(), params.image_width as int, params.image_height as int),
        wf_grid(new_world.deep_view(), params.image_width as int, params.image_height as int),
    ensures
        flips@ == spec_flips(
            old_world.deep_view(),
            new_world.deep_view(),
            params.image_width as int,
            params.image_height as int,
        ),
{
    let w = params.image_width;
    let h = params.image_height;
    let ghost o = old_world.deep_view();
    let ghost n = new_world.deep_view();
    let mut flips: Vec<CellCoord> = Vec::new();
    let mut y: usize = 0;
    while y < h
        invariant
            wf_grid(o, w as int, h as int),
            wf_grid(n, w as int, h as int),
            o == old_world.deep_view(),
            n == new_world.deep_view(),
            w == params.image_width,
            h == params.image_height,
            y <= h,
            flips@ == spec_flips(o, n, w as int, y as int),
        decreases h - y,
    {
        let mut x: usize = 0;
        while x < w
            invariant
                wf_grid(o, w as int, h as int),
                wf_grid(n, w as int, h as int),
                o == old_world.deep_view(),
                n == new_world.deep_view(),
                w == params.image_width,
                h == params.image_height,
                y < h,
                x <= w,
                flips@ == spec_flips(o, n, w as int, y as int) + spec_row_flips(
                    o,
                    n,
                    y as int,
                    x as int,
                ),
            decreases w - x,
        {
            let before = cell_at(old_world, params, x, y);
            let after = cell_at(new_world, params, x, y);
            if before != after {
                flips.push(CellCoord { x, y });
            }
            proof {
                assert(flips@ =~= spec_flips(o, n, w as int, y as int) + spec_row_flips(
                    o,
                    n,
                    y as int,
                    x + 1,
                ));
            }
            x += 1;
        }
        y += 1;
    }
    flips
}

/// The first `y` rows of the world joined into one row-major sequence.
pub open spec fn spec_flat(g: Seq<Seq<CellValue>>, y: int) -> Seq<CellValue>
    decreases y,
{
    if y <= 0 {
        Seq::empty()
    } else {
        spec_flat(g, y - 1) + g[y - 1]
    }
}

/// The row-major flattening of a well-formed world has `width * height` cells,
/// and the cell at `(x, y)` sits at index `y * width + x`.
pub proof fn lemma_flat_index(g: Seq<Seq<CellValue>>, width: int, height: int, y: int)
    requires
        wf_grid(g, width, height),
        0 <= y <= height,
    ensures
        spec_flat(g, y).len() == y * width,
        forall|i: int, j: int|
            0 <= i < y && 0 <= j < width ==> spec_flat(g, y)[i * width + j] == g[i][j],
    decreases y,
{
    if y > 0 {
        lemma_flat_index(g, width, height, y - 1);
        assert((y - 1) * width + width == y * width) by (nonlinear_arith);
        assert forall|i: int, j: int|
            0 <= i < y && 0 <= j < width implies spec_flat(g, y)[i * width + j] == g[i][j] by {
            if i < y - 1 {
                assert(0 <= i * width + j < (y - 1) * width) by (nonlinear_arith)
                    requires
                        0 <= i < y - 1,
                        0 <= j < width,
                ;
            } else {
                assert(i * width + j == (y - 1) * width + j);
            }
        }
    }
}

/// The world laid out as one row-major sequence of cells, as a snapshot or the
/// alternate executor expects it.
pub fn flatten_world(world: &Vec<Vec<CellValue>>, params: &Params) -> (flat: Vec<CellValue>)
    requires
        wf_grid(world.deep_view(), params.image_width as int, params.image_height as int),
    ensures
        flat@ == spec_flat(world.deep_view(), params.image_height as int),
{
    let w = params.image_width;
    let h = params.image_height;
    let ghost g = world.deep_view();
    let mut flat: Vec<CellValue> = Vec::new();
    let mut y: usize = 0;
    while y < h
        invariant
            wf_grid(g, w as int, h as int),
            g == world.deep_view(),
            w == params.image_width,
            h == params.image_height,
            y <= h,
            flat@ == spec_flat(g, y as int),
        decreases h - y,
    {
        let mut x: usize = 0;
        while x < w
            invariant
                wf_grid(g, w as int, h as int),
                g == world.deep_view(),
                w == params.image_width,
                h == params.image_height,
                y < h,
                x <= w,
                flat@ == spec_flat(g, y as int) + g[y as int].subrange(0, x as int),
            decreases w - x,
        {
            flat.push(cell_at(world, params, x, y));
            proof {
                assert(flat@ =~= spec_flat(g, y as int) + g[y as int].subrange(0, x + 1));
            }
            x += 1;
        }
        proof {
            assert(g[y as int].subrange(0, w as int) =~= g[y as int]);
        }
        y += 1;
    }
    flat
}

/// Rebuild a world from one row-major sequence of cells, as the load path
/// receives it.
pub fn world_from_cells(cells: &Vec<CellValue>, params: &Params) -> (world: Vec<Vec<CellValue>>)
    requires
        params.valid(),
        cells@.len() == params.image_width * params.image_height,
    ensures
        wf_grid(world.deep_view(), params.image_width as int, params.image_height as int),
        spec_flat(world.deep_view(), params.image_height as int) == cells@,
{
    let w = params.image_width;
    let h = params.image_height;
    let total = cells.len();
    let mut world: Vec<Vec<CellValue>> = Vec::new();
    let mut y: usize = 0;
    let mut idx: usize = 0;
    while y < h
        invariant
            w == params.image_width,
            h == params.image_height,
            w >= 1,
            h >= 1,
            cells@.len() == w * h,
            total == cells@.len(),
            y <= h,
            idx == y * w,
            world@.len() == y,
            forall|i: int|
                0 <= i < y ==> (#[trigger] world@[i]).deep_view() == cells@.subrange(
                    i * (w as int),
                    (i + 1) * (w as int),
                ),
        decreases h - y,
    {
        proof {
            assert((y + 1) * (w as int) <= (h as int) * (w as int)) by (nonlinear_arith)
                requires
                    y < h,
                    w >= 1,
            ;
            assert((w as int) * (h as int) == (h as int) * (w as int)) by (nonlinear_arith);
            assert(y * (w as int) + (w as int) == (y + 1) * (w as int)) by (nonlinear_arith);
        }
        let mut row: Vec<CellValue> = Vec::new();
        let mut x: usize = 0;
        while x < w
            invariant
                w >= 1,
                cells@.len() == w * h,
                total == cells@.len(),
                y < h,
                x <= w,
                idx == y * w + x,
                (y + 1) * (w as int) <= cells@.len(),
                y * (w as int) + (w as int) == (y + 1) * (w as int),
                row@ == cells@.subrange(y * (w as int), y * (w as int) + x),
            decreases w - x,
        {
            row.push(cells[idx]);
            proof {
                assert(row@ =~= cells@.subrange(y * (w as int), y * (w as int) + x + 1));
            }
            idx += 1;
            x += 1;
        }
        proof {
            assert(row.deep_view() =~= row@);
        }
        world.push(row);
        y += 1;
    }
    proof {
        let g = world.deep_view();
        assert forall|i: int| 0 <= i < h implies 0 <= #[trigger] (i * (w as int)) && i * (w as int)
            <= (i + 1) * (w as int) <= cells@.len() by {
            assert(0 <= i * (w as int) <= (i + 1) * (w as int) <= (w as int) * (h as int))
                by (nonlinear_arith)
                requires
                    0 <= i < h,
                    w >= 1,
            ;
        }
        assert forall|i: int| 0 <= i < h implies (#[trigger] g[i]).len() == w by {
            assert(g[i] == world@[i].deep_view());
            assert((i + 1) * (w as int) - i * (w as int) == w) by (nonlinear_arith);
        }
        lemma_flat_index(g, w as int, h as int, h as int);
        assert(wf_grid(g, w as int, h as int));
        assert forall|k: int| 0 <= k < cells@.len() implies spec_flat(g, h as int)[k] == cells@[k]
            by {
            let i = k / (w as int);
            let j = k % (w as int);
            vstd::arithmetic::div_mod::lemma_fundamental_div_mod(k, w as int);
            vstd::arithmetic::div_mod::lemma_mod_bound(k, w as int);
            assert(0 <= i < h) by (nonlinear_arith)
                requires
                    k == (w as int) * i + j,
                    0 <= j < w,
                    0 <= k < (w as int) * (h as int),
                    w >= 1,
            ;
            assert(g[i] == world@[i].deep_view());
            assert(g[i] == cells@.subrange(i * (w as int), (i + 1) * (w as int)));
            assert(spec_flat(g, h as int)[i * (w as int) + j] == g[i][j]);
            assert(g[i][j] == cells@.subrange(i * (w as int), (i + 1) * (w as int))[j]);
            assert((i + 1) * (w as int) == i * (w as int) + (w as int)) by (nonlinear_arith);
            assert(k == i * (w as int) + j);
        }
        assert(spec_flat(g, h as int).len() == (h as int) * (w as int));
        assert((h as int) * (w as int) == cells@.len()) by (nonlinear_arith)
            requires
                cells@.len() == (w as int) * (h as int),
        ;
        assert(spec_flat(g, h as int) =~= cells@);
    }
    world
}

/// The bytes of a sequence of cells: 255 for each alive cell, 0 for each dead
/// one.
pub open spec fn spec_cells_bytes(cells: Seq<CellValue>) -> Seq<u8> {
    cells.map_values(|c: CellValue| c.spec_to_byte())
}

/// The cells read leniently from a sequence of bytes: 255 is alive, any other
/// byte is dead.
pub open spec fn spec_bytes_cells(bytes: Seq<u8>) -> Seq<CellValue> {
    bytes.map_values(|b: u8| CellValue::spec_from_byte(b))
}

/// Serialize cells to their snapshot bytes.
pub fn cells_to_bytes(cells: &Vec<CellValue>) -> (bytes: Vec<u8>)
    ensures
        bytes@ == spec_cells_bytes(cells@),
{
    let mut bytes: Vec<u8> = Vec::new();
    let mut i: usize = 0;
    while i < cells.len()
        invariant
            i <= cells@.len(),
            bytes@.len() == i,
            forall|j: int| 0 <= j < i ==> bytes@[j] == cells@[j].spec_to_byte(),
        decreases cells@.len() - i,
    {
        bytes.push(cells[i].to_byte());
        i += 1;
    }
    proof {
        assert(bytes@ =~= spec_cells_bytes(cells@));
    }
    bytes
}

/// Read cells leniently from snapshot bytes.
pub fn bytes_to_cells(bytes: &Vec<u8>) -> (cells: Vec<CellValue>)
    ensures
        cells@ == spec_bytes_cells(bytes@),
{
    let mut cells: Vec<CellValue> = Vec::new();
    let mut i: usize = 0;
    while i < bytes.len()
        invariant
            i <= bytes@.len(),
            cells@.len() == i,
            forall|j: int| 0 <= j < i ==> cells@[j] == CellValue::spec_from_byte(bytes@[j]),
        decreases bytes@.len() - i,
    {
        cells.push(CellValue::from(bytes[i]));
        i += 1;
    }
    proof {
        assert(cells@ =~= spec_bytes_cells(bytes@));
    }
    cells
}

/// Serializing cells to bytes and reading them back yields the same cells.
pub proof fn lemma_cells_bytes_round_trip(cells: Seq<CellValue>)
    ensures
        spec_bytes_cells(spec_cells_bytes(cells)) == cells,
{
    assert forall|i: int| 0 <= i < cells.len() implies spec_bytes_cells(spec_cells_bytes(cells))[i]
        == cells[i] by {
        crate::cell::lemma_cell_byte_round_trip(cells[i]);
    }
    assert(spec_bytes_cells(spec_cells_bytes(cells)) =~= cells);
}

/// How many of the first `i` bytes stand for an alive cell.
pub open spec fn spec_alive_bytes(bytes: Seq<u8>, i: int) -> int
    decreases i,
{
    if i <= 0 {
        0
    } else {
        spec_alive_bytes(bytes, i - 1) + alive_weight(CellValue::spec_from_byte(bytes[i - 1]))
    }
}

/// Count the alive cells in a row-major byte plane, as the alternate executor
/// reports them.
pub fn alive_count_from_bytes(bytes: &Vec<u8>) -> (n: usize)
    ensures
        n == spec_alive_bytes(bytes@, bytes@.len() as int),
        n <= bytes@.len(),
{
    let mut n: usize = 0;
    let mut i: usize = 0;
    while i < bytes.len()
        invariant
            i <= bytes@.len(),
            n == spec_alive_bytes(bytes@, i as int),
            n <= i,
        decreases bytes@.len() - i,
    {
        if bytes[i] == 255 {
            n += 1;
        }
        i += 1;
    }
    n
}

} // verus!

