use vstd::prelude::*;
use vstd::arithmetic::div_mod::{lemma_fundamental_div_mod, lemma_mod_bound, lemma_div_pos_is_pos};
use vstd::arithmetic::mul::{lemma_mul_inequality, lemma_mul_is_distributive_add_other_way};
use crate::cell::CellValue;
use crate::grid::{spec_step, wf_grid, compute_row, spec_row};
use crate::params::Params;

verus! {

/// The first row of band `i` when `height` rows are split into `workers`
/// contiguous bands, as equal as possible, with the remainder rows going to
/// the first bands. Band `i` holds the rows from `spec_band_start(i)` up to
/// `spec_band_start(i + 1)`; `spec_band_start(workers) == height`.
pub open spec fn spec_band_start(height: int, workers: int, i: int) -> int {
    let base = height / workers;
    let rem = height % workers;
    i * base + if i <= rem {
        i
    } else {
        rem
    }
}

/// The band starts are monotone, begin at row 0, and end at `height`: the
/// bands cover every row exactly once.
pub proof fn lemma_band_bounds(height: int, workers: int, i: int)
    requires
        height >= 0,
        workers >= 1,
        0 <= i <= workers,
    ensures
        0 <= spec_band_start(height, workers, i) <= height,
        spec_band_start(height, workers, 0) == 0,
        spec_band_start(height, workers, workers) == height,
        i < workers ==> spec_band_start(height, workers, i) <= spec_band_start(
            height,
            workers,
            i + 1,
        ),
{
    let base = height / workers;
    let rem = height % workers;
    lemma_fundamental_div_mod(height, workers);
    lemma_mod_bound(height, workers);
    lemma_div_pos_is_pos(height, workers);
    lemma_mul_inequality(i, workers, base);
    assert(workers * base == base * workers) by (nonlinear_arith);
    assert(i * base >= 0) by (nonlinear_arith)
        requires
            i >= 0,
            base >= 0,
    ;
    if i < workers {
        lemma_mul_is_distributive_add_other_way(base, i, 1);
        assert(1 * base == base) by (nonlinear_arith);
    }
}

/// Compute the rows `[row_start, row_end)` of the next world: one worker's
/// share of a turn, read from a shared snapshot of the current world.
pub fn compute_band(
    world: &Vec<Vec<CellValue>>,
    params: &Params,
    row_start: usize,
    row_end: usize,
) -> (band: Vec<Vec<CellValue>>)
    requires
        wf_grid(world.deep_view(), params.image_width as int, params.image_height as int),
        row_start <= row_end <= params.image_height,
    ensures
        band.deep_view() == spec_step(
            world.deep_view(),
            params.image_width as int,
            params.image_height as int,
        ).subrange(row_start as int, row_end as int),
{
    let w = params.image_width;
    let h = params.image_height;
    let ghost g = world.deep_view();
    let mut band: Vec<Vec<CellValue>> = Vec::new();
    let mut y: usize = row_start;
    while y < row_end
        invariant
            wf_grid(g, w as int, h as int),
            g == world.deep_view(),
            w == params.image_width,
            h == params.image_height,
            row_start <= y <= row_end <= h,
            band@.len() == y - row_start,
            forall|i: int|
                0 <= i < y - row_start ==> (#[trigger] band@[i]).deep_view() == spec_row(
                    g,
                    w as int,
                    h as int,
                    row_start + i,
                ),
        decreases row_end - y,
    {
        let row = compute_row(world, params, y);
        proof {
            assert(row.deep_view() =~= row@);
        }
        band.push(row);
        y += 1;
    }
    proof {
        assert(band.deep_view() =~= spec_step(g, w as int, h as int).subrange(
            row_start as int,
            row_end as int,
        ));
    }
    band
}

/// Calculate the next world by splitting the rows into `params.threads`
/// bands, computing each band from the shared current world, and joining the
/// bands back together in order. The result is the same world
/// `calculate_new_alive` produces, whatever the worker count.
pub fn calculate_new_alive_partitioned(world: &Vec<Vec<CellValue>>, params: &Params) -> (new_world:
    Vec<Vec<CellValue>>)
    requires
        params.threads >= 1,
        wf_grid(world.deep_view(), params.image_width as int, params.image_height as int),
    ensures
        new_world.deep_view() == spec_step(
            world.deep_view(),
            params.image_width as int,
            params.image_height as int,
        ),
{
    let w = params.image_width;
    let h = params.image_height;
    let workers = params.threads;
    let ghost g = world.deep_view();
    let mut new_world: Vec<Vec<CellValue>> = Vec::new();
    let mut i: usize = 0;
    let mut row_start: usize = 0;
    while i < workers
        invariant
            wf_grid(g, w as int, h as int),
            g == world.deep_view(),
            w == params.image_width,
            h == params.image_height,
            workers == params.threads,
            workers >= 1,
            i <= workers,
            row_start == spec_band_start(h as int, workers as int, i as int),
            0 <= row_start <= h,
            new_world.deep_view() == spec_step(g, w as int, h as int).subrange(
                0,
                row_start as int,
            ),
        decreases workers - i,
    {
        let row_end = band_start(h, workers, i + 1);
        proof {
            lemma_band_bounds(h as int, workers as int, i as int);
        }
        let mut band = compute_band(world, params, row_start, row_end);
        let ghost prefix = new_world.deep_view();
        let ghost band_rows = band.deep_view();
        new_world.append(&mut band);
        proof {
            assert(new_world.deep_view() =~= prefix + band_rows);
            assert(prefix + band_rows =~= spec_step(g, w as int, h as int).subrange(
                0,
                row_end as int,
            ));
        }
        row_start = row_end;
        i += 1;
    }
    proof {
        lemma_band_bounds(h as int, workers as int, workers as int);
        assert(new_world.deep_view() =~= spec_step(g, w as int, h as int));
    }
    new_world
}

/// The first row of band `i`, as `spec_band_start` gives it.
pub fn band_start(height: usize, workers: usize, i: usize) -> (s: usize)
    requires
        workers >= 1,
        i <= workers,
    ensures
        s == spec_band_start(height as int, workers as int, i as int),
        s <= height,
{
    let base = height / workers;
    let rem = height % workers;
    let extra = if i <= rem {
        i
    } else {
        rem
    };
    proof {
        lemma_band_bounds(height as int, workers as int, i as int);
    }
    i * base + extra
}

/// One band of the next world: the rows `[spec_band_start(i),
/// spec_band_start(i + 1))` of `spec_step`.
pub open spec fn spec_band_rows(
    g: Seq<Seq<CellValue>>,
    width: int,
    height: int,
    workers: int,
    i: int,
) -> Seq<Seq<CellValue>> {
    spec_step(g, width, height).subrange(
        spec_band_start(height, workers, i),
        spec_band_start(height, workers, i + 1),
    )
}

/// The first `i` bands of the next world, joined in order.
pub open spec fn spec_bands(
    g: Seq<Seq<CellValue>>,
    width: int,
    height: int,
    workers: int,
    i: int,
) -> Seq<Seq<CellValue>>
    decreases i,
{
    if i <= 0 {
        Seq::empty()
    } else {
        spec_bands(g, width, height, workers, i - 1) + spec_band_rows(
            g,
            width,
            height,
            workers,
            i - 1,
        )
    }
}

/// The next world as the worker pool assembles it: every band, joined in
/// order.
pub open spec fn spec_step_partitioned(
    g: Seq<Seq<CellValue>>,
    width: int,
    height: int,
    workers: int,
) -> Seq<Seq<CellValue>> {
    spec_bands(g, width, height, workers, workers)
}

/// The first `i` bands are exactly the rows up to `spec_band_start(i)`.
proof fn lemma_bands_prefix(g: Seq<Seq<CellValue>>, width: int, height: int, workers: int, i: int)
    requires
        wf_grid(g, width, height),
        workers >= 1,
        0 <= i <= workers,
    ensures
        spec_bands(g, width, height, workers, i) == spec_step(g, width, height).subrange(
            0,
            spec_band_start(height, workers, i),
        ),
    decreases i,
{
    lemma_band_bounds(height, workers, i);
    if i == 0 {
        assert(spec_bands(g, width, height, workers, 0) =~= spec_step(
            g,
            width,
            height,
        ).subrange(0, 0));
    } else {
        lemma_bands_prefix(g, width, height, workers, i - 1);
        lemma_band_bounds(height, workers, i - 1);
        assert(spec_bands(g, width, height, workers, i) =~= spec_step(g, width, height).subrange(
            0,
            spec_band_start(height, workers, i),
        ));
    }
}

/// Partitioning a turn over any number of workers reassembles to exactly the
/// whole-world turn: the bands lose no row and change no cell.
pub proof fn lemma_partitioned_step_complete(
    g: Seq<Seq<CellValue>>,
    width: int,
    height: int,
    workers: int,
)
    requires
        wf_grid(g, width, height),
        workers >= 1,
    ensures
        spec_step_partitioned(g, width, height, workers) == spec_step(g, width, height),
{
    lemma_bands_prefix(g, width, height, workers, workers);
    lemma_band_bounds(height, workers, workers);
    assert(spec_step(g, width, height).subrange(0, height) =~= spec_step(g, width, height));
}

/// The worker count never affects the world a turn produces: any two worker
/// counts assemble the same next world.
pub proof fn lemma_worker_count_deterministic(
    g: Seq<Seq<CellValue>>,
    width: int,
    height: int,
    workers1: int,
    workers2: int,
)
    requires
        wf_grid(g, width, height),
        workers1 >= 1,
        workers2 >= 1,
    ensures
        spec_step_partitioned(g, width, height, workers1) == spec_step_partitioned(
            g,
            width,
            height,
            workers2,
        ),
{
    lemma_partitioned_step_complete(g, width, height, workers1);
    lemma_partitioned_step_complete(g, width, height, workers2);
}

} // verus!
