use vstd::prelude::*;
use crate::cell::CellValue;
use crate::errors::GolError;
use crate::grid::{
    alive_count_from_bytes, bytes_to_cells, spec_alive_bytes, spec_bytes_cells, spec_flat,
    wf_grid, world_from_cells,
};
use crate::params::Params;

verus! {

/// The alternate executor's world push, the computing half of its only real
/// call: take a whole world as a row-major byte plane with its dimensions,
/// rebuild the world from it leniently, and report how many of its cells
/// are alive. A push whose dimensions are zero or do not match the plane's
/// size is rejected as an `IoError`, exactly as a snapshot of the wrong
/// size is on load.
pub fn push_world(width: usize, height: usize, bytes: &Vec<u8>) -> (r: Result<
    (Vec<Vec<CellValue>>, u32),
    GolError,
>)
    requires
        width * height <= u32::MAX,
    ensures
        r is Ok <==> (width >= 1 && height >= 1 && bytes@.len() == width * height),
        r matches Ok(p) ==> wf_grid(p.0.deep_view(), width as int, height as int) && spec_flat(
            p.0.deep_view(),
            height as int,
        ) == spec_bytes_cells(bytes@) && p.1 == spec_alive_bytes(bytes@, bytes@.len() as int),
        r matches Err(e) ==> e == GolError::IoError,
{
    if width == 0 || height == 0 {
        return Err(GolError::IoError);
    }
    let expected: usize = width * height;
    if bytes.len() != expected {
        return Err(GolError::IoError);
    }
    let cells = bytes_to_cells(bytes);
    let p = Params { turns: 0, threads: 1, image_width: width, image_height: height };
    let world = world_from_cells(&cells, &p);
    let count = alive_count_from_bytes(bytes);
    Ok((world, count as u32))
}

} // verus!
