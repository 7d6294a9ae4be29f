use vstd::prelude::*;
use crate::cell::CellValue;
use crate::errors::GolError;
use crate::grid::{
    lemma_cells_bytes_round_trip, spec_bytes_cells, spec_cells_bytes, cells_to_bytes,
};
use crate::text::{decimal_bytes, spec_decimal_bytes};

verus! {

/// The header of a snapshot file: the bytes of `P5\n<width> <height>\n255\n`,
/// with both dimensions in decimal.
pub open spec fn spec_pgm_header(width: nat, height: nat) -> Seq<u8> {
    seq![80u8, 53u8, 10u8] + spec_decimal_bytes(width) + seq![32u8] + spec_decimal_bytes(height)
        + seq![10u8, 50u8, 53u8, 53u8, 10u8]
}

/// A whole snapshot file: the header, then one byte per cell in row-major
/// order.
pub open spec fn spec_encode_pgm(width: nat, height: nat, cells: Seq<CellValue>) -> Seq<u8> {
    spec_pgm_header(width, height) + spec_cells_bytes(cells)
}

/// What a byte stream decodes to as a `width` by `height` snapshot: the cells
/// of its payload, read leniently, when the stream starts with exactly the
/// snapshot header for these dimensions and carries exactly one byte per
/// cell; nothing otherwise.
pub open spec fn spec_decode_pgm(width: nat, height: nat, bytes: Seq<u8>) -> Option<
    Seq<CellValue>,
> {
    let hdr = spec_pgm_header(width, height);
    if bytes.len() == hdr.len() + width * height && bytes.subrange(0, hdr.len() as int) == hdr {
        Some(spec_bytes_cells(bytes.subrange(hdr.len() as int, bytes.len() as int)))
    } else {
        None
    }
}

/// Build the snapshot header for a `width` by `height` world.
pub fn pgm_header(width: usize, height: usize) -> (r: Vec<u8>)
    ensures
        r@ == spec_pgm_header(width as nat, height as nat),
{
    let mut r: Vec<u8> = Vec::new();
    r.push(80);
    r.push(53);
    r.push(10);
    let mut wd = decimal_bytes(width);
    r.append(&mut wd);
    r.push(32);
    let mut hd = decimal_bytes(height);
    r.append(&mut hd);
    r.push(10);
    r.push(50);
    r.push(53);
    r.push(53);
    r.push(10);
    proof {
        assert(r@ =~= spec_pgm_header(width as nat, height as nat));
    }
    r
}

/// Serialize a row-major sequence of cells as a complete snapshot file.
pub fn encode_pgm(width: usize, height: usize, cells: &Vec<CellValue>) -> (r: Vec<u8>)
    requires
        cells@.len() == width * height,
    ensures
        r@ == spec_encode_pgm(width as nat, height as nat, cells@),
{
    let mut r = pgm_header(width, height);
    let mut body = cells_to_bytes(cells);
    r.append(&mut body);
    r
}

/// Parse a byte stream as a `width` by `height` snapshot: check the header
/// and the payload size, then read the cells leniently. A stream that is not
/// exactly a snapshot of these dimensions is an `IoError`.
pub fn decode_pgm(width: usize, height: usize, bytes: &Vec<u8>) -> (r: Result<
    Vec<CellValue>,
    GolError,
>)
    ensures
        r is Ok <==> spec_decode_pgm(width as nat, height as nat, bytes@) is Some,
        r matches Ok(cells) ==> Some(cells@) == spec_decode_pgm(
            width as nat,
            height as nat,
            bytes@,
        ),
        r matches Err(e) ==> e == GolError::IoError,
{
    let hdr = pgm_header(width, height);
    let hl = hdr.len();
    let total = bytes.len();
    let cell_count = match width.checked_mul(height) {
        Some(c) => c,
        None => {
            proof {
                assert(bytes@.len() <= usize::MAX);
            }
            return Err(GolError::IoError);
        },
    };
    if total < hl || total - hl != cell_count {
        return Err(GolError::IoError);
    }
    let mut i: usize = 0;
    while i < hl
        invariant
            hdr@ == spec_pgm_header(width as nat, height as nat),
            hl == hdr@.len(),
            hl <= total == bytes@.len(),
            bytes@.len() == hl + width * height,
            i <= hl,
            forall|j: int| 0 <= j < i ==> bytes@[j] == hdr@[j],
        decreases hl - i,
    {
        if bytes[i] != hdr[i] {
            proof {
                assert(bytes@.subrange(0, hl as int)[i as int] != hdr@[i as int]);
            }
            return Err(GolError::IoError);
        }
        i += 1;
    }
    let mut cells: Vec<CellValue> = Vec::new();
    let mut k: usize = hl;
    while k < total
        invariant
            hl <= k <= total == bytes@.len(),
            cells@ == spec_bytes_cells(bytes@.subrange(hl as int, k as int)),
        decreases total - k,
    {
        cells.push(CellValue::from(bytes[k]));
        proof {
            assert(cells@ =~= spec_bytes_cells(bytes@.subrange(hl as int, k + 1)));
        }
        k += 1;
    }
    proof {
        assert(bytes@.subrange(0, hl as int) =~= hdr@);
    }
    Ok(cells)
}

/// Encoding a world-sized sequence of cells and decoding it with the same
/// dimensions yields exactly the same cells.
pub proof fn lemma_pgm_round_trip(width: nat, height: nat, cells: Seq<CellValue>)
    requires
        cells.len() == width * height,
    ensures
        spec_decode_pgm(width, height, spec_encode_pgm(width, height, cells)) == Some(cells),
{
    let hdr = spec_pgm_header(width, height);
    let enc = spec_encode_pgm(width, height, cells);
    assert(enc.subrange(0, hdr.len() as int) =~= hdr);
    assert(enc.subrange(hdr.len() as int, enc.len() as int) =~= spec_cells_bytes(cells));
    lemma_cells_bytes_round_trip(cells);
}

} // verus!
