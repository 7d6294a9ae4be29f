use gol_rs::cell::CellValue;
use gol_rs::errors::GolError;
use gol_rs::pgm::{decode_pgm, encode_pgm, pgm_header};

fn checkerboard(width: usize, height: usize) -> Vec<CellValue> {
    (0..width * height)
        .map(|i| if i % 2 == 0 { CellValue::Alive } else { CellValue::Dead })
        .collect()
}

#[test]
fn header_has_the_fixed_bitmap_layout() {
    assert_eq!(pgm_header(3, 3), b"P5\n3 3\n255\n".to_vec());
    assert_eq!(pgm_header(512, 512), b"P5\n512 512\n255\n".to_vec());
    assert_eq!(pgm_header(16, 2), b"P5\n16 2\n255\n".to_vec());
}

#[test]
fn encode_writes_header_then_one_byte_per_cell() {
    let cells = vec![
        CellValue::Alive,
        CellValue::Dead,
        CellValue::Dead,
        CellValue::Alive,
    ];
    let bytes = encode_pgm(2, 2, &cells);
    assert_eq!(bytes, b"P5\n2 2\n255\n\xff\x00\x00\xff".to_vec());
}

#[test]
fn snapshot_round_trips_through_the_codec() {
    let cells = checkerboard(7, 5);
    let bytes = encode_pgm(7, 5, &cells);
    let decoded = decode_pgm(7, 5, &bytes).unwrap();
    assert_eq!(decoded, cells);
}

#[test]
fn decode_is_lenient_about_cell_bytes() {
    let mut bytes = pgm_header(2, 2);
    bytes.extend_from_slice(&[255, 7, 0, 254]);
    let decoded = decode_pgm(2, 2, &bytes).unwrap();
    assert_eq!(
        decoded,
        vec![CellValue::Alive, CellValue::Dead, CellValue::Dead, CellValue::Dead]
    );
}

#[test]
fn decode_rejects_a_truncated_payload() {
    let cells = checkerboard(4, 4);
    let mut bytes = encode_pgm(4, 4, &cells);
    bytes.pop();
    assert_eq!(decode_pgm(4, 4, &bytes), Err(GolError::IoError));
}

#[test]
fn decode_rejects_a_corrupt_header() {
    let cells = checkerboard(4, 4);
    let mut bytes = encode_pgm(4, 4, &cells);
    bytes[0] = b'Q';
    assert_eq!(decode_pgm(4, 4, &bytes), Err(GolError::IoError));
}

#[test]
fn decode_rejects_a_size_mismatch() {
    let cells = checkerboard(4, 4);
    let bytes = encode_pgm(4, 4, &cells);
    // The stream is a valid 4x4 snapshot, not a 2x8 one.
    assert_eq!(decode_pgm(2, 8, &bytes), Err(GolError::IoError));
    assert_eq!(decode_pgm(4, 3, &bytes), Err(GolError::IoError));
}

#[test]
fn decode_rejects_an_empty_stream() {
    assert_eq!(decode_pgm(4, 4, &Vec::new()), Err(GolError::IoError));
}
