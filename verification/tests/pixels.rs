use stl_thumb::ReadbackError;
use stl_thumb::capture::capture;

#[test]
fn flip_reverses_row_order() {
    // 2x2 image, 4 bytes per pixel, rows (a b) / (c d)
    let src: Vec<u8> = vec![
        1, 2, 3, 4, 5, 6, 7, 8, // bottom row: a b
        9, 10, 11, 12, 13, 14, 15, 16, // top row: c d
    ];
    let out = capture(&src, 2, 2).unwrap();
    assert_eq!(
        out,
        vec![9, 10, 11, 12, 13, 14, 15, 16, 1, 2, 3, 4, 5, 6, 7, 8]
    );
}

#[test]
fn flip_output_has_exact_size() {
    let src = vec![0u8; 7 * 3 * 4];
    let out = capture(&src, 7, 3).unwrap();
    assert_eq!(out.len(), 7 * 3 * 4);
}

#[test]
fn flip_single_row_is_identity() {
    let src: Vec<u8> = (0u8..16).collect();
    let out = capture(&src, 4, 1).unwrap();
    assert_eq!(out, src);
}

#[test]
fn flip_uniform_buffer_is_unchanged() {
    // every pixel the same background color: the flip keeps the
    // buffer byte-for-byte
    let pixel = [255u8, 255, 255, 0];
    let mut src = Vec::new();
    for _ in 0..6 * 5 {
        src.extend_from_slice(&pixel);
    }
    let out = capture(&src, 6, 5).unwrap();
    assert_eq!(out, src);
}

#[test]
fn size_mismatch_is_rejected() {
    let src = vec![0u8; 10];
    assert_eq!(capture(&src, 2, 2), Err(ReadbackError::SizeMismatch));
    let src = vec![0u8; 2 * 2 * 4];
    assert_eq!(capture(&src, 2, 3), Err(ReadbackError::SizeMismatch));
}

#[test]
fn empty_image_allowed() {
    let src: Vec<u8> = Vec::new();
    let out = capture(&src, 0, 0).unwrap();
    assert_eq!(out.len(), 0);
}

#[test]
fn flip_three_rows_exact() {
    // 1x3 image: rows r0 r1 r2 from the bottom come out r2 r1 r0
    let src: Vec<u8> = vec![10, 11, 12, 13, 20, 21, 22, 23, 30, 31, 32, 33];
    let out = capture(&src, 1, 3).unwrap();
    assert_eq!(out, vec![30, 31, 32, 33, 20, 21, 22, 23, 10, 11, 12, 13]);
}
