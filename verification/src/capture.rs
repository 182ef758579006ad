//! Pixel-buffer capture: the readback size contract and the
//! vertical flip from the renderer's bottom-left origin to the
//! image convention's top-left origin.

use vstd::prelude::*;

use crate::ReadbackError;

verus! {

/// Where row-flipped output byte `k` comes from in the source
/// buffer: same column, mirrored row.
pub open spec fn flip_index(k: int, row_bytes: int, h: int) -> int {
    (h - 1 - k / row_bytes) * row_bytes + k % row_bytes
}

/// `out` is `src` with its `h` rows of `row_bytes` bytes in
/// reverse order.
pub open spec fn flipped(src: Seq<u8>, out: Seq<u8>, row_bytes: int, h: int) -> bool {
    &&& out.len() == src.len()
    &&& forall|k: int| 0 <= k < out.len() ==> #[trigger] out[k] == src[flip_index(k, row_bytes, h)]
}

/// Turns a bottom-left-origin readback into a top-left-origin
/// pixel buffer: checks that the buffer holds exactly
/// `width * height` four-byte pixels, then reverses the row order.
pub fn capture(pixels: &Vec<u8>, width: u32, height: u32) -> (r: Result<Vec<u8>, ReadbackError>)
    ensures
        match r {
            Ok(out) => pixels@.len() == width * height * 4 && out@.len() == width * height * 4
                && flipped(pixels@, out@, 4 * width as int, height as int),
            Err(e) => e == ReadbackError::SizeMismatch && pixels@.len() != width * height * 4,
        },
{
    let len = pixels.len();
    proof {
        assert((width as int) * (height as int) * 4 < 0x1_0000_0000_0000_0000_0000_0000_0000_0000)
            by (nonlinear_arith)
            requires width < 0x1_0000_0000, height < 0x1_0000_0000;
    }
    let expected: u128 = (width as u128) * (height as u128) * 4;
    if (len as u128) != expected {
        return Err(ReadbackError::SizeMismatch);
    }
    if height == 0 {
        let out: Vec<u8> = Vec::new();
        return Ok(out);
    }
    proof {
        assert(4 * (width as int) <= len) by (nonlinear_arith)
            requires len == (width as int) * (height as int) * 4, height >= 1;
    }
    let rb: usize = (4 * (width as u64)) as usize;
    let h: usize = height as usize;
    proof {
        assert((4 * (width as int)) * (height as int) == (width as int) * (height as int) * 4)
            by (nonlinear_arith);
    }
    let mut out: Vec<u8> = Vec::new();
    let mut src: usize = len;
    let mut y: usize = 0;
    while y < h
        invariant
            h == height,
            rb == 4 * width,
            len == pixels@.len(),
            len == rb * h,
            y <= h,
            src == len - y * rb,
            out@.len() == y * rb,
            forall|k: int|
                0 <= k < out@.len() ==> #[trigger] out@[k] == pixels@[flip_index(
                    k,
                    rb as int,
                    h as int,
                )],
        decreases h - y,
    {
        proof {
            assert((y + 1) * rb <= h * rb) by (nonlinear_arith)
                requires y < h, rb >= 0;
            assert(len - y * rb - rb == (h - 1 - y) * rb) by (nonlinear_arith)
                requires len == rb * h;
        }
        src = src - rb;
        let mut i: usize = 0;
        while i < rb
            invariant
                h == height,
                rb == 4 * width,
                len == pixels@.len(),
                len == rb * h,
                y < h,
                src == (h - 1 - y) * rb,
                src + rb <= len,
                i <= rb,
                out@.len() == y * rb + i,
                forall|k: int|
                    0 <= k < out@.len() ==> #[trigger] out@[k] == pixels@[flip_index(
                        k,
                        rb as int,
                        h as int,
                    )],
            decreases rb - i,
        {
            out.push(pixels[src + i]);
            proof {
                let yi = y as int;
                let rbi = rb as int;
                let ii = i as int;
                assert((yi * rbi + ii) / rbi == yi && (yi * rbi + ii) % rbi == ii)
                    by (nonlinear_arith)
                    requires 0 <= ii < rbi, 0 <= yi;
                assert(flip_index(yi * rbi + ii, rbi, h as int) == src + ii);
            }
            i = i + 1;
        }
        proof {
            assert((y as int + 1) * (rb as int) == y as int * rb as int + rb as int)
                by (nonlinear_arith);
        }
        y = y + 1;
    }
    proof {
        assert((h as int) * (rb as int) == (rb as int) * (h as int)) by (nonlinear_arith);
    }
    Ok(out)
}

} // verus!
