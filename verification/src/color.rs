//! Pixel sampling of captured frames.
use vstd::prelude::*;
use crate::geometry::PixRect;

verus! {

/// Pixel byte layout of the captured buffer.
#[derive(Debug, Clone, Copy, PartialEq, Eq, Structural)]
pub enum PixelFormat {
    /// Bytes in memory: B, G, R, X  (little-endian XRGB8888 / ARGB8888).
    Bgrx,
    /// Bytes in memory: R, G, B, X  (little-endian XBGR8888 / ABGR8888).
    Rgbx,
}

impl PixelFormat {
    /// Offsets of the red, green and blue bytes within a 4-byte pixel.
    pub open spec fn spec_offsets(self) -> (int, int, int) {
        match self {
            PixelFormat::Bgrx => (2, 1, 0),
            PixelFormat::Rgbx => (0, 1, 2),
        }
    }

    pub fn offsets(self) -> (o: (usize, usize, usize))
        ensures
            (o.0 as int, o.1 as int, o.2 as int) == self.spec_offsets(),
    {
        match self {
            PixelFormat::Bgrx => (2, 1, 0),
            PixelFormat::Rgbx => (0, 1, 2),
        }
    }
}

/// The (r, g, b) bytes of pixel (x, y), if all four bytes of the pixel lie
/// inside the buffer; nothing otherwise.
pub open spec fn pixel_sample(buf: Seq<u8>, stride: int, fmt: PixelFormat, x: int, y: int) -> Seq<(u8, u8, u8)> {
    let p = y * stride + x * 4;
    let (ro, go, bo) = fmt.spec_offsets();
    if p + 3 < buf.len() {
        seq![(buf[p + ro], buf[p + go], buf[p + bo])]
    } else {
        Seq::empty()
    }
}

/// Samples of row `y` at columns `x, x + s, ...` below `x1`, where `s` is
/// `step` raised to at least one.
pub open spec fn row_samples(
    buf: Seq<u8>,
    stride: int,
    fmt: PixelFormat,
    y: int,
    x: int,
    x1: int,
    step: int,
) -> Seq<(u8, u8, u8)>
    decreases (if x < x1 { x1 - x } else { 0 }),
{
    let s = if step < 1 { 1 } else { step };
    if x < x1 {
        pixel_sample(buf, stride, fmt, x, y) + row_samples(buf, stride, fmt, y, x + s, x1, step)
    } else {
        Seq::empty()
    }
}

/// Samples of rows `y, y + s, ...` below `y1`, each over columns from `x0`
/// below `x1`, row after row.
pub open spec fn rows_samples(
    buf: Seq<u8>,
    stride: int,
    fmt: PixelFormat,
    y: int,
    y1: int,
    x0: int,
    x1: int,
    step: int,
) -> Seq<(u8, u8, u8)>
    decreases (if y < y1 { y1 - y } else { 0 }),
{
    let s = if step < 1 { 1 } else { step };
    if y < y1 {
        row_samples(buf, stride, fmt, y, x0, x1, step) + rows_samples(buf, stride, fmt, y + s, y1, x0, x1, step)
    } else {
        Seq::empty()
    }
}

/// All samples of a zone, in row-major order.
pub open spec fn spec_zone_samples(
    buf: Seq<u8>,
    stride: int,
    fmt: PixelFormat,
    rect: PixRect,
    step: int,
) -> Seq<(u8, u8, u8)> {
    rows_samples(buf, stride, fmt, rect.y0 as int, rect.y1 as int, rect.x0 as int, rect.x1 as int, step)
}

/// Collect the sRGB bytes of every `step`-th pixel of every `step`-th row of
/// a zone (`step` taken as at least one), in row-major order, skipping pixels
/// that do not lie wholly inside the buffer.
pub fn zone_samples(buf: &[u8], stride: usize, fmt: PixelFormat, rect: &PixRect, step: u32) -> (out: Vec<(u8, u8, u8)>)
    ensures
        out@ == spec_zone_samples(buf@, stride as int, fmt, *rect, step as int),
{
    let (ro, go, bo) = fmt.offsets();
    let s: u64 = if step > 1 { step as u64 } else { 1 };
    let ghost whole = spec_zone_samples(buf@, stride as int, fmt, *rect, step as int);
    let x0: u64 = rect.x0 as u64;
    let x1: u64 = rect.x1 as u64;
    let y1: u64 = rect.y1 as u64;
    let blen: usize = buf.len();
    let len: u128 = blen as u128;
    let mut out: Vec<(u8, u8, u8)> = Vec::new();
    let mut y: u64 = rect.y0 as u64;
    while y < y1
        invariant
            s == (if step < 1 { 1 } else { step as int }),
            x0 == rect.x0,
            x1 == rect.x1,
            y1 == rect.y1,
            y <= u32::MAX + s,
            len == buf@.len(),
            buf@.len() <= usize::MAX,
            (ro as int, go as int, bo as int) == fmt.spec_offsets(),
            whole == out@ + rows_samples(buf@, stride as int, fmt, y as int, y1 as int, x0 as int, x1 as int, step as int),
        decreases (if y < y1 { y1 - y } else { 0 }),
    {
        let ghost rest = rows_samples(buf@, stride as int, fmt, y as int + s, y1 as int, x0 as int, x1 as int, step as int);
        assert(whole =~= out@ + row_samples(buf@, stride as int, fmt, y as int, x0 as int, x1 as int, step as int) + rest);
        let mut x: u64 = x0;
        while x < x1
            invariant
                s == (if step < 1 { 1 } else { step as int }),
                x1 == rect.x1,
                y < y1,
                y1 == rect.y1,
                x <= u32::MAX + s,
                len == buf@.len(),
                buf@.len() <= usize::MAX,
                (ro as int, go as int, bo as int) == fmt.spec_offsets(),
                whole == out@ + row_samples(buf@, stride as int, fmt, y as int, x as int, x1 as int, step as int) + rest,
            decreases (if x < x1 { x1 - x } else { 0 }),
        {
            let yy: u128 = y as u128;
            let st: u128 = stride as u128;
            let xx: u128 = x as u128;
            assert(yy * st <= 0xffff_ffff_ffff_ffff * 0xffff_ffff_ffff_ffffu128) by (nonlinear_arith)
                requires
                    yy <= 0xffff_ffff_ffff_ffff,
                    st <= 0xffff_ffff_ffff_ffff,
            ;
            let p: u128 = yy * st + xx * 4;
            if p + 3 < len {
                assert(p < buf@.len() <= usize::MAX);
                let pi: usize = p as usize;
                assert(pi as int == p as int);
                out.push((buf[pi + ro], buf[pi + go], buf[pi + bo]));
            }
            assert(whole =~= out@ + row_samples(buf@, stride as int, fmt, y as int, x as int + s, x1 as int, step as int) + rest);
            x = x + s;
        }
        assert(whole =~= out@ + rest);
        y = y + s;
    }
    out
}

/// A sample with its red and blue bytes exchanged.
pub open spec fn swap_red_blue(t: (u8, u8, u8)) -> (u8, u8, u8) {
    (t.2, t.1, t.0)
}

/// Within one row, reading a buffer as BGRX instead of RGBX only exchanges
/// red and blue in each sample.
pub proof fn lemma_row_formats_swap_red_blue(buf: Seq<u8>, stride: int, y: int, x: int, x1: int, step: int)
    ensures
        row_samples(buf, stride, PixelFormat::Bgrx, y, x, x1, step) == row_samples(
            buf,
            stride,
            PixelFormat::Rgbx,
            y,
            x,
            x1,
            step,
        ).map_values(|t: (u8, u8, u8)| swap_red_blue(t)),
    decreases (if x < x1 { x1 - x } else { 0 }),
{
    let s = if step < 1 { 1 } else { step };
    let f = |t: (u8, u8, u8)| swap_red_blue(t);
    if x < x1 {
        lemma_row_formats_swap_red_blue(buf, stride, y, x + s, x1, step);
        let head = pixel_sample(buf, stride, PixelFormat::Rgbx, x, y);
        let tail = row_samples(buf, stride, PixelFormat::Rgbx, y, x + s, x1, step);
        assert(pixel_sample(buf, stride, PixelFormat::Bgrx, x, y) =~= head.map_values(f));
        assert((head + tail).map_values(f) =~= head.map_values(f) + tail.map_values(f));
    } else {
        assert(row_samples(buf, stride, PixelFormat::Rgbx, y, x, x1, step).map_values(f) =~= Seq::empty());
    }
}

/// Sampling a zone of a BGRX buffer gives the samples of the same buffer read
/// as RGBX, with red and blue exchanged in each: the format decides only
/// which byte of a pixel is which channel, never which pixels are sampled.
pub proof fn lemma_formats_swap_red_blue(buf: Seq<u8>, stride: int, rect: PixRect, step: int)
    ensures
        spec_zone_samples(buf, stride, PixelFormat::Bgrx, rect, step) == spec_zone_samples(
            buf,
            stride,
            PixelFormat::Rgbx,
            rect,
            step,
        ).map_values(|t: (u8, u8, u8)| swap_red_blue(t)),
{
    lemma_rows_formats_swap_red_blue(buf, stride, rect.y0 as int, rect.y1 as int, rect.x0 as int, rect.x1 as int, step);
}

proof fn lemma_rows_formats_swap_red_blue(buf: Seq<u8>, stride: int, y: int, y1: int, x0: int, x1: int, step: int)
    ensures
        rows_samples(buf, stride, PixelFormat::Bgrx, y, y1, x0, x1, step) == rows_samples(
            buf,
            stride,
            PixelFormat::Rgbx,
            y,
            y1,
            x0,
            x1,
            step,
        ).map_values(|t: (u8, u8, u8)| swap_red_blue(t)),
    decreases (if y < y1 { y1 - y } else { 0 }),
{
    let s = if step < 1 { 1 } else { step };
    let f = |t: (u8, u8, u8)| swap_red_blue(t);
    if y < y1 {
        lemma_rows_formats_swap_red_blue(buf, stride, y + s, y1, x0, x1, step);
        lemma_row_formats_swap_red_blue(buf, stride, y, x0, x1, step);
        let head = row_samples(buf, stride, PixelFormat::Rgbx, y, x0, x1, step);
        let tail = rows_samples(buf, stride, PixelFormat::Rgbx, y + s, y1, x0, x1, step);
        assert((head + tail).map_values(f) =~= head.map_values(f) + tail.map_values(f));
    } else {
        assert(rows_samples(buf, stride, PixelFormat::Rgbx, y, y1, x0, x1, step).map_values(f) =~= Seq::empty());
    }
}

} // verus!
