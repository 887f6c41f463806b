use adalight_cosmic::color::{zone_samples, PixelFormat};
use adalight_cosmic::geometry::PixRect;

/// A 3x2 frame with 4-byte pixels and a stride of 16 bytes (one pixel of padding).
fn frame() -> Vec<u8> {
    let mut buf = vec![0u8; 32];
    for y in 0..2u8 {
        for x in 0..3u8 {
            let p = y as usize * 16 + x as usize * 4;
            buf[p] = 10 * (y * 3 + x) + 1;
            buf[p + 1] = 10 * (y * 3 + x) + 2;
            buf[p + 2] = 10 * (y * 3 + x) + 3;
            buf[p + 3] = 0xFF;
        }
    }
    buf
}

#[test]
fn offsets_per_format() {
    assert_eq!(PixelFormat::Bgrx.offsets(), (2, 1, 0));
    assert_eq!(PixelFormat::Rgbx.offsets(), (0, 1, 2));
}

#[test]
fn samples_whole_frame_row_major() {
    let rect = PixRect { x0: 0, y0: 0, x1: 3, y1: 2 };
    let s = zone_samples(&frame(), 16, PixelFormat::Rgbx, &rect, 1);
    assert_eq!(
        s,
        vec![(1, 2, 3), (11, 12, 13), (21, 22, 23), (31, 32, 33), (41, 42, 43), (51, 52, 53)]
    );
}

#[test]
fn bgrx_swaps_red_and_blue() {
    let rect = PixRect { x0: 1, y0: 1, x1: 2, y1: 2 };
    let s = zone_samples(&frame(), 16, PixelFormat::Bgrx, &rect, 1);
    assert_eq!(s, vec![(43, 42, 41)]);
}

#[test]
fn step_skips_pixels_and_rows() {
    let rect = PixRect { x0: 0, y0: 0, x1: 3, y1: 2 };
    let s = zone_samples(&frame(), 16, PixelFormat::Rgbx, &rect, 2);
    assert_eq!(s, vec![(1, 2, 3), (21, 22, 23)]);
}

#[test]
fn zero_step_counts_as_one() {
    let rect = PixRect { x0: 0, y0: 0, x1: 2, y1: 1 };
    let s = zone_samples(&frame(), 16, PixelFormat::Rgbx, &rect, 0);
    assert_eq!(s, vec![(1, 2, 3), (11, 12, 13)]);
}

#[test]
fn pixels_past_the_buffer_are_skipped() {
    // The zone reaches one row and one column past the frame.
    let rect = PixRect { x0: 2, y0: 1, x1: 5, y1: 3 };
    let s = zone_samples(&frame(), 16, PixelFormat::Rgbx, &rect, 1);
    // (2,1) lies inside; (3,1) is the padding pixel, whose bytes are in the
    // buffer; (4,1) and row 2 lie past its end.
    assert_eq!(s, vec![(51, 52, 53), (0, 0, 0)]);
}

#[test]
fn empty_zone_has_no_samples() {
    let rect = PixRect { x0: 2, y0: 1, x1: 2, y1: 2 };
    assert!(zone_samples(&frame(), 16, PixelFormat::Rgbx, &rect, 1).is_empty());
    assert!(zone_samples(&[], 16, PixelFormat::Rgbx, &PixRect { x0: 0, y0: 0, x1: 4, y1: 4 }, 1).is_empty());
}

#[test]
fn formats_differ_only_in_red_and_blue() {
    let rect = PixRect { x0: 0, y0: 0, x1: 4, y1: 3 };
    let rgbx = zone_samples(&frame(), 16, PixelFormat::Rgbx, &rect, 1);
    let bgrx = zone_samples(&frame(), 16, PixelFormat::Bgrx, &rect, 1);
    let swapped: Vec<(u8, u8, u8)> = rgbx.iter().map(|&(r, g, b)| (b, g, r)).collect();
    assert_eq!(bgrx, swapped);
    assert_eq!(bgrx.len(), 8);
}
