use adalight_cosmic::adalight::{Adalight, FrameError};
use adalight_cosmic::config::{ColorOrder, SerialCfg};

fn serial(order: ColorOrder) -> SerialCfg {
    SerialCfg { device: "/dev/ttyUSB0".to_string(), baud: 500000, color_order: order }
}

#[test]
fn header_for_default_chain() {
    // N = 77: count = 76 = 0x004C, checksum = 0x00 ^ 0x4C ^ 0x55 = 0x19.
    let a = Adalight::open(&serial(ColorOrder::Rgb), 77);
    let f = a.frame();
    assert_eq!(f.len(), 6 + 77 * 3);
    assert_eq!(&f[..6], &[b'A', b'd', b'a', 0x00, 0x4C, 0x19]);
    assert!(f[6..].iter().all(|&b| b == 0));
    assert_eq!(a.led_count(), 77);
}

#[test]
fn header_count_over_one_byte() {
    // N = 300: count = 299 = 0x012B, checksum = 0x01 ^ 0x2B ^ 0x55 = 0x7F.
    let a = Adalight::open(&serial(ColorOrder::Rgb), 300);
    assert_eq!(&a.frame()[..6], &[b'A', b'd', b'a', 0x01, 0x2B, 0x7F]);
}

#[test]
fn header_edge_counts() {
    // One LED: count 0.
    let one = Adalight::open(&serial(ColorOrder::Rgb), 1);
    assert_eq!(&one.frame()[..6], &[b'A', b'd', b'a', 0, 0, 0x55]);
    // No LED: count saturates at 0.
    let none = Adalight::open(&serial(ColorOrder::Rgb), 0);
    assert_eq!(none.frame(), &[b'A', b'd', b'a', 0, 0, 0x55]);
    // 65536 LEDs: the largest count the header holds.
    let max = Adalight::open(&serial(ColorOrder::Rgb), 65536);
    assert_eq!(&max.frame()[..6], &[b'A', b'd', b'a', 0xFF, 0xFF, 0x55]);
    // 65537 LEDs: count 65536 keeps only its low 16 bits.
    let over = Adalight::open(&serial(ColorOrder::Rgb), 65537);
    assert_eq!(&over.frame()[..6], &[b'A', b'd', b'a', 0, 0, 0x55]);
}

#[test]
fn write_frame_reorders_each_led() {
    let mut a = Adalight::open(&serial(ColorOrder::Grb), 2);
    assert_eq!(a.write_frame(&[10, 20, 30, 40, 50, 60]), Ok(()));
    assert_eq!(a.frame(), &[b'A', b'd', b'a', 0, 1, 0x54, 20, 10, 30, 50, 40, 60]);
    assert_eq!(a.write_frame(&[1, 2, 3, 4, 5, 6]), Ok(()));
    assert_eq!(&a.frame()[6..], &[2, 1, 3, 5, 4, 6]);
}

#[test]
fn write_frame_rgb_order_copies_bytes() {
    let mut a = Adalight::open(&serial(ColorOrder::Rgb), 3);
    let rgb = [1, 2, 3, 4, 5, 6, 7, 8, 9];
    assert_eq!(a.write_frame(&rgb), Ok(()));
    assert_eq!(&a.frame()[6..], &rgb);
}

#[test]
fn write_frame_refuses_wrong_length() {
    let mut a = Adalight::open(&serial(ColorOrder::Bgr), 2);
    assert_eq!(a.write_frame(&[1, 2, 3, 4, 5, 6]), Ok(()));
    let before = a.frame().to_vec();
    assert_eq!(
        a.write_frame(&[1, 2, 3]),
        Err(FrameError::LengthMismatch { expected: 6, got: 3 })
    );
    assert_eq!(a.frame(), &before[..]);
}
