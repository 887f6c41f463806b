//! Adalight framing.
//!
//! Frame format:
//!   'A','d','a', countHi, countLo, checksum, [R,G,B]*N
//!   countHi  = (N-1) >> 8
//!   countLo  = (N-1) & 0xFF
//!   checksum = countHi ^ countLo ^ 0x55
use vstd::prelude::*;
use crate::config::{ColorOrder, SerialCfg};

verus! {

/// The LED count that the header announces, minus one: `N - 1` for the low
/// 32 bits `N` of the LED count, and `0` when those bits are all zero.
pub open spec fn announced_minus_one(led_count: usize) -> int {
    let n = led_count as int % 0x1_0000_0000;
    if n == 0 {
        0
    } else {
        n - 1
    }
}

/// High byte of the announced count.
pub open spec fn header_hi(led_count: usize) -> u8 {
    ((announced_minus_one(led_count) / 256) % 256) as u8
}

/// Low byte of the announced count.
pub open spec fn header_lo(led_count: usize) -> u8 {
    (announced_minus_one(led_count) % 256) as u8
}

/// The six header bytes of every frame for `led_count` LEDs.
pub open spec fn header_bytes(led_count: usize) -> Seq<u8> {
    seq![
        0x41u8,
        0x64u8,
        0x61u8,
        header_hi(led_count),
        header_lo(led_count),
        header_hi(led_count) ^ header_lo(led_count) ^ 0x55u8,
    ]
}

/// The wire bytes of the LED colors: LED `j / 3`'s color, reordered, byte `j % 3`.
pub open spec fn led_bytes(order: ColorOrder, rgb: Seq<u8>, led_count: nat) -> Seq<u8> {
    Seq::new(
        3 * led_count,
        |j: int|
            order.wire_order(
                rgb[3 * (j / 3)],
                rgb[3 * (j / 3) + 1],
                rgb[3 * (j / 3) + 2],
            )[j % 3],
    )
}

/// A whole frame: header, then one reordered triple per LED.
pub open spec fn encoded_frame(order: ColorOrder, led_count: usize, rgb: Seq<u8>) -> Seq<u8> {
    header_bytes(led_count) + led_bytes(order, rgb, led_count as nat)
}

/// Why a frame could not be encoded.
#[derive(Debug, Clone, Copy, PartialEq, Eq, Structural)]
pub enum FrameError {
    /// The color buffer does not hold exactly three bytes per LED.
    LengthMismatch { expected: usize, got: usize },
}

/// Adalight frame encoder for a fixed chain length and color order. The
/// encoded frame is handed to the serial port by the caller.
pub struct Adalight {
    color_order: ColorOrder,
    header: [u8; 6],
    frame: Vec<u8>,
    led_count: usize,
}

impl Adalight {
    #[verifier::type_invariant]
    spec fn well_formed(self) -> bool {
        &&& self.header@ == header_bytes(self.led_count)
        &&& 6 + 3 * self.led_count <= usize::MAX
        &&& self.frame@.len() == 6 + 3 * self.led_count
        &&& self.frame@.take(6) == header_bytes(self.led_count)
    }

    pub closed spec fn spec_led_count(self) -> usize {
        self.led_count
    }

    pub closed spec fn spec_color_order(self) -> ColorOrder {
        self.color_order
    }

    /// The bytes of the frame most recently encoded.
    pub closed spec fn spec_frame(self) -> Seq<u8> {
        self.frame@
    }

    /// Prepare the frame encoder for the chain that `cfg` describes: the
    /// header is computed once, and the LED bytes start out all zero.
    pub fn open(cfg: &SerialCfg, led_count: usize) -> (a: Adalight)
        requires
            6 + 3 * led_count <= usize::MAX,
        ensures
            a.spec_led_count() == led_count,
            a.spec_color_order() == cfg.color_order,
            a.spec_frame() == header_bytes(led_count) + Seq::new(3 * led_count as nat, |j: int| 0u8),
    {
        let n: u32 = led_count as u32;
        let count: u32 = if n == 0 { 0 } else { n - 1 };
        let hi: u8 = ((count >> 8) & 0xFF) as u8;
        let lo: u8 = (count & 0xFF) as u8;
        let checksum: u8 = hi ^ lo ^ 0x55;
        proof {
            lemma_header_bytes_fit(led_count, n, count, hi, lo);
        }
        let header: [u8; 6] = [0x41, 0x64, 0x61, hi, lo, checksum];
        assert(header@ =~= header_bytes(led_count));

        let total: usize = 6 + led_count * 3;
        let mut frame: Vec<u8> = Vec::new();
        let mut i: usize = 0;
        while i < total
            invariant
                i <= total,
                total == 6 + 3 * led_count,
                header@ == header_bytes(led_count),
                frame@.len() == i,
                forall|k: int| 0 <= k < i && k < 6 ==> frame@[k] == header@[k],
                forall|k: int| 6 <= k < i ==> frame@[k] == 0u8,
            decreases total - i,
        {
            if i < 6 {
                frame.push(header[i]);
            } else {
                frame.push(0u8);
            }
            i = i + 1;
        }
        assert(frame@.take(6) =~= header_bytes(led_count));
        assert(frame@ =~= header_bytes(led_count) + Seq::new(3 * led_count as nat, |j: int| 0u8));
        Adalight { color_order: cfg.color_order, header, frame, led_count }
    }

    /// Encode one frame. `rgb` is a flat buffer of `led_count * 3` bytes in
    /// R,G,B order (chain order); any other length is refused and leaves the
    /// previous frame in place.
    pub fn write_frame(&mut self, rgb: &[u8]) -> (res: Result<(), FrameError>)
        ensures
            final(self).spec_led_count() == old(self).spec_led_count(),
            final(self).spec_color_order() == old(self).spec_color_order(),
            rgb@.len() == 3 * old(self).spec_led_count() ==> res is Ok && final(self).spec_frame()
                == encoded_frame(old(self).spec_color_order(), old(self).spec_led_count(), rgb@),
            rgb@.len() != 3 * old(self).spec_led_count() ==> res == Err::<(), FrameError>(
                FrameError::LengthMismatch {
                    expected: (3 * old(self).spec_led_count()) as usize,
                    got: rgb@.len() as usize,
                },
            ) && final(self).spec_frame() == old(self).spec_frame(),
    {
        proof {
            use_type_invariant(&*self);
        }
        let n = self.led_count;
        if rgb.len() != n * 3 {
            return Err(FrameError::LengthMismatch { expected: n * 3, got: rgb.len() });
        }
        let order = self.color_order;
        let mut frame: Vec<u8> = Vec::new();
        let mut h: usize = 0;
        while h < 6
            invariant
                h <= 6,
                self.header@ == header_bytes(n),
                frame@ == self.header@.take(h as int),
            decreases 6 - h,
        {
            frame.push(self.header[h]);
            assert(frame@ =~= self.header@.take(h as int + 1));
            h = h + 1;
        }
        assert(self.header@.take(6) =~= self.header@);
        let mut i: usize = 0;
        while i < n
            invariant
                i <= n,
                rgb@.len() == 3 * n,
                6 + 3 * n <= usize::MAX,
                frame@.len() == 6 + 3 * i,
                frame@.take(6) == header_bytes(n),
                forall|k: int, c: int|
                    0 <= k < i && 0 <= c < 3 ==> #[trigger] frame@[6 + 3 * k + c]
                        == order.wire_order(rgb@[3 * k], rgb@[3 * k + 1], rgb@[3 * k + 2])[c],
            decreases n - i,
        {
            let src = 3 * i;
            let ordered = order.apply(rgb[src], rgb[src + 1], rgb[src + 2]);
            let ghost before = frame@;
            frame.push(ordered[0]);
            frame.push(ordered[1]);
            frame.push(ordered[2]);
            assert(frame@.take(6) =~= before.take(6));
            assert forall|k: int, c: int|
                0 <= k < i + 1 && 0 <= c < 3 implies #[trigger] frame@[6 + 3 * k + c]
                    == order.wire_order(rgb@[3 * k], rgb@[3 * k + 1], rgb@[3 * k + 2])[c] by {
                if k < i {
                    assert(before[6 + 3 * k + c] == frame@[6 + 3 * k + c]);
                }
            }
            i = i + 1;
        }
        proof {
            let want = encoded_frame(order, n, rgb@);
            assert forall|j: int| 0 <= j < want.len() implies frame@[j] == want[j] by {
                if j >= 6 {
                    let t = j - 6;
                    let k = t / 3;
                    let c = t % 3;
                    assert(t == 3 * k + c);
                    assert(frame@[6 + 3 * k + c] == want[j]);
                } else {
                    assert(frame@.take(6)[j] == frame@[j]);
                }
            }
            assert(frame@ =~= want);
            assert(frame@.take(6) =~= header_bytes(n));
        }
        self.frame = frame;
        Ok(())
    }

    /// The most recently encoded frame, ready to be written to the port.
    pub fn frame(&self) -> (f: &[u8])
        ensures
            f@ == self.spec_frame(),
            f@.len() == 6 + 3 * self.spec_led_count(),
            f@.take(6) == header_bytes(self.spec_led_count()),
    {
        proof {
            use_type_invariant(self);
        }
        self.frame.as_slice()
    }

    pub fn led_count(&self) -> (n: usize)
        ensures
            n == self.spec_led_count(),
    {
        self.led_count
    }
}

/// For a chain of 1 to 65536 LEDs the header announces exactly that many
/// LEDs (`countHi * 256 + countLo + 1 == N`), and the checksum byte is
/// `countHi ^ countLo ^ 0x55`.
pub proof fn lemma_header_announces_led_count(led_count: usize)
    requires
        1 <= led_count <= 65536,
    ensures
        header_bytes(led_count)[3] as int * 256 + header_bytes(led_count)[4] as int + 1 == led_count,
        header_bytes(led_count)[5] == header_bytes(led_count)[3] ^ header_bytes(led_count)[4] ^ 0x55u8,
{
    let a = announced_minus_one(led_count);
    assert(a == led_count - 1);
    assert(0 <= a / 256 < 256);
    assert(header_hi(led_count) as int == a / 256);
    assert(header_lo(led_count) as int == a % 256);
}

/// An encoded frame sends each LED's color in the strip's channel order:
/// after the six header bytes, LED `i` occupies bytes `6 + 3i .. 6 + 3i + 3`,
/// holding its red, green and blue input bytes `(r, g, b)` as `r, g, b` for an
/// RGB strip, `r, b, g` for RBG, `g, r, b` for GRB, `g, b, r` for GBR,
/// `b, r, g` for BRG and `b, g, r` for BGR.
pub proof fn lemma_frame_sends_colors_in_strip_order(order: ColorOrder, led_count: usize, rgb: Seq<u8>, i: int)
    requires
        0 <= i < led_count,
        rgb.len() == 3 * led_count,
    ensures
        ({
            let f = encoded_frame(order, led_count, rgb);
            let (r, g, b) = (rgb[3 * i], rgb[3 * i + 1], rgb[3 * i + 2]);
            let w = (f[6 + 3 * i], f[6 + 3 * i + 1], f[6 + 3 * i + 2]);
            &&& f.len() == 6 + 3 * led_count
            &&& order == ColorOrder::Rgb ==> w == (r, g, b)
            &&& order == ColorOrder::Rbg ==> w == (r, b, g)
            &&& order == ColorOrder::Grb ==> w == (g, r, b)
            &&& order == ColorOrder::Gbr ==> w == (g, b, r)
            &&& order == ColorOrder::Brg ==> w == (b, r, g)
            &&& order == ColorOrder::Bgr ==> w == (b, g, r)
        }),
{
    let f = encoded_frame(order, led_count, rgb);
    let leds = led_bytes(order, rgb, led_count as nat);
    let w = order.wire_order(rgb[3 * i], rgb[3 * i + 1], rgb[3 * i + 2]);
    let j = 3 * i;
    assert(j / 3 == i && j % 3 == 0);
    assert((j + 1) / 3 == i && (j + 1) % 3 == 1);
    assert((j + 2) / 3 == i && (j + 2) % 3 == 2);
    assert(f[6 + j] == leds[j] && leds[j] == w[0]);
    assert(f[6 + j + 1] == leds[j + 1] && leds[j + 1] == w[1]);
    assert(f[6 + j + 2] == leds[j + 2] && leds[j + 2] == w[2]);
}

/// The bytes computed with shifts and masks are those of `header_bytes`.
proof fn lemma_header_bytes_fit(led_count: usize, n: u32, count: u32, hi: u8, lo: u8)
    requires
        n == led_count as u32,
        count == (if n == 0 { 0 } else { n - 1 }),
        hi == ((count >> 8) & 0xFF) as u8,
        lo == (count & 0xFF) as u8,
    ensures
        hi == header_hi(led_count),
        lo == header_lo(led_count),
{
    assert((led_count as u32) as u64 == (led_count as u64) % 0x1_0000_0000u64) by (bit_vector);
    assert(((count >> 8) & 0xFF) as u8 == ((count / 256) % 256) as u8) by (bit_vector);
    assert((count & 0xFF) as u8 == (count % 256) as u8) by (bit_vector);
    assert(count as int == announced_minus_one(led_count));
}

} // verus!
