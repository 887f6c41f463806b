//! The LED chain configuration: color order, segments along the screen
//! edges, capture rates, and their validation.
use vstd::prelude::*;

verus! {

/// Wire order of the three color channels expected by the LED chain.
#[derive(Debug, Clone, Copy, PartialEq, Eq, Structural)]
pub enum ColorOrder {
    Rgb,
    Rbg,
    Grb,
    Gbr,
    Brg,
    Bgr,
}

impl ColorOrder {
    /// The bytes sent on the wire for a pixel `(r, g, b)` under this order.
    pub open spec fn wire_order(self, r: u8, g: u8, b: u8) -> Seq<u8> {
        match self {
            ColorOrder::Rgb => seq![r, g, b],
            ColorOrder::Rbg => seq![r, b, g],
            ColorOrder::Grb => seq![g, r, b],
            ColorOrder::Gbr => seq![g, b, r],
            ColorOrder::Brg => seq![b, r, g],
            ColorOrder::Bgr => seq![b, g, r],
        }
    }

    /// Reorder an (r,g,b) triple into the wire order this chain expects.
    pub fn apply(self, r: u8, g: u8, b: u8) -> (out: [u8; 3])
        ensures
            out@ == self.wire_order(r, g, b),
    {
        let out = match self {
            ColorOrder::Rgb => [r, g, b],
            ColorOrder::Rbg => [r, b, g],
            ColorOrder::Grb => [g, r, b],
            ColorOrder::Gbr => [g, b, r],
            ColorOrder::Brg => [b, r, g],
            ColorOrder::Bgr => [b, g, r],
        };
        assert(out@ =~= self.wire_order(r, g, b));
        out
    }
}

/// Which input channel (0 = red, 1 = green, 2 = blue) a color order sends
/// as wire byte `c`.
pub open spec fn wire_source(order: ColorOrder, c: int) -> int {
    let src = match order {
        ColorOrder::Rgb => seq![0int, 1, 2],
        ColorOrder::Rbg => seq![0int, 2, 1],
        ColorOrder::Grb => seq![1int, 0, 2],
        ColorOrder::Gbr => seq![1int, 2, 0],
        ColorOrder::Brg => seq![2int, 0, 1],
        ColorOrder::Bgr => seq![2int, 1, 0],
    };
    src[c]
}

/// Every color order sends each of the three input channels exactly once,
/// at a position that depends on the order alone, never on the values; only
/// `Rgb` sends them unchanged.
pub proof fn lemma_wire_order_is_permutation(order: ColorOrder, r: u8, g: u8, b: u8)
    ensures
        order.wire_order(r, g, b).len() == 3,
        forall|c: int| 0 <= c < 3 ==> 0 <= #[trigger] wire_source(order, c) < 3,
        forall|c: int| 0 <= c < 3 ==> #[trigger] order.wire_order(r, g, b)[c] == seq![r, g, b][wire_source(order, c)],
        forall|c1: int, c2: int|
            0 <= c1 < 3 && 0 <= c2 < 3 && c1 != c2 ==> #[trigger] wire_source(order, c1) != #[trigger] wire_source(order, c2),
        (forall|c: int| 0 <= c < 3 ==> #[trigger] wire_source(order, c) == c) <==> order == ColorOrder::Rgb,
{
    if order != ColorOrder::Rgb {
        assert(wire_source(order, 0) != 0 || wire_source(order, 1) != 1 || wire_source(order, 2) != 2);
    }
}

/// Screen edge along which a run of LEDs is mounted.
#[derive(Debug, Clone, Copy, PartialEq, Eq, Structural)]
pub enum Edge {
    Top,
    Bottom,
    Left,
    Right,
}

/// Physical direction in which the chain runs along an edge.
#[derive(Debug, Clone, Copy, PartialEq, Eq, Structural)]
pub enum Direction {
    Ltr,
    Rtl,
    Ttb,
    Btt,
}

impl Direction {
    /// Whether this direction runs against the ascending geometric order
    /// (left to right, top to bottom) of an edge.
    pub open spec fn spec_is_reversed(self) -> bool {
        self is Rtl || self is Btt
    }

    pub fn is_reversed(self) -> (r: bool)
        ensures
            r == self.spec_is_reversed(),
    {
        match self {
            Direction::Rtl | Direction::Btt => true,
            _ => false,
        }
    }
}

impl Edge {
    /// Horizontal edges take ltr/rtl, vertical edges take ttb/btt.
    pub open spec fn spec_accepts(self, dir: Direction) -> bool {
        match self {
            Edge::Top | Edge::Bottom => dir is Ltr || dir is Rtl,
            Edge::Left | Edge::Right => dir is Ttb || dir is Btt,
        }
    }

    pub fn accepts(self, dir: Direction) -> (r: bool)
        ensures
            r == self.spec_accepts(dir),
    {
        match self {
            Edge::Top | Edge::Bottom => match dir {
                Direction::Ltr | Direction::Rtl => true,
                _ => false,
            },
            Edge::Left | Edge::Right => match dir {
                Direction::Ttb | Direction::Btt => true,
                _ => false,
            },
        }
    }
}

/// One run of LEDs along one screen edge, in physical chain order.
#[derive(Debug, Clone, Copy, PartialEq, Eq, Structural)]
pub struct Segment {
    pub edge: Edge,
    pub count: u32,
    pub direction: Direction,
}

/// The whole LED chain, one segment after the other.
#[derive(Debug, Clone)]
pub struct LedsCfg {
    pub segment: Vec<Segment>,
}

/// Serial link to the LED controller.
#[derive(Debug, Clone)]
pub struct SerialCfg {
    pub device: String,
    pub baud: u32,
    pub color_order: ColorOrder,
}

/// Capture settings held as integers; the fractional band depth of the
/// sampling zones is kept beside this value by the program around the library.
#[derive(Debug, Clone)]
pub struct CaptureCfg {
    pub output: String,
    pub fps: u32,
    pub subsample: u32,
}

/// The integer part of the program's configuration.
#[derive(Debug, Clone)]
pub struct Config {
    pub serial: SerialCfg,
    pub capture: CaptureCfg,
    pub leds: LedsCfg,
}

/// Why a configuration was rejected.
#[derive(Debug, Clone, Copy, PartialEq, Eq, Structural)]
pub enum ConfigError {
    /// The segments hold no LED at all.
    NoLeds,
    /// `capture.band_depth` lies outside `[0.0, 0.5)`.
    BandDepthOutOfRange,
    /// `capture.subsample` is zero.
    SubsampleZero,
    /// `capture.fps` is zero.
    FpsZero,
    /// A horizontal edge with ttb/btt, or a vertical edge with ltr/rtl.
    EdgeDirectionMismatch,
}

pub fn default_color_order() -> (c: ColorOrder)
    ensures
        c == ColorOrder::Rgb,
{
    ColorOrder::Rgb
}

pub fn default_fps() -> (f: u32)
    ensures
        f == 60,
{
    60
}

pub fn default_subsample() -> (s: u32)
    ensures
        s == 4,
{
    4
}

/// Sum of the LED counts of a sequence of segments.
pub open spec fn sum_counts(segs: Seq<Segment>) -> nat
    decreases segs.len(),
{
    if segs.len() == 0 {
        0
    } else {
        sum_counts(segs.drop_last()) + segs.last().count as nat
    }
}

/// Every segment runs along its edge in a direction that edge accepts.
pub open spec fn all_directions_fit(segs: Seq<Segment>) -> bool {
    forall|i: int| 0 <= i < segs.len() ==> (#[trigger] segs[i]).edge.spec_accepts(segs[i].direction)
}

impl Config {
    /// Total number of LEDs in the chain.
    pub open spec fn spec_total_leds(&self) -> nat {
        sum_counts(self.leds.segment@)
    }

    /// The outcome of validation, checked in this order.
    pub open spec fn spec_validate(&self, band_depth_in_range: bool) -> Result<(), ConfigError> {
        if self.spec_total_leds() == 0 {
            Err(ConfigError::NoLeds)
        } else if !band_depth_in_range {
            Err(ConfigError::BandDepthOutOfRange)
        } else if self.capture.subsample < 1 {
            Err(ConfigError::SubsampleZero)
        } else if self.capture.fps < 1 {
            Err(ConfigError::FpsZero)
        } else if !all_directions_fit(self.leds.segment@) {
            Err(ConfigError::EdgeDirectionMismatch)
        } else {
            Ok(())
        }
    }

    pub fn total_leds(&self) -> (n: usize)
        requires
            self.spec_total_leds() <= usize::MAX,
        ensures
            n == self.spec_total_leds(),
    {
        let segs = &self.leds.segment;
        let mut total: usize = 0;
        let mut i: usize = 0;
        while i < segs.len()
            invariant
                i <= segs.len(),
                total == sum_counts(segs@.take(i as int)),
                sum_counts(segs@) <= usize::MAX,
            decreases segs.len() - i,
        {
            assert(segs@.take(i as int + 1).drop_last() =~= segs@.take(i as int));
            proof {
                lemma_sum_counts_prefix(segs@, i as int + 1);
            }
            total = total + segs[i].count as usize;
            i = i + 1;
        }
        assert(segs@.take(i as int) =~= segs@);
        total
    }

    /// Check the configuration. `band_depth_in_range` tells whether the
    /// fractional `capture.band_depth` lies in `[0.0, 0.5)`.
    pub fn validate(&self, band_depth_in_range: bool) -> (res: Result<(), ConfigError>)
        requires
            self.spec_total_leds() <= usize::MAX,
        ensures
            res == self.spec_validate(band_depth_in_range),
    {
        if self.total_leds() == 0 {
            return Err(ConfigError::NoLeds);
        }
        if !band_depth_in_range {
            return Err(ConfigError::BandDepthOutOfRange);
        }
        if self.capture.subsample < 1 {
            return Err(ConfigError::SubsampleZero);
        }
        if self.capture.fps < 1 {
            return Err(ConfigError::FpsZero);
        }
        let segs = &self.leds.segment;
        let mut i: usize = 0;
        while i < segs.len()
            invariant
                i <= segs.len(),
                segs@ == self.leds.segment@,
                self.spec_total_leds() > 0,
                band_depth_in_range,
                self.capture.subsample >= 1,
                self.capture.fps >= 1,
                forall|j: int| 0 <= j < i ==> (#[trigger] segs@[j]).edge.spec_accepts(segs@[j].direction),
            decreases segs.len() - i,
        {
            if !segs[i].edge.accepts(segs[i].direction) {
                assert(!(segs@[i as int].edge.spec_accepts(segs@[i as int].direction)));
                return Err(ConfigError::EdgeDirectionMismatch);
            }
            i = i + 1;
        }
        Ok(())
    }
}

/// Whether a segment runs along its edge: a horizontal edge (top, bottom)
/// left to right or right to left, a vertical edge (left, right) top to
/// bottom or bottom to top.
pub open spec fn runs_along_edge(seg: Segment) -> bool {
    ||| (seg.edge == Edge::Top || seg.edge == Edge::Bottom) && (seg.direction == Direction::Ltr
        || seg.direction == Direction::Rtl)
    ||| (seg.edge == Edge::Left || seg.edge == Edge::Right) && (seg.direction == Direction::Ttb
        || seg.direction == Direction::Btt)
}

/// Each edge accepts exactly the two directions along it: top and bottom
/// accept ltr and rtl, left and right accept ttb and btt, and nothing else.
pub proof fn lemma_edges_accept_both_directions_along_them(edge: Edge, dir: Direction)
    ensures
        edge.spec_accepts(dir) <==> runs_along_edge(Segment { edge, count: 0, direction: dir }),
        edge == Edge::Top ==> edge.spec_accepts(Direction::Ltr) && edge.spec_accepts(Direction::Rtl),
        edge == Edge::Bottom ==> edge.spec_accepts(Direction::Ltr) && edge.spec_accepts(Direction::Rtl),
        edge == Edge::Left ==> edge.spec_accepts(Direction::Ttb) && edge.spec_accepts(Direction::Btt),
        edge == Edge::Right ==> edge.spec_accepts(Direction::Ttb) && edge.spec_accepts(Direction::Btt),
        (edge == Edge::Top || edge == Edge::Bottom) ==> !edge.spec_accepts(Direction::Ttb) && !edge.spec_accepts(
            Direction::Btt,
        ),
        (edge == Edge::Left || edge == Edge::Right) ==> !edge.spec_accepts(Direction::Ltr) && !edge.spec_accepts(
            Direction::Rtl,
        ),
{
}

/// A chain validates exactly when it has LEDs, the band depth is in range,
/// subsample and fps are at least one, and every segment runs along its edge
/// in either direction; a segment across its edge is the mismatch reported
/// when the other checks pass.
pub proof fn lemma_validate_accepts_chains_along_edges(cfg: Config, band_depth_in_range: bool)
    ensures
        (cfg.spec_total_leds() > 0 && band_depth_in_range && cfg.capture.subsample >= 1 && cfg.capture.fps >= 1
            && forall|i: int| 0 <= i < cfg.leds.segment@.len() ==> runs_along_edge(#[trigger] cfg.leds.segment@[i]))
            ==> cfg.spec_validate(band_depth_in_range) == Ok::<(), ConfigError>(()),
        (cfg.spec_total_leds() > 0 && band_depth_in_range && cfg.capture.subsample >= 1 && cfg.capture.fps >= 1
            && exists|i: int| 0 <= i < cfg.leds.segment@.len() && !runs_along_edge(#[trigger] cfg.leds.segment@[i]))
            ==> cfg.spec_validate(band_depth_in_range) == Err::<(), ConfigError>(ConfigError::EdgeDirectionMismatch),
{
    let segs = cfg.leds.segment@;
    assert forall|i: int| 0 <= i < segs.len() implies (#[trigger] segs[i]).edge.spec_accepts(segs[i].direction)
        == runs_along_edge(segs[i]) by {
        lemma_edges_accept_both_directions_along_them(segs[i].edge, segs[i].direction);
    }
}

/// The sum over a prefix never exceeds the sum over the whole sequence.
pub proof fn lemma_sum_counts_prefix(segs: Seq<Segment>, k: int)
    requires
        0 <= k <= segs.len(),
    ensures
        sum_counts(segs.take(k)) <= sum_counts(segs),
    decreases segs.len() - k,
{
    if k < segs.len() {
        lemma_sum_counts_prefix(segs, k + 1);
        assert(segs.take(k + 1).drop_last() =~= segs.take(k));
    } else {
        assert(segs.take(k) =~= segs);
    }
}

} // verus!
