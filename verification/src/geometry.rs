//! Sampling zones along the screen edges, one per LED in chain order.
use vstd::prelude::*;
use crate::config::{Config, Direction, Edge, Segment, sum_counts};

verus! {

/// A sampling rectangle in pixel coordinates for a given frame size:
/// (x0,y0) top-left inclusive, (x1,y1) bottom-right exclusive.
#[derive(Debug, Clone, Copy, PartialEq, Eq, Structural)]
pub struct PixRect {
    pub x0: u32,
    pub y0: u32,
    pub x1: u32,
    pub y1: u32,
}

/// The zone of one LED: slot `index` of `slots` equal slots along `edge`,
/// counted in ascending geometric order (left to right, top to bottom).
#[derive(Debug, Clone, Copy, PartialEq, Eq, Structural)]
pub struct ZoneSlot {
    pub edge: Edge,
    pub index: u32,
    pub slots: u32,
}

/// Number of slots a segment divides its edge into: one per LED.
pub open spec fn slot_count(seg: Segment) -> u32 {
    seg.count
}

/// The zone of the `k`-th LED of a segment, in physical chain order.
pub open spec fn slot_of(seg: Segment, k: int) -> ZoneSlot {
    let n = slot_count(seg);
    ZoneSlot {
        edge: seg.edge,
        index: if seg.direction.spec_is_reversed() {
            (n - 1 - k) as u32
        } else {
            k as u32
        },
        slots: n,
    }
}

/// The zones of one segment, in physical chain order.
pub open spec fn segment_slots(seg: Segment) -> Seq<ZoneSlot> {
    Seq::new(slot_count(seg) as nat, |k: int| slot_of(seg, k))
}

/// The zones of the whole chain: the zones of each segment, one segment
/// after the other.
pub open spec fn chain_slots(segs: Seq<Segment>) -> Seq<ZoneSlot>
    decreases segs.len(),
{
    if segs.len() == 0 {
        Seq::empty()
    } else {
        chain_slots(segs.drop_last()) + segment_slots(segs.last())
    }
}

/// The zones of one segment, reordered into the physical chain direction.
pub fn segment_zones(seg: &Segment) -> (out: Vec<ZoneSlot>)
    ensures
        out@ == segment_slots(*seg),
{
    let n: u32 = seg.count;
    let reversed = seg.direction.is_reversed();
    let mut out: Vec<ZoneSlot> = Vec::new();
    let mut k: u32 = 0;
    while k < n
        invariant
            n == slot_count(*seg),
            reversed == seg.direction.spec_is_reversed(),
            k <= n,
            out@ == segment_slots(*seg).take(k as int),
        decreases n - k,
    {
        let index: u32 = if reversed { n - 1 - k } else { k };
        out.push(ZoneSlot { edge: seg.edge, index, slots: n });
        assert(out@ =~= segment_slots(*seg).take(k as int + 1));
        k = k + 1;
    }
    assert(segment_slots(*seg).take(n as int) =~= segment_slots(*seg));
    out
}

/// Build the per-LED zones, in physical chain order.
pub fn build_zones(cfg: &Config) -> (zones: Vec<ZoneSlot>)
    ensures
        zones@ == chain_slots(cfg.leds.segment@),
        zones@.len() == cfg.spec_total_leds(),
{
    proof {
        lemma_zone_count(cfg.leds.segment@);
    }
    let segs = &cfg.leds.segment;
    let mut zones: Vec<ZoneSlot> = Vec::new();
    let mut i: usize = 0;
    while i < segs.len()
        invariant
            i <= segs.len(),
            zones@ == chain_slots(segs@.take(i as int)),
        decreases segs.len() - i,
    {
        let mut part = segment_zones(&segs[i]);
        zones.append(&mut part);
        assert(segs@.take(i as int + 1).drop_last() =~= segs@.take(i as int));
        i = i + 1;
    }
    assert(segs@.take(i as int) =~= segs@);
    zones
}

/// Clamp the far edge of a span: at most `limit`, but always past `lo`.
pub open spec fn clamp_far(lo: u32, hi: u32, limit: u32) -> u32 {
    let m = if hi < limit { hi } else { limit };
    if m < lo + 1 {
        (lo + 1) as u32
    } else {
        m
    }
}

/// A rectangle with its far edges clamped to a `width` x `height` frame.
pub open spec fn fitted_rect(r: PixRect, width: u32, height: u32) -> PixRect {
    PixRect {
        x0: r.x0,
        y0: r.y0,
        x1: clamp_far(r.x0, r.x1, width),
        y1: clamp_far(r.y0, r.y1, height),
    }
}

/// Each rectangle of `rects` fitted into a `width` x `height` frame, in order.
pub open spec fn fitted_rects(rects: Seq<PixRect>, width: u32, height: u32) -> Seq<PixRect> {
    Seq::new(rects.len(), |i: int| fitted_rect(rects[i], width, height))
}

/// Whether every rectangle of `rects` can take a far edge past its near edge.
pub open spec fn near_edges_below_max(rects: Seq<PixRect>) -> bool {
    forall|i: int| 0 <= i < rects.len() ==> (#[trigger] rects[i]).x0 < u32::MAX && rects[i].y0 < u32::MAX
}

/// Fit zones scaled to a frame (near edges rounded down, far edges rounded
/// up) into that frame: each far edge is clamped to the frame size, but kept
/// at least one pixel past the near edge.
pub fn fit_to_frame(scaled: &Vec<PixRect>, width: u32, height: u32) -> (out: Vec<PixRect>)
    requires
        near_edges_below_max(scaled@),
    ensures
        out@ == fitted_rects(scaled@, width, height),
{
    let mut out: Vec<PixRect> = Vec::new();
    let mut i: usize = 0;
    while i < scaled.len()
        invariant
            i <= scaled.len(),
            near_edges_below_max(scaled@),
            out@ == Seq::new(i as nat, |j: int| fitted_rect(scaled@[j], width, height)),
        decreases scaled.len() - i,
    {
        let z = scaled[i];
        assert(z.x0 < u32::MAX && z.y0 < u32::MAX);
        let x1 = if z.x1 < width { z.x1 } else { width };
        let x1 = if x1 < z.x0 + 1 { z.x0 + 1 } else { x1 };
        let y1 = if z.y1 < height { z.y1 } else { height };
        let y1 = if y1 < z.y0 + 1 { z.y0 + 1 } else { y1 };
        out.push(PixRect { x0: z.x0, y0: z.y0, x1, y1 });
        assert(out@ =~= Seq::new(i as nat + 1, |j: int| fitted_rect(scaled@[j], width, height)));
        i = i + 1;
    }
    assert(out@ =~= fitted_rects(scaled@, width, height));
    out
}

/// The chain has exactly one zone per configured LED.
pub proof fn lemma_zone_count(segs: Seq<Segment>)
    ensures
        chain_slots(segs).len() == sum_counts(segs),
    decreases segs.len(),
{
    if segs.len() > 0 {
        lemma_zone_count(segs.drop_last());
    }
}

/// A segment running left to right (`ltr`) or top to bottom (`ttb`) gives
/// its `k`-th LED slot `k` of its edge, counted left to right or top to
/// bottom; one running right to left (`rtl`) or bottom to top (`btt`) gives it
/// slot `count - 1 - k`. This holds on every edge, with `count` slots, all on
/// the segment's own edge.
pub proof fn lemma_zone_slots_follow_direction(seg: Segment, k: int)
    requires
        0 <= k < seg.count,
    ensures
        segment_slots(seg).len() == seg.count,
        segment_slots(seg)[k].edge == seg.edge,
        segment_slots(seg)[k].slots == seg.count,
        (seg.direction == Direction::Ltr || seg.direction == Direction::Ttb) ==> segment_slots(seg)[k].index == k,
        (seg.direction == Direction::Rtl || seg.direction == Direction::Btt) ==> segment_slots(seg)[k].index
            == seg.count - 1 - k,
{
}

/// Running a segment the other way along the same edge reverses its zones.
pub proof fn lemma_reversed_segment(fwd: Segment, back: Segment)
    requires
        fwd.edge == back.edge,
        fwd.count == back.count,
        !fwd.direction.spec_is_reversed(),
        back.direction.spec_is_reversed(),
    ensures
        segment_slots(back) == segment_slots(fwd).reverse(),
{
    assert(segment_slots(back) =~= segment_slots(fwd).reverse());
}

/// Some zone of the segment takes slot `i` of its edge.
pub open spec fn slot_covered(seg: Segment, i: int) -> bool {
    exists|k: int| 0 <= k < segment_slots(seg).len() && (#[trigger] segment_slots(seg)[k]).index == i
}

/// The zones of a segment lie on its edge and cover each of its slots
/// exactly once.
pub proof fn lemma_segment_covers_edge(seg: Segment)
    ensures
        forall|k: int|
            0 <= k < segment_slots(seg).len() ==> (#[trigger] segment_slots(seg)[k]).edge == seg.edge
                && segment_slots(seg)[k].slots == slot_count(seg) && segment_slots(seg)[k].index
                < slot_count(seg),
        forall|i: int| 0 <= i < slot_count(seg) ==> #[trigger] slot_covered(seg, i),
        forall|k1: int, k2: int|
            0 <= k1 < segment_slots(seg).len() && 0 <= k2 < segment_slots(seg).len() && k1 != k2
                ==> (#[trigger] segment_slots(seg)[k1]).index != (#[trigger] segment_slots(seg)[k2]).index,
{
    let n = slot_count(seg);
    assert forall|i: int| 0 <= i < n implies #[trigger] slot_covered(seg, i) by {
        if seg.direction.spec_is_reversed() {
            assert(segment_slots(seg)[n - 1 - i].index == i);
        } else {
            assert(segment_slots(seg)[i].index == i);
        }
    }
}

/// A fitted zone is never empty, keeps its near edges, and stays inside the
/// frame whenever its near edges do.
pub proof fn lemma_fitted_rect(r: PixRect, width: u32, height: u32)
    requires
        r.x0 < u32::MAX,
        r.y0 < u32::MAX,
    ensures
        fitted_rect(r, width, height).x0 == r.x0,
        fitted_rect(r, width, height).y0 == r.y0,
        fitted_rect(r, width, height).x0 < fitted_rect(r, width, height).x1,
        fitted_rect(r, width, height).y0 < fitted_rect(r, width, height).y1,
        r.x0 < width ==> fitted_rect(r, width, height).x1 <= width,
        r.y0 < height ==> fitted_rect(r, width, height).y1 <= height,
        r.x0 < r.x1 <= width ==> fitted_rect(r, width, height).x1 == r.x1,
        r.y0 < r.y1 <= height ==> fitted_rect(r, width, height).y1 == r.y1,
{
}

/// Fitting works zone by zone: it keeps the number and the order of the
/// zones, and fitting two runs of zones one after the other gives the same
/// as fitting them together.
pub proof fn lemma_fit_preserves_order(a: Seq<PixRect>, b: Seq<PixRect>, width: u32, height: u32)
    ensures
        fitted_rects(a, width, height).len() == a.len(),
        fitted_rects(a + b, width, height) == fitted_rects(a, width, height) + fitted_rects(b, width, height),
{
    assert(fitted_rects(a + b, width, height) =~= fitted_rects(a, width, height) + fitted_rects(b, width, height));
}

} // verus!
