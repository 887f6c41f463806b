use adalight_cosmic::config::{CaptureCfg, ColorOrder, Config, Direction, Edge, LedsCfg, Segment, SerialCfg};
use adalight_cosmic::geometry::{build_zones, fit_to_frame, segment_zones, PixRect, ZoneSlot};

fn slot(edge: Edge, index: u32, slots: u32) -> ZoneSlot {
    ZoneSlot { edge, index, slots }
}

fn chain(segment: Vec<Segment>) -> Config {
    Config {
        serial: SerialCfg { device: String::new(), baud: 115200, color_order: ColorOrder::Rgb },
        capture: CaptureCfg { output: "DP-1".to_string(), fps: 60, subsample: 4 },
        leds: LedsCfg { segment },
    }
}

#[test]
fn segment_ascending() {
    let z = segment_zones(&Segment { edge: Edge::Top, count: 3, direction: Direction::Ltr });
    assert_eq!(z, vec![slot(Edge::Top, 0, 3), slot(Edge::Top, 1, 3), slot(Edge::Top, 2, 3)]);
}

#[test]
fn segment_reversed() {
    let z = segment_zones(&Segment { edge: Edge::Left, count: 3, direction: Direction::Btt });
    assert_eq!(z, vec![slot(Edge::Left, 2, 3), slot(Edge::Left, 1, 3), slot(Edge::Left, 0, 3)]);
    let fwd = segment_zones(&Segment { edge: Edge::Bottom, count: 4, direction: Direction::Ltr });
    let mut back = segment_zones(&Segment { edge: Edge::Bottom, count: 4, direction: Direction::Rtl });
    back.reverse();
    assert_eq!(fwd, back);
}

#[test]
fn empty_segment_gives_no_zone() {
    let z = segment_zones(&Segment { edge: Edge::Right, count: 0, direction: Direction::Ttb });
    assert!(z.is_empty());
}

#[test]
fn zones_follow_chain_order() {
    let cfg = chain(vec![
        Segment { edge: Edge::Left, count: 2, direction: Direction::Btt },
        Segment { edge: Edge::Top, count: 3, direction: Direction::Ltr },
        Segment { edge: Edge::Right, count: 2, direction: Direction::Ttb },
    ]);
    let z = build_zones(&cfg);
    assert_eq!(
        z,
        vec![
            slot(Edge::Left, 1, 2),
            slot(Edge::Left, 0, 2),
            slot(Edge::Top, 0, 3),
            slot(Edge::Top, 1, 3),
            slot(Edge::Top, 2, 3),
            slot(Edge::Right, 0, 2),
            slot(Edge::Right, 1, 2),
        ]
    );
    assert_eq!(z.len(), cfg.total_leds());
}

#[test]
fn default_chain_has_one_zone_per_led() {
    let cfg = chain(vec![
        Segment { edge: Edge::Left, count: 20, direction: Direction::Btt },
        Segment { edge: Edge::Top, count: 37, direction: Direction::Ltr },
        Segment { edge: Edge::Right, count: 20, direction: Direction::Ttb },
    ]);
    assert_eq!(build_zones(&cfg).len(), 77);
    assert_eq!(cfg.total_leds(), 77);
}

#[test]
fn empty_segment_keeps_one_zone_per_led() {
    let cfg = chain(vec![
        Segment { edge: Edge::Top, count: 0, direction: Direction::Ltr },
        Segment { edge: Edge::Top, count: 1, direction: Direction::Ltr },
    ]);
    assert_eq!(cfg.validate(true), Ok(()));
    assert_eq!(build_zones(&cfg), vec![slot(Edge::Top, 0, 1)]);
    assert_eq!(cfg.total_leds(), 1);
}

#[test]
fn fit_clamps_far_edges() {
    let scaled = vec![
        PixRect { x0: 0, y0: 0, x1: 40, y1: 10 },
        PixRect { x0: 90, y0: 0, x1: 120, y1: 10 },
        PixRect { x0: 100, y0: 50, x1: 100, y1: 50 },
        PixRect { x0: 5, y0: 5, x1: 3, y1: 80 },
    ];
    let fitted = fit_to_frame(&scaled, 100, 60);
    assert_eq!(
        fitted,
        vec![
            PixRect { x0: 0, y0: 0, x1: 40, y1: 10 },
            PixRect { x0: 90, y0: 0, x1: 100, y1: 10 },
            PixRect { x0: 100, y0: 50, x1: 101, y1: 51 },
            PixRect { x0: 5, y0: 5, x1: 6, y1: 60 },
        ]
    );
    assert!(fitted.iter().all(|r| r.x0 < r.x1 && r.y0 < r.y1));
}

#[test]
fn fit_keeps_order_and_count() {
    let a = vec![PixRect { x0: 0, y0: 0, x1: 12, y1: 3 }, PixRect { x0: 7, y0: 1, x1: 7, y1: 9 }];
    let b = vec![PixRect { x0: 9, y0: 8, x1: 30, y1: 30 }];
    let mut joined = a.clone();
    joined.extend(b.iter().copied());
    let mut separate = fit_to_frame(&a, 10, 8);
    separate.extend(fit_to_frame(&b, 10, 8));
    assert_eq!(fit_to_frame(&joined, 10, 8), separate);
    assert_eq!(separate.len(), 3);
    assert_eq!(separate[2], PixRect { x0: 9, y0: 8, x1: 10, y1: 9 });
}
