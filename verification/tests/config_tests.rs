use adalight_cosmic::config::{
    default_color_order, default_fps, default_subsample, CaptureCfg, ColorOrder, Config,
    ConfigError, Direction, Edge, LedsCfg, Segment, SerialCfg,
};

fn seg(edge: Edge, count: u32, direction: Direction) -> Segment {
    Segment { edge, count, direction }
}

fn config(segments: Vec<Segment>, fps: u32, subsample: u32) -> Config {
    Config {
        serial: SerialCfg {
            device: "/dev/ttyUSB0".to_string(),
            baud: 500000,
            color_order: ColorOrder::Rgb,
        },
        capture: CaptureCfg { output: "DP-1".to_string(), fps, subsample },
        leds: LedsCfg { segment: segments },
    }
}

fn default_chain() -> Vec<Segment> {
    vec![
        seg(Edge::Left, 20, Direction::Btt),
        seg(Edge::Top, 37, Direction::Ltr),
        seg(Edge::Right, 20, Direction::Ttb),
    ]
}

#[test]
fn color_order_apply_all_orders() {
    assert_eq!(ColorOrder::Rgb.apply(1, 2, 3), [1, 2, 3]);
    assert_eq!(ColorOrder::Rbg.apply(1, 2, 3), [1, 3, 2]);
    assert_eq!(ColorOrder::Grb.apply(1, 2, 3), [2, 1, 3]);
    assert_eq!(ColorOrder::Gbr.apply(1, 2, 3), [2, 3, 1]);
    assert_eq!(ColorOrder::Brg.apply(1, 2, 3), [3, 1, 2]);
    assert_eq!(ColorOrder::Bgr.apply(1, 2, 3), [3, 2, 1]);
}

#[test]
fn defaults() {
    assert_eq!(default_color_order(), ColorOrder::Rgb);
    assert_eq!(default_fps(), 60);
    assert_eq!(default_subsample(), 4);
}

#[test]
fn total_leds_sums_segments() {
    assert_eq!(config(default_chain(), 60, 4).total_leds(), 77);
    assert_eq!(config(vec![], 60, 4).total_leds(), 0);
    let with_empty = vec![seg(Edge::Top, 0, Direction::Ltr), seg(Edge::Bottom, 5, Direction::Rtl)];
    assert_eq!(config(with_empty, 60, 4).total_leds(), 5);
}

#[test]
fn edges_accept_matching_directions() {
    assert!(Edge::Top.accepts(Direction::Ltr));
    assert!(Edge::Bottom.accepts(Direction::Rtl));
    assert!(!Edge::Top.accepts(Direction::Ttb));
    assert!(Edge::Left.accepts(Direction::Btt));
    assert!(Edge::Right.accepts(Direction::Ttb));
    assert!(!Edge::Right.accepts(Direction::Rtl));
    assert!(Direction::Rtl.is_reversed());
    assert!(Direction::Btt.is_reversed());
    assert!(!Direction::Ltr.is_reversed());
    assert!(!Direction::Ttb.is_reversed());
}

#[test]
fn validate_accepts_default_chain() {
    assert_eq!(config(default_chain(), 60, 4).validate(true), Ok(()));
}

#[test]
fn validate_rejects_each_fault() {
    assert_eq!(config(vec![], 60, 4).validate(true), Err(ConfigError::NoLeds));
    assert_eq!(
        config(vec![seg(Edge::Top, 0, Direction::Ltr)], 60, 4).validate(true),
        Err(ConfigError::NoLeds)
    );
    assert_eq!(config(default_chain(), 60, 4).validate(false), Err(ConfigError::BandDepthOutOfRange));
    assert_eq!(config(default_chain(), 60, 0).validate(true), Err(ConfigError::SubsampleZero));
    assert_eq!(config(default_chain(), 0, 4).validate(true), Err(ConfigError::FpsZero));
    let bad = vec![seg(Edge::Top, 10, Direction::Ttb)];
    assert_eq!(config(bad, 60, 4).validate(true), Err(ConfigError::EdgeDirectionMismatch));
}

#[test]
fn validate_reports_first_fault_in_order() {
    let bad = vec![seg(Edge::Left, 10, Direction::Ltr)];
    assert_eq!(config(bad.clone(), 0, 0).validate(false), Err(ConfigError::BandDepthOutOfRange));
    assert_eq!(config(bad.clone(), 0, 0).validate(true), Err(ConfigError::SubsampleZero));
    assert_eq!(config(bad.clone(), 0, 1).validate(true), Err(ConfigError::FpsZero));
    assert_eq!(config(bad, 1, 1).validate(true), Err(ConfigError::EdgeDirectionMismatch));
}
