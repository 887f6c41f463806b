use adalight_cosmic::pacing::{loop_step, LoopAction, LoopEvent, REPORT_INTERVAL_NS, RETRY_DELAY_NS};

const BUDGET: u64 = 16_666_666; // 60 fps

fn sent(elapsed_ns: u64, since_report_ns: u64) -> LoopEvent {
    LoopEvent::FrameSent { elapsed_ns, since_report_ns }
}

#[test]
fn early_frame_sleeps_rest_of_budget() {
    assert_eq!(
        loop_step(5, false, BUDGET, sent(6_666_666, 10)),
        (6, LoopAction::Continue { report_fps: None, sleep_ns: 10_000_000 })
    );
}

#[test]
fn late_frame_does_not_sleep() {
    assert_eq!(
        loop_step(0, false, BUDGET, sent(BUDGET, 0)),
        (1, LoopAction::Continue { report_fps: None, sleep_ns: 0 })
    );
    assert_eq!(
        loop_step(0, false, BUDGET, sent(40_000_000, 0)),
        (1, LoopAction::Continue { report_fps: None, sleep_ns: 0 })
    );
}

#[test]
fn report_after_a_second_with_stats() {
    assert_eq!(
        loop_step(59, true, BUDGET, sent(1_000_000, REPORT_INTERVAL_NS)),
        (0, LoopAction::Continue { report_fps: Some(60), sleep_ns: BUDGET - 1_000_000 })
    );
    // Not yet a second.
    assert_eq!(
        loop_step(59, true, BUDGET, sent(1_000_000, REPORT_INTERVAL_NS - 1)),
        (60, LoopAction::Continue { report_fps: None, sleep_ns: BUDGET - 1_000_000 })
    );
    // Without stats, never.
    assert_eq!(
        loop_step(59, false, BUDGET, sent(1_000_000, 5 * REPORT_INTERVAL_NS)),
        (60, LoopAction::Continue { report_fps: None, sleep_ns: BUDGET - 1_000_000 })
    );
}

#[test]
fn failures_and_retries() {
    assert_eq!(loop_step(7, true, BUDGET, LoopEvent::CaptureFailed), (0, LoopAction::ReinitCapture));
    assert_eq!(loop_step(7, true, BUDGET, LoopEvent::WriteFailed), (7, LoopAction::ReopenSerial));
    assert_eq!(
        loop_step(7, true, BUDGET, LoopEvent::SerialOpenFailed),
        (7, LoopAction::RetryAfter { sleep_ns: 1_000_000_000 })
    );
    assert_eq!(
        loop_step(7, false, BUDGET, LoopEvent::CaptureOpenFailed),
        (0, LoopAction::RetryAfter { sleep_ns: RETRY_DELAY_NS })
    );
    assert_eq!(RETRY_DELAY_NS, 1_000_000_000);
}
