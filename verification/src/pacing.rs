//! Decisions of the capture loop: what follows a failure, when the measured
//! frame rate is reported, and how long to sleep to keep the target rate.
//! The program around the library runs the loop, measures the time and
//! performs each action.
use vstd::prelude::*;

verus! {

/// Delay before retrying to open the capture or the serial port.
pub const RETRY_DELAY_NS: u64 = 1_000_000_000;

/// Least time between two frame-rate reports.
pub const REPORT_INTERVAL_NS: u64 = 1_000_000_000;

/// What happened in the loop.
#[derive(Debug, Clone, Copy, PartialEq, Eq, Structural)]
pub enum LoopEvent {
    /// Setting up the screen capture failed.
    CaptureOpenFailed,
    /// Opening the serial port failed.
    SerialOpenFailed,
    /// Capturing a frame failed.
    CaptureFailed,
    /// Writing a frame to the serial port failed.
    WriteFailed,
    /// A frame was captured and sent: `elapsed_ns` since the frame began,
    /// `since_report_ns` since the last frame-rate report (or since the
    /// capture started).
    FrameSent { elapsed_ns: u64, since_report_ns: u64 },
}

/// What the loop does next.
#[derive(Debug, Clone, Copy, PartialEq, Eq, Structural)]
pub enum LoopAction {
    /// Sleep, then try the failed open again.
    RetryAfter { sleep_ns: u64 },
    /// Set up the screen capture again; the frame count starts over.
    ReinitCapture,
    /// Open the serial port again and go on with the next frame at once.
    ReopenSerial,
    /// Report the frame rate if asked, sleep, then go on with the next frame.
    Continue { report_fps: Option<u32>, sleep_ns: u64 },
}

/// The rest of the frame budget, or nothing when the frame took longer.
pub open spec fn rest_of_budget(budget_ns: u64, elapsed_ns: u64) -> u64 {
    if elapsed_ns < budget_ns {
        (budget_ns - elapsed_ns) as u64
    } else {
        0
    }
}

/// Whether a frame-rate report is due.
pub open spec fn report_due(stats: bool, since_report_ns: u64) -> bool {
    stats && since_report_ns >= REPORT_INTERVAL_NS
}

/// The frame count and the action after an event, given the frames sent
/// since the last report, whether reports are asked for, and the frame budget.
pub open spec fn spec_loop_step(frames: u32, stats: bool, budget_ns: u64, ev: LoopEvent) -> (u32, LoopAction) {
    match ev {
        LoopEvent::CaptureOpenFailed => (0, LoopAction::RetryAfter { sleep_ns: RETRY_DELAY_NS }),
        LoopEvent::SerialOpenFailed => (frames, LoopAction::RetryAfter { sleep_ns: RETRY_DELAY_NS }),
        LoopEvent::CaptureFailed => (0, LoopAction::ReinitCapture),
        LoopEvent::WriteFailed => (frames, LoopAction::ReopenSerial),
        LoopEvent::FrameSent { elapsed_ns, since_report_ns } => {
            let sent = (frames + 1) as u32;
            let report = report_due(stats, since_report_ns);
            (
                if report { 0 } else { sent },
                LoopAction::Continue {
                    report_fps: if report { Some(sent) } else { None },
                    sleep_ns: rest_of_budget(budget_ns, elapsed_ns),
                },
            )
        },
    }
}

/// Decide the next step of the capture loop.
pub fn loop_step(frames: u32, stats: bool, budget_ns: u64, ev: LoopEvent) -> (r: (u32, LoopAction))
    requires
        ev is FrameSent ==> frames < u32::MAX,
    ensures
        r == spec_loop_step(frames, stats, budget_ns, ev),
{
    match ev {
        LoopEvent::CaptureOpenFailed => (0, LoopAction::RetryAfter { sleep_ns: RETRY_DELAY_NS }),
        LoopEvent::SerialOpenFailed => (frames, LoopAction::RetryAfter { sleep_ns: RETRY_DELAY_NS }),
        LoopEvent::CaptureFailed => (0, LoopAction::ReinitCapture),
        LoopEvent::WriteFailed => (frames, LoopAction::ReopenSerial),
        LoopEvent::FrameSent { elapsed_ns, since_report_ns } => {
            let sent = frames + 1;
            let report = stats && since_report_ns >= REPORT_INTERVAL_NS;
            let sleep_ns = if elapsed_ns < budget_ns { budget_ns - elapsed_ns } else { 0 };
            if report {
                (0, LoopAction::Continue { report_fps: Some(sent), sleep_ns })
            } else {
                (sent, LoopAction::Continue { report_fps: None, sleep_ns })
            }
        },
    }
}

/// Pacing: a frame that finished early sleeps exactly the rest of its
/// budget, so that it takes the whole budget; a late frame does not sleep.
pub proof fn lemma_pacing_fills_budget(frames: u32, stats: bool, budget_ns: u64, elapsed_ns: u64, since_report_ns: u64)
    requires
        frames < u32::MAX,
    ensures
        spec_loop_step(frames, stats, budget_ns, (LoopEvent::FrameSent { elapsed_ns, since_report_ns })).1
            is Continue,
        elapsed_ns < budget_ns ==> elapsed_ns + rest_of_budget(budget_ns, elapsed_ns) == budget_ns,
        elapsed_ns >= budget_ns ==> rest_of_budget(budget_ns, elapsed_ns) == 0,
{
}

/// Reports: none without `stats`, and none before a second has passed; a
/// report gives the frames sent since the previous one, and the count starts
/// over after it.
pub proof fn lemma_report_counts_frames(frames: u32, stats: bool, budget_ns: u64, elapsed_ns: u64, since_report_ns: u64)
    requires
        frames < u32::MAX,
    ensures
        ({
            let r = spec_loop_step(frames, stats, budget_ns, (LoopEvent::FrameSent { elapsed_ns, since_report_ns }));
            &&& (!stats || since_report_ns < REPORT_INTERVAL_NS) ==> r.0 == frames + 1 && r.1 == (LoopAction::Continue {
                report_fps: None,
                sleep_ns: rest_of_budget(budget_ns, elapsed_ns),
            })
            &&& (stats && since_report_ns >= REPORT_INTERVAL_NS) ==> r.0 == 0 && r.1 == (LoopAction::Continue {
                report_fps: Some((frames + 1) as u32),
                sleep_ns: rest_of_budget(budget_ns, elapsed_ns),
            })
        }),
{
}

/// Failures never count as sent frames: a write failure keeps the count, a
/// capture failure starts it over with the new capture.
pub proof fn lemma_failures_send_nothing(frames: u32, stats: bool, budget_ns: u64)
    ensures
        spec_loop_step(frames, stats, budget_ns, LoopEvent::WriteFailed).0 == frames,
        spec_loop_step(frames, stats, budget_ns, LoopEvent::SerialOpenFailed).0 == frames,
        spec_loop_step(frames, stats, budget_ns, LoopEvent::CaptureFailed).0 == 0,
        spec_loop_step(frames, stats, budget_ns, LoopEvent::CaptureOpenFailed).0 == 0,
{
}

} // verus!
