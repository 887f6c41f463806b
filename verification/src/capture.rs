//! Decisions of the screen-capture session: which compositor globals to
//! bind, which output to capture, how the session negotiation and each
//! frame capture progress, and the shared-memory buffer layout.
use vstd::prelude::*;
use crate::color::PixelFormat;

verus! {

/// `wl_shm` format code of little-endian ARGB8888.
pub const WL_SHM_FORMAT_ARGB8888: u32 = 0;
/// `wl_shm` format code of little-endian XRGB8888.
pub const WL_SHM_FORMAT_XRGB8888: u32 = 1;
/// `wl_shm` format code of little-endian XBGR8888.
pub const WL_SHM_FORMAT_XBGR8888: u32 = 0x34324258;
/// `wl_shm` format code of little-endian ABGR8888.
pub const WL_SHM_FORMAT_ABGR8888: u32 = 0x34324241;

/// A captured frame: borrowed pixel data plus geometry.
pub struct Frame<'a> {
    pub data: &'a [u8],
    pub width: u32,
    pub height: u32,
    pub stride: usize,
    pub format: PixelFormat,
}

/// The byte layout of a `wl_shm` format, for the formats this program reads.
pub open spec fn spec_map_format(code: u32) -> Option<PixelFormat> {
    if code == WL_SHM_FORMAT_XRGB8888 || code == WL_SHM_FORMAT_ARGB8888 {
        Some(PixelFormat::Bgrx)
    } else if code == WL_SHM_FORMAT_XBGR8888 || code == WL_SHM_FORMAT_ABGR8888 {
        Some(PixelFormat::Rgbx)
    } else {
        None
    }
}

/// Exactly four `wl_shm` formats have a known byte layout: XRGB8888 (code 1)
/// and ARGB8888 (code 0), stored as B, G, R, X bytes, and XBGR8888
/// (0x34324258) and ABGR8888 (0x34324241), stored as R, G, B, X bytes; every
/// other code, such as XRGB2101010 (0x30335258), has none.
pub proof fn lemma_only_8bit_rgb_formats_have_layout(code: u32)
    ensures
        (code == 1 || code == 0) <==> spec_map_format(code) == Some(PixelFormat::Bgrx),
        (code == 0x34324258 || code == 0x34324241) <==> spec_map_format(code) == Some(PixelFormat::Rgbx),
        spec_map_format(code) is None <==> (code != 0 && code != 1 && code != 0x34324258 && code != 0x34324241),
{
}

pub fn map_format(code: u32) -> (f: Option<PixelFormat>)
    ensures
        f == spec_map_format(code),
{
    if code == WL_SHM_FORMAT_XRGB8888 || code == WL_SHM_FORMAT_ARGB8888 {
        // Little-endian XRGB/ARGB8888 => bytes B,G,R,X in memory.
        Some(PixelFormat::Bgrx)
    } else if code == WL_SHM_FORMAT_XBGR8888 || code == WL_SHM_FORMAT_ABGR8888 {
        // Little-endian XBGR/ABGR8888 => bytes R,G,B,X in memory.
        Some(PixelFormat::Rgbx)
    } else {
        None
    }
}

/// XRGB8888 and XBGR8888, the formats without an alpha channel, are the
/// preferred ones.
pub open spec fn preferred_format(code: u32) -> bool {
    code == WL_SHM_FORMAT_XRGB8888 || code == WL_SHM_FORMAT_XBGR8888
}

/// Whether an offered format replaces the kept one: it must have a known byte
/// layout, and either no format is kept yet, or the offered one is preferred
/// and the kept one is not.
pub open spec fn takes_format(kept: Option<u32>, offered: u32) -> bool {
    &&& spec_map_format(offered) is Some
    &&& match kept {
        None => true,
        Some(k) => preferred_format(offered) && !preferred_format(k),
    }
}

pub fn is_preferred_format(code: u32) -> (p: bool)
    ensures
        p == preferred_format(code),
{
    code == WL_SHM_FORMAT_XRGB8888 || code == WL_SHM_FORMAT_XBGR8888
}

/// Frame lifecycle result.
#[derive(Debug, Clone, Copy, PartialEq, Eq, Structural)]
pub enum FrameState {
    Pending,
    Ready,
    Failed,
}

/// An event of the capture session, as far as the program looks at it.
#[derive(Debug, Clone, Copy, PartialEq, Eq, Structural)]
pub enum SessionEvent {
    BufferSize { width: u32, height: u32 },
    /// A shared-memory format the compositor offers, by its `wl_shm` code.
    ShmFormat { format: u32 },
    Done,
    Stopped,
    /// Any other event, including formats with codes unknown to the protocol.
    Other,
}

/// An event of a single frame capture.
#[derive(Debug, Clone, Copy, PartialEq, Eq, Structural)]
pub enum FrameEvent {
    Ready,
    Failed,
    Other,
}

/// Session negotiation results and the state of the frame in flight.
#[derive(Debug, Clone, Copy, PartialEq, Eq, Structural)]
pub struct SessionState {
    pub buf_width: u32,
    pub buf_height: u32,
    pub shm_format: Option<u32>,
    pub session_done: bool,
    pub session_stopped: bool,
    pub frame_state: FrameState,
}

/// Where the session negotiation stands after an event dispatch.
#[derive(Debug, Clone, Copy, PartialEq, Eq, Structural)]
pub enum Negotiation {
    InProgress,
    Done,
    Stopped,
}

/// Where a frame capture stands after an event dispatch.
#[derive(Debug, Clone, Copy, PartialEq, Eq, Structural)]
pub enum FrameWait {
    Waiting,
    Ready,
    Failed,
    Stopped,
}

/// The shared-memory buffer the frames are copied into.
#[derive(Debug, Clone, Copy, PartialEq, Eq, Structural)]
pub struct BufferLayout {
    pub width: u32,
    pub height: u32,
    /// Bytes per row: 4 bytes per pixel for all supported formats.
    pub stride: usize,
    /// Bytes of the whole buffer.
    pub size: usize,
    pub format: PixelFormat,
    /// The negotiated `wl_shm` format code.
    pub format_code: u32,
}

/// Why the negotiated session cannot be captured from.
#[derive(Debug, Clone, Copy, PartialEq, Eq, Structural)]
pub enum CaptureError {
    /// The session gave a zero buffer size.
    ZeroBufferSize,
    /// The session advertised no shared-memory format.
    NoShmFormat,
    /// The advertised shared-memory format has no supported byte layout.
    UnsupportedFormat { code: u32 },
}

impl SessionState {
    /// The state before any event: nothing negotiated, no frame captured.
    pub open spec fn initial() -> SessionState {
        SessionState {
            buf_width: 0,
            buf_height: 0,
            shm_format: None,
            session_done: false,
            session_stopped: false,
            frame_state: FrameState::Pending,
        }
    }

    /// The negotiated format, if any, is one whose byte layout is known.
    pub open spec fn format_supported(self) -> bool {
        self.shm_format matches Some(code) ==> spec_map_format(code) is Some
    }

    /// The state after a session event.
    pub open spec fn after_session_event(self, ev: SessionEvent) -> SessionState {
        match ev {
            SessionEvent::BufferSize { width, height } => SessionState {
                buf_width: width,
                buf_height: height,
                ..self
            },
            SessionEvent::ShmFormat { format } => if takes_format(self.shm_format, format) {
                SessionState { shm_format: Some(format), ..self }
            } else {
                self
            },
            SessionEvent::Done => SessionState { session_done: true, ..self },
            SessionEvent::Stopped => SessionState { session_stopped: true, ..self },
            SessionEvent::Other => self,
        }
    }

    /// The state after a frame event.
    pub open spec fn after_frame_event(self, ev: FrameEvent) -> SessionState {
        match ev {
            FrameEvent::Ready => SessionState { frame_state: FrameState::Ready, ..self },
            FrameEvent::Failed => SessionState { frame_state: FrameState::Failed, ..self },
            FrameEvent::Other => self,
        }
    }

    /// Negotiation status: a stopped session wins over a finished one.
    pub open spec fn spec_negotiation(self) -> Negotiation {
        if self.session_stopped {
            Negotiation::Stopped
        } else if self.session_done {
            Negotiation::Done
        } else {
            Negotiation::InProgress
        }
    }

    /// Frame status: a stopped session wins over the frame's own state.
    pub open spec fn spec_frame_wait(self) -> FrameWait {
        if self.session_stopped {
            FrameWait::Stopped
        } else {
            match self.frame_state {
                FrameState::Pending => FrameWait::Waiting,
                FrameState::Ready => FrameWait::Ready,
                FrameState::Failed => FrameWait::Failed,
            }
        }
    }

    /// The buffer layout for the negotiated session, checked in this order.
    pub open spec fn spec_buffer_layout(self) -> Result<BufferLayout, CaptureError> {
        if self.buf_width == 0 || self.buf_height == 0 {
            Err(CaptureError::ZeroBufferSize)
        } else {
            match self.shm_format {
                None => Err(CaptureError::NoShmFormat),
                Some(code) => match spec_map_format(code) {
                    None => Err(CaptureError::UnsupportedFormat { code }),
                    Some(format) => Ok(
                        BufferLayout {
                            width: self.buf_width,
                            height: self.buf_height,
                            stride: (self.buf_width * 4) as usize,
                            size: (self.buf_width * 4 * self.buf_height) as usize,
                            format,
                            format_code: code,
                        },
                    ),
                },
            }
        }
    }

    pub fn new() -> (s: SessionState)
        ensures
            s == SessionState::initial(),
    {
        SessionState {
            buf_width: 0,
            buf_height: 0,
            shm_format: None,
            session_done: false,
            session_stopped: false,
            frame_state: FrameState::Pending,
        }
    }

    /// Record a session event. Of the offered formats with a known byte
    /// layout, XRGB8888/XBGR8888 is preferred when offered; otherwise the
    /// first one offered is kept.
    pub fn on_session_event(&mut self, ev: SessionEvent)
        ensures
            *final(self) == old(self).after_session_event(ev),
    {
        match ev {
            SessionEvent::BufferSize { width, height } => {
                self.buf_width = width;
                self.buf_height = height;
            },
            SessionEvent::ShmFormat { format } => {
                let take = map_format(format).is_some() && match self.shm_format {
                    None => true,
                    Some(kept) => is_preferred_format(format) && !is_preferred_format(kept),
                };
                if take {
                    self.shm_format = Some(format);
                }
            },
            SessionEvent::Done => {
                self.session_done = true;
            },
            SessionEvent::Stopped => {
                self.session_stopped = true;
            },
            SessionEvent::Other => {},
        }
    }

    /// Record a frame event.
    pub fn on_frame_event(&mut self, ev: FrameEvent)
        ensures
            *final(self) == old(self).after_frame_event(ev),
    {
        match ev {
            FrameEvent::Ready => {
                self.frame_state = FrameState::Ready;
            },
            FrameEvent::Failed => {
                self.frame_state = FrameState::Failed;
            },
            FrameEvent::Other => {},
        }
    }

    /// Forget earlier negotiation results before a new session reports its
    /// constraints.
    pub fn reset_negotiation(&mut self)
        ensures
            *final(self) == (SessionState {
                buf_width: 0,
                buf_height: 0,
                shm_format: None,
                session_done: false,
                ..*old(self)
            }),
    {
        self.session_done = false;
        self.buf_width = 0;
        self.buf_height = 0;
        self.shm_format = None;
    }

    /// Mark a new frame capture as in flight.
    pub fn begin_frame(&mut self)
        ensures
            *final(self) == (SessionState { frame_state: FrameState::Pending, ..*old(self) }),
    {
        self.frame_state = FrameState::Pending;
    }

    pub fn negotiation(&self) -> (n: Negotiation)
        ensures
            n == self.spec_negotiation(),
    {
        if self.session_stopped {
            Negotiation::Stopped
        } else if self.session_done {
            Negotiation::Done
        } else {
            Negotiation::InProgress
        }
    }

    pub fn frame_wait(&self) -> (w: FrameWait)
        ensures
            w == self.spec_frame_wait(),
    {
        if self.session_stopped {
            FrameWait::Stopped
        } else {
            match self.frame_state {
                FrameState::Pending => FrameWait::Waiting,
                FrameState::Ready => FrameWait::Ready,
                FrameState::Failed => FrameWait::Failed,
            }
        }
    }

    /// The buffer to allocate for the negotiated session. Only a session
    /// that yields a layout needs its buffer size to fit in `usize`.
    pub fn buffer_layout(&self) -> (res: Result<BufferLayout, CaptureError>)
        requires
            self.spec_buffer_layout() is Ok ==> self.buf_width * 4 * self.buf_height <= usize::MAX,
        ensures
            res == self.spec_buffer_layout(),
    {
        let width = self.buf_width;
        let height = self.buf_height;
        if width == 0 || height == 0 {
            return Err(CaptureError::ZeroBufferSize);
        }
        let code = match self.shm_format {
            None => {
                return Err(CaptureError::NoShmFormat);
            },
            Some(code) => code,
        };
        let format = match map_format(code) {
            None => {
                return Err(CaptureError::UnsupportedFormat { code });
            },
            Some(f) => f,
        };
        assert(width * 4 <= width * 4 * height) by (nonlinear_arith)
            requires
                height >= 1,
        ;
        let stride: usize = width as usize * 4;
        assert(stride * height == width * 4 * height);
        let size: usize = stride * height as usize;
        Ok(BufferLayout { width, height, stride, size, format, format_code: code })
    }
}

/// Whatever events arrive, the negotiated format always has a known byte
/// layout, so a session with a nonzero buffer size and an advertised format
/// always yields a buffer layout.
pub proof fn lemma_negotiated_format_has_layout(s: SessionState, ev: SessionEvent, fev: FrameEvent)
    ensures
        SessionState::initial().format_supported(),
        s.format_supported() ==> s.after_session_event(ev).format_supported(),
        s.format_supported() ==> s.after_frame_event(fev).format_supported(),
        s.format_supported() ==> !(s.spec_buffer_layout() is Err && s.spec_buffer_layout()->Err_0 is UnsupportedFormat),
        s.format_supported() && s.buf_width > 0 && s.buf_height > 0 && s.shm_format is Some
            ==> s.spec_buffer_layout() is Ok,
{
}

/// A preferred format, once kept, stays through every later event; and the
/// first supported format offered is kept until a preferred one comes.
pub proof fn lemma_preferred_format_is_kept(s: SessionState, ev: SessionEvent, offered: u32)
    ensures
        s.shm_format matches Some(k) && preferred_format(k) ==> s.after_session_event(ev).shm_format
            == s.shm_format,
        s.shm_format is None && spec_map_format(offered) is Some ==> s.after_session_event(
            SessionEvent::ShmFormat { format: offered },
        ).shm_format == Some(offered),
        s.shm_format is Some && !preferred_format(offered) ==> s.after_session_event(
            SessionEvent::ShmFormat { format: offered },
        ).shm_format == s.shm_format,
{
}

/// Frame events leave the negotiation results alone, and session events
/// leave the frame in flight alone.
pub proof fn lemma_events_independent(s: SessionState, ev: SessionEvent, fev: FrameEvent)
    ensures
        s.after_frame_event(fev).buf_width == s.buf_width,
        s.after_frame_event(fev).buf_height == s.buf_height,
        s.after_frame_event(fev).shm_format == s.shm_format,
        s.after_frame_event(fev).spec_negotiation() == s.spec_negotiation(),
        s.after_session_event(ev).frame_state == s.frame_state,
{
}

/// Once the session has stopped, no event makes negotiation or a frame
/// capture succeed.
pub proof fn lemma_stopped_is_final(s: SessionState, ev: SessionEvent, fev: FrameEvent)
    requires
        s.session_stopped,
    ensures
        s.after_session_event(ev).spec_negotiation() == Negotiation::Stopped,
        s.after_frame_event(fev).spec_frame_wait() == FrameWait::Stopped,
        s.after_session_event(ev).spec_frame_wait() == FrameWait::Stopped,
{
}

/// A compositor global that the capture binds.
#[derive(Debug, Clone, Copy, PartialEq, Eq, Structural)]
pub enum GlobalKind {
    Shm,
    Output,
    SourceManager,
    CaptureManager,
}

/// Which global to bind, at which version.
#[derive(Debug, Clone, Copy, PartialEq, Eq, Structural)]
pub struct GlobalBinding {
    pub kind: GlobalKind,
    pub version: u32,
}

pub open spec fn capped(version: u32, cap: u32) -> u32 {
    if version < cap {
        version
    } else {
        cap
    }
}

/// The binding for an advertised global, by interface name: `wl_shm` at
/// version at most 1, `wl_output` at most 4, the two capture managers at most 1;
/// no binding for any other interface.
pub open spec fn spec_global_binding(interface: Seq<char>, version: u32) -> Option<GlobalBinding> {
    if interface == "wl_shm"@ {
        Some(GlobalBinding { kind: GlobalKind::Shm, version: capped(version, 1) })
    } else if interface == "wl_output"@ {
        Some(GlobalBinding { kind: GlobalKind::Output, version: capped(version, 4) })
    } else if interface == "ext_output_image_capture_source_manager_v1"@ {
        Some(GlobalBinding { kind: GlobalKind::SourceManager, version: capped(version, 1) })
    } else if interface == "ext_image_copy_capture_manager_v1"@ {
        Some(GlobalBinding { kind: GlobalKind::CaptureManager, version: capped(version, 1) })
    } else {
        None
    }
}

pub fn global_binding(interface: &str, version: u32) -> (b: Option<GlobalBinding>)
    ensures
        b == spec_global_binding(interface@, version),
{
    let name = interface.to_owned();
    if name == "wl_shm".to_owned() {
        Some(GlobalBinding { kind: GlobalKind::Shm, version: if version < 1 { version } else { 1 } })
    } else if name == "wl_output".to_owned() {
        Some(GlobalBinding { kind: GlobalKind::Output, version: if version < 4 { version } else { 4 } })
    } else if name == "ext_output_image_capture_source_manager_v1".to_owned() {
        Some(GlobalBinding { kind: GlobalKind::SourceManager, version: if version < 1 { version } else { 1 } })
    } else if name == "ext_image_copy_capture_manager_v1".to_owned() {
        Some(GlobalBinding { kind: GlobalKind::CaptureManager, version: if version < 1 { version } else { 1 } })
    } else {
        None
    }
}

/// Whether an output advertises the name `want`.
pub open spec fn output_named(name: Option<String>, want: Seq<char>) -> bool {
    name matches Some(n) && n@ == want
}

/// Index of the first output, in discovery order, whose advertised name is `want`.
pub fn find_output(names: &Vec<Option<String>>, want: &str) -> (found: Option<usize>)
    ensures
        found matches Some(i) ==> i < names@.len() && output_named(names@[i as int], want@) && forall|j: int|
            0 <= j < i ==> !output_named(#[trigger] names@[j], want@),
        found is None ==> forall|j: int| 0 <= j < names@.len() ==> !output_named(#[trigger] names@[j], want@),
{
    let w = want.to_owned();
    let mut i: usize = 0;
    while i < names.len()
        invariant
            i <= names@.len(),
            w@ == want@,
            forall|j: int| 0 <= j < i ==> !output_named(#[trigger] names@[j], want@),
        decreases names.len() - i,
    {
        match &names[i] {
            Some(n) => {
                if *n == w {
                    return Some(i);
                }
            },
            None => {},
        }
        i = i + 1;
    }
    None
}

/// A compositor global that the capture cannot do without.
#[derive(Debug, Clone, Copy, PartialEq, Eq, Structural)]
pub enum MissingGlobal {
    /// The compositor has no `wl_shm`.
    Shm,
    /// No `ext_output_image_capture_source_manager_v1`.
    SourceManager,
    /// No `ext_image_copy_capture_manager_v1`.
    CaptureManager,
}

/// The first required global that was not bound, in this order.
pub open spec fn spec_check_globals(has_shm: bool, has_source_manager: bool, has_capture_manager: bool) -> Result<
    (),
    MissingGlobal,
> {
    if !has_shm {
        Err(MissingGlobal::Shm)
    } else if !has_source_manager {
        Err(MissingGlobal::SourceManager)
    } else if !has_capture_manager {
        Err(MissingGlobal::CaptureManager)
    } else {
        Ok(())
    }
}

/// Check that the registry enumeration bound every global the capture needs.
pub fn check_globals(has_shm: bool, has_source_manager: bool, has_capture_manager: bool) -> (r: Result<(), MissingGlobal>)
    ensures
        r == spec_check_globals(has_shm, has_source_manager, has_capture_manager),
{
    if !has_shm {
        Err(MissingGlobal::Shm)
    } else if !has_source_manager {
        Err(MissingGlobal::SourceManager)
    } else if !has_capture_manager {
        Err(MissingGlobal::CaptureManager)
    } else {
        Ok(())
    }
}

/// A bound output, by its protocol object id, with the name it advertised.
#[derive(Debug, Clone)]
pub struct OutputName {
    pub id: u32,
    pub name: Option<String>,
}

/// Record the name that an output advertised: the first output with that id
/// takes it; when no output has that id, nothing changes.
pub fn record_output_name(outputs: &mut Vec<OutputName>, id: u32, name: String)
    ensures
        (exists|k: int| 0 <= k < old(outputs)@.len() && (#[trigger] old(outputs)@[k]).id == id)
            ==> exists|k: int|
            0 <= k < old(outputs)@.len() && (#[trigger] old(outputs)@[k]).id == id
                && (forall|j: int| 0 <= j < k ==> (#[trigger] old(outputs)@[j]).id != id)
                && final(outputs)@ == old(outputs)@.update(k, (OutputName { id, name: Some(name) })),
        !(exists|k: int| 0 <= k < old(outputs)@.len() && (#[trigger] old(outputs)@[k]).id == id)
            ==> final(outputs)@ == old(outputs)@,
{
    let mut i: usize = 0;
    while i < outputs.len()
        invariant
            i <= outputs@.len(),
            outputs@ == old(outputs)@,
            forall|j: int| 0 <= j < i ==> (#[trigger] outputs@[j]).id != id,
        decreases outputs.len() - i,
    {
        if outputs[i].id == id {
            let ghost k = i as int;
            assert(old(outputs)@[k].id == id);
            outputs.set(i, OutputName { id, name: Some(name) });
            return;
        }
        i = i + 1;
    }
}

} // verus!
