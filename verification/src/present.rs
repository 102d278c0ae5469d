use vstd::prelude::*;


verus! {

/// DRM fourcc `AB24` (ABGR8888), the bytes "AB24" read little-endian.
pub const DRM_FORMAT_ABGR8888: u32 = 0x3432_4241u32;

/// DRM fourcc `XB24` (XBGR8888).
pub const DRM_FORMAT_XBGR8888: u32 = 0x3432_4258u32;

/// DRM fourcc `AR24` (ARGB8888).
pub const DRM_FORMAT_ARGB8888: u32 = 0x3432_5241u32;

/// DRM fourcc `XR24` (XRGB8888).
pub const DRM_FORMAT_XRGB8888: u32 = 0x3432_5258u32;

/// The format a frame is presented in: alpha formats are shown as their
/// opaque variants, since a wallpaper has nothing behind it.
pub open spec fn opaque_fourcc(fourcc: u32) -> u32 {
    if fourcc == DRM_FORMAT_ABGR8888 {
        DRM_FORMAT_XBGR8888
    } else if fourcc == DRM_FORMAT_ARGB8888 {
        DRM_FORMAT_XRGB8888
    } else {
        fourcc
    }
}

pub fn to_opaque_drm_fourcc(fourcc: u32) -> (presented: u32)
    ensures
        presented == opaque_fourcc(fourcc),
{
    if fourcc == DRM_FORMAT_ABGR8888 {
        DRM_FORMAT_XBGR8888
    } else if fourcc == DRM_FORMAT_ARGB8888 {
        DRM_FORMAT_XRGB8888
    } else {
        fourcc
    }
}

/// Presenting a format as opaque twice changes nothing more.
pub proof fn lemma_opaque_fourcc_idempotent(fourcc: u32)
    ensures
        opaque_fourcc(opaque_fourcc(fourcc)) == opaque_fourcc(fourcc),
{
}

/// How the last frame reached the compositor.
#[derive(Debug, Clone, Copy, PartialEq, Eq, Structural)]
pub enum PresentBackend {
    Dmabuf,
    Shm,
}

impl PresentBackend {
    pub fn as_str(self) -> (name: &'static str)
        ensures
            name@ == (match self {
                PresentBackend::Dmabuf => "dmabuf"@,
                PresentBackend::Shm => "shm"@,
            }),
    {
        match self {
            PresentBackend::Dmabuf => "dmabuf",
            PresentBackend::Shm => "shm",
        }
    }
}

/// `count + by`, held at `u64::MAX`.
pub open spec fn counted(count: u64, by: u64) -> u64 {
    if count + by > u64::MAX {
        u64::MAX
    } else {
        (count + by) as u64
    }
}

/// The frame counters and last-frame facts of one surface, as the status
/// report shows them. Counters saturate instead of wrapping.
#[derive(Debug, Clone, PartialEq, Eq)]
pub struct FrameStats {
    pub acquired: u64,
    pub presented: u64,
    pub skipped_by_backpressure: u64,
    pub no_frame_polls: u64,
    pub released_buffers: u64,
    pub in_flight_count: usize,
    pub last_present_backend: Option<PresentBackend>,
    pub last_frame_width: u32,
    pub last_frame_height: u32,
    pub last_error: Option<String>,
}

impl Default for FrameStats {
    fn default() -> (stats: Self)
        ensures
            stats.acquired == 0 && stats.presented == 0 && stats.skipped_by_backpressure == 0,
            stats.no_frame_polls == 0 && stats.released_buffers == 0 && stats.in_flight_count == 0,
            stats.last_present_backend is None && stats.last_frame_width == 0 && stats.last_frame_height == 0,
            stats.last_error is None,
    {
        FrameStats {
            acquired: 0,
            presented: 0,
            skipped_by_backpressure: 0,
            no_frame_polls: 0,
            released_buffers: 0,
            in_flight_count: 0,
            last_present_backend: None,
            last_frame_width: 0,
            last_frame_height: 0,
            last_error: None,
        }
    }
}

fn add_saturating(count: u64, by: u64) -> (sum: u64)
    ensures
        sum == counted(count, by),
{
    if count > u64::MAX - by {
        u64::MAX
    } else {
        count + by
    }
}

impl FrameStats {
    /// A frame came from the renderer through `backend`, with this size.
    pub fn note_frame_acquired(&mut self, backend: PresentBackend, width: u32, height: u32)
        ensures
            *final(self) == (FrameStats {
                acquired: counted(old(self).acquired, 1),
                last_present_backend: Some(backend),
                last_frame_width: width,
                last_frame_height: height,
                ..*old(self)
            }),
    {
        self.acquired = add_saturating(self.acquired, 1);
        self.last_present_backend = Some(backend);
        self.last_frame_width = width;
        self.last_frame_height = height;
    }

    /// A frame was committed while `in_flight_before` buffers were already
    /// held by the compositor.
    pub fn note_frame_presented(&mut self, in_flight_before: usize)
        requires
            in_flight_before < usize::MAX,
        ensures
            *final(self) == (FrameStats {
                presented: counted(old(self).presented, 1),
                in_flight_count: (in_flight_before + 1) as usize,
                ..*old(self)
            }),
    {
        self.presented = add_saturating(self.presented, 1);
        self.in_flight_count = in_flight_before + 1;
    }

    /// A frame was dropped because the compositor still held every buffer.
    pub fn note_skipped_by_backpressure(&mut self)
        ensures
            *final(self) == (FrameStats {
                skipped_by_backpressure: counted(old(self).skipped_by_backpressure, 1),
                ..*old(self)
            }),
    {
        self.skipped_by_backpressure = add_saturating(self.skipped_by_backpressure, 1);
    }

    /// The renderer had no frame when asked.
    pub fn note_no_frame_poll(&mut self)
        ensures
            *final(self) == (FrameStats { no_frame_polls: counted(old(self).no_frame_polls, 1), ..*old(self) }),
    {
        self.no_frame_polls = add_saturating(self.no_frame_polls, 1);
    }

    /// The compositor gave back `released` buffers and still holds
    /// `in_flight`.
    pub fn note_buffers_released(&mut self, released: u64, in_flight: usize)
        ensures
            *final(self) == (FrameStats {
                released_buffers: counted(old(self).released_buffers, released),
                in_flight_count: in_flight,
                ..*old(self)
            }),
    {
        self.released_buffers = add_saturating(self.released_buffers, released);
        self.in_flight_count = in_flight;
    }

    /// Every buffer held by the compositor was dropped.
    pub fn clear_in_flight(&mut self)
        ensures
            *final(self) == (FrameStats { in_flight_count: 0, ..*old(self) }),
    {
        self.in_flight_count = 0;
    }

    /// Records the last presentation error.
    pub fn note_error(&mut self, error: String)
        ensures
            *final(self) == (FrameStats { last_error: Some(error), ..*old(self) }),
    {
        self.last_error = Some(error);
    }
}

/// The state of a surface that decides whether the next frame may go out.
#[derive(Debug, Clone, Copy, PartialEq, Eq, Structural)]
pub struct FramePacing {
    pub paused: bool,
    pub stopping: bool,
    pub ready_for_next_frame: bool,
    pub callback_pending: bool,
    pub in_flight: usize,
    pub max_in_flight: usize,
}

/// A frame may be presented when the surface runs, the compositor asked for
/// the next frame and no frame callback is outstanding, and fewer buffers than
/// allowed are in flight.
pub open spec fn may_present(pacing: FramePacing) -> bool {
    &&& !pacing.paused
    &&& !pacing.stopping
    &&& pacing.ready_for_next_frame
    &&& !pacing.callback_pending
    &&& pacing.in_flight < pacing.max_in_flight
}

pub fn can_present_next_frame(pacing: &FramePacing) -> (ready: bool)
    ensures
        ready == may_present(*pacing),
{
    !pacing.paused && !pacing.stopping && pacing.ready_for_next_frame && !pacing.callback_pending
        && pacing.in_flight < pacing.max_in_flight
}

/// The longest the event loop sleeps: 100 ms.
pub const MAX_POLL_NANOS: u64 = 100_000_000u64;

/// Milliseconds to wait for events: until the next render tick when a frame
/// may be presented, at most 100; otherwise 100. Times are in nanoseconds of
/// a monotonic clock.
pub open spec fn poll_timeout_millis(now: u64, next_tick_at: u64, pacing: FramePacing) -> int {
    if may_present(pacing) {
        let remaining: int = if next_tick_at >= now {
            next_tick_at - now
        } else {
            0
        };
        let capped: int = if remaining < MAX_POLL_NANOS {
            remaining
        } else {
            MAX_POLL_NANOS as int
        };
        capped / 1_000_000
    } else {
        100
    }
}

pub fn poll_timeout(now: u64, next_tick_at: u64, pacing: &FramePacing) -> (millis: i32)
    ensures
        millis == poll_timeout_millis(now, next_tick_at, *pacing),
        0 <= millis <= 100,
{
    if can_present_next_frame(pacing) {
        let remaining = next_tick_at.saturating_sub(now);
        let capped = if remaining < MAX_POLL_NANOS {
            remaining
        } else {
            MAX_POLL_NANOS
        };
        let millis = capped / 1_000_000;
        return millis as i32;
    }
    100
}

/// Calls `Arc::clone`: another handle to the same shared value, as std
/// documents.
#[verifier::external_body]
fn share<T>(value: &std::sync::Arc<T>) -> (shared: std::sync::Arc<T>)
    ensures
        shared == *value,
{
    std::sync::Arc::clone(value)
}

/// The release flag of a buffer handed to the compositor; the buffer's
/// release event sets it and the presenter reads it.
#[derive(Debug, Clone)]
pub struct BufferState {
    pub released: std::sync::Arc<std::sync::atomic::AtomicBool>,
}

impl BufferState {
    /// A fresh, unset flag: the buffer's state and the presenter's handle to
    /// the same flag.
    pub fn new() -> (made: (BufferState, std::sync::Arc<std::sync::atomic::AtomicBool>))
        ensures
            made.0.released == made.1,
    {
        let released = std::sync::Arc::new(std::sync::atomic::AtomicBool::new(false));
        (BufferState { released: share(&released) }, released)
    }
}

} // verus!
