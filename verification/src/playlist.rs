use vstd::prelude::*;
use vstd::string::StringExecFns;

verus! {

/// Direction of a manual playlist step.
#[derive(Debug, Clone, Copy, PartialEq, Eq, Structural)]
pub enum AdvanceDirection {
    Next,
    Previous,
}

/// The playlist entry that should be on screen.
#[derive(Debug, Clone, PartialEq, Eq)]
pub struct PlaylistSelection {
    pub index: usize,
    pub wallpaper_id: String,
    pub source: String,
}

/// The shuffle seed that follows `seed`: one step of a 64-bit linear
/// congruential generator.
pub open spec fn seed_after(seed: u64) -> u64 {
    ((seed as nat * 6364136223846793005nat + 1442695040888963407nat) % 0x1_0000_0000_0000_0000nat) as u64
}

pub fn next_seed(seed: u64) -> (next: u64)
    ensures
        next == seed_after(seed),
{
    let next = seed.wrapping_mul(6364136223846793005).wrapping_add(1442695040888963407);
    proof {
        let m = (seed as nat * 6364136223846793005nat) % 0x1_0000_0000_0000_0000nat;
        vstd::arithmetic::div_mod::lemma_add_mod_noop(
            (seed as nat * 6364136223846793005nat) as int,
            1442695040888963407int,
            0x1_0000_0000_0000_0000int,
        );
        vstd::arithmetic::div_mod::lemma_small_mod(1442695040888963407nat, 0x1_0000_0000_0000_0000nat);
        vstd::arithmetic::div_mod::lemma_mod_twice(
            (m + 1442695040888963407nat) as int,
            0x1_0000_0000_0000_0000int,
        );
    }
    next
}

/// The clock in nanoseconds since the Unix epoch, cut to 64 bits, or `None`
/// when it reads earlier than the epoch (`SystemTime::now()` and
/// `duration_since(UNIX_EPOCH)`). Nothing is promised of the reading.
#[verifier::external_body]
fn nanos_since_epoch() -> (nanos: Option<u64>) {
    match std::time::SystemTime::now().duration_since(std::time::UNIX_EPOCH) {
        Ok(elapsed) => Some(elapsed.as_nanos() as u64),
        Err(_) => None,
    }
}

/// The shuffle seed taken from a clock reading, with a fixed odd constant
/// when the clock could not be read.
pub fn seed_from_clock(nanos: Option<u64>) -> (seed: u64)
    ensures
        seed == (match nanos {
            Some(n) => n,
            None => 0x9e37_79b9_7f4a_7c15u64,
        }),
{
    match nanos {
        Some(n) => n,
        None => 0x9e37_79b9_7f4a_7c15,
    }
}

/// A fresh shuffle seed from the system clock.
pub fn random_seed() -> (seed: u64) {
    seed_from_clock(nanos_since_epoch())
}

/// The file whose presence makes a playlist selection playable:
/// `project.json` in the selection's source directory.
pub fn selection_manifest_path(selection: &PlaylistSelection) -> (path: String)
    ensures
        path@ == crate::install::joined(selection.source@, "project.json"@),
{
    crate::install::join_path(selection.source.as_str(), "project.json")
}

/// Where the playlist position of a configuration is kept: next to the
/// configuration file, with `.playlist-state.json` appended to its path.
pub fn state_path_for_config(config_path: Option<&str>) -> (state_path: Option<String>)
    ensures
        match config_path {
            Some(path) => state_path matches Some(p) && p@ == path@ + ".playlist-state.json"@,
            None => state_path is None,
        },
{
    match config_path {
        Some(path) => Some(path.to_string().concat(".playlist-state.json")),
        None => None,
    }
}

/// The timer of a playlist entry, in nanoseconds on a monotonic clock.
pub struct TimerModel {
    pub started_at: Option<u64>,
    pub elapsed_before_pause: u64,
    pub paused: bool,
}

pub open spec fn saturating_sum(a: u64, b: u64) -> u64 {
    if a + b > u64::MAX {
        u64::MAX
    } else {
        (a + b) as u64
    }
}

/// Time from `started` to `now`, zero when `now` is not later.
pub open spec fn time_since(now: u64, started: u64) -> u64 {
    if now >= started {
        (now - started) as u64
    } else {
        0
    }
}

impl TimerModel {
    /// A paused timer never runs.
    pub open spec fn wf(self) -> bool {
        self.paused ==> self.started_at is None
    }

    /// Time the current entry has been shown, not counting pauses.
    pub open spec fn elapsed(self, now: u64) -> u64 {
        saturating_sum(
            self.elapsed_before_pause,
            match self.started_at {
                Some(started) => time_since(now, started),
                None => 0,
            },
        )
    }

    pub open spec fn paused_at(self, now: u64) -> TimerModel {
        if self.paused {
            self
        } else {
            TimerModel {
                started_at: None,
                elapsed_before_pause: match self.started_at {
                    Some(started) => saturating_sum(self.elapsed_before_pause, time_since(now, started)),
                    None => self.elapsed_before_pause,
                },
                paused: true,
            }
        }
    }

    /// Resuming starts the clock again only when an entry is on screen and the
    /// playlist has not run out (`may_run`).
    pub open spec fn resumed_at(self, now: u64, may_run: bool) -> TimerModel {
        if !self.paused {
            self
        } else {
            TimerModel {
                started_at: if may_run {
                    Some(now)
                } else {
                    self.started_at
                },
                paused: false,
                ..self
            }
        }
    }

    pub open spec fn reset_at(self, now: u64) -> TimerModel {
        TimerModel {
            started_at: if self.paused {
                None
            } else {
                Some(now)
            },
            elapsed_before_pause: 0,
            paused: self.paused,
        }
    }

    pub open spec fn started_if_idle(self, now: u64) -> TimerModel {
        if self.started_at is None && !self.paused {
            TimerModel { started_at: Some(now), ..self }
        } else {
            self
        }
    }

    pub open spec fn stopped(self) -> TimerModel {
        TimerModel { started_at: None, elapsed_before_pause: 0, ..self }
    }

    pub open spec fn halted(self) -> TimerModel {
        TimerModel { started_at: None, ..self }
    }

    /// The entry has been shown for `duration` and the playlist is not paused.
    pub open spec fn is_due(self, now: u64, duration: u64) -> bool {
        !self.paused && self.elapsed(now) >= duration
    }
}

/// The display timer of a playlist entry: it accumulates the time the entry
/// has been on screen and freezes while the playlist is paused.
pub struct PlaylistTimer {
    started_at: Option<u64>,
    elapsed_before_pause: u64,
    paused: bool,
}

impl View for PlaylistTimer {
    type V = TimerModel;

    closed spec fn view(&self) -> TimerModel {
        TimerModel {
            started_at: self.started_at,
            elapsed_before_pause: self.elapsed_before_pause,
            paused: self.paused,
        }
    }
}

impl PlaylistTimer {
    #[verifier::type_invariant]
    closed spec fn inv(self) -> bool {
        self@.wf()
    }

    pub fn new() -> (timer: Self)
        ensures
            timer@ == (TimerModel { started_at: None, elapsed_before_pause: 0, paused: false }),
    {
        PlaylistTimer { started_at: None, elapsed_before_pause: 0, paused: false }
    }

    pub fn is_paused(&self) -> (paused: bool)
        ensures
            paused == self@.paused,
    {
        self.paused
    }

    pub fn is_running(&self) -> (running: bool)
        ensures
            running == self@.started_at is Some,
    {
        self.started_at.is_some()
    }

    pub fn elapsed(&self, now: u64) -> (elapsed: u64)
        ensures
            elapsed == self@.elapsed(now),
            self@.wf(),
    {
        proof {
            use_type_invariant(self);
        }
        let live = match self.started_at {
            Some(started) => now.saturating_sub(started),
            None => 0,
        };
        self.elapsed_before_pause.saturating_add(live)
    }

    pub fn reset(&mut self, now: u64)
        ensures
            final(self)@ == old(self)@.reset_at(now),
    {
        proof {
            use_type_invariant(&*self);
        }
        self.elapsed_before_pause = 0;
        self.started_at = if self.paused {
            None
        } else {
            Some(now)
        };
    }

    pub fn start_if_idle(&mut self, now: u64)
        ensures
            final(self)@ == old(self)@.started_if_idle(now),
    {
        proof {
            use_type_invariant(&*self);
        }
        if self.started_at.is_none() && !self.paused {
            self.started_at = Some(now);
        }
    }

    pub fn stop(&mut self)
        ensures
            final(self)@ == old(self)@.stopped(),
    {
        proof {
            use_type_invariant(&*self);
        }
        self.started_at = None;
        self.elapsed_before_pause = 0;
    }

    pub fn halt(&mut self)
        ensures
            final(self)@ == old(self)@.halted(),
    {
        proof {
            use_type_invariant(&*self);
        }
        self.started_at = None;
    }

    pub fn pause(&mut self, now: u64)
        ensures
            final(self)@ == old(self)@.paused_at(now),
    {
        proof {
            use_type_invariant(&*self);
        }
        if self.paused {
            return;
        }
        let started = self.started_at;
        self.started_at = None;
        match started {
            Some(started) => {
                self.elapsed_before_pause = self.elapsed_before_pause.saturating_add(
                    now.saturating_sub(started),
                );
            },
            None => {},
        }
        self.paused = true;
    }

    pub fn resume(&mut self, now: u64, may_run: bool)
        ensures
            final(self)@ == old(self)@.resumed_at(now, may_run),
    {
        proof {
            use_type_invariant(&*self);
        }
        if !self.paused {
            return;
        }
        self.paused = false;
        if may_run {
            self.started_at = Some(now);
        }
    }

    pub fn is_due(&self, now: u64, duration: u64) -> (due: bool)
        ensures
            due == self@.is_due(now, duration),
    {
        !self.paused && self.elapsed(now) >= duration
    }
}

/// While the playlist is paused its timer stands still.
pub proof fn lemma_paused_timer_is_frozen(timer: TimerModel, earlier: u64, later: u64)
    requires
        timer.wf(),
        timer.paused,
    ensures
        timer.elapsed(earlier) == timer.elapsed(later),
        !timer.is_due(later, 0),
{
}

/// Pausing and resuming later resumes from the elapsed time of the pause: the
/// time spent paused does not count.
pub proof fn lemma_resume_continues_from_pause(
    timer: TimerModel,
    paused_at: u64,
    resumed_at: u64,
    now: u64,
)
    requires
        timer.wf(),
        !timer.paused,
        timer.started_at matches Some(started) && started <= paused_at,
        paused_at <= resumed_at <= now,
        timer.elapsed(paused_at) + (now - resumed_at) <= u64::MAX,
        timer.elapsed_before_pause + (paused_at - timer.started_at->0) <= u64::MAX,
    ensures
        timer.paused_at(paused_at).resumed_at(resumed_at, true).elapsed(now) == timer.elapsed(
            paused_at,
        ) + (now - resumed_at),
{
}

/// Every timer operation keeps a paused timer stopped.
pub proof fn lemma_timer_operations_keep_wf(timer: TimerModel, now: u64, may_run: bool)
    requires
        timer.wf(),
    ensures
        timer.paused_at(now).wf(),
        timer.resumed_at(now, may_run).wf(),
        timer.reset_at(now).wf(),
        timer.started_if_idle(now).wf(),
        timer.stopped().wf(),
        timer.halted().wf(),
{
}

/// The answer of one cursor step while a playlist advances.
#[derive(Debug, Clone, Copy, PartialEq, Eq, Structural)]
pub enum AdvanceStep {
    /// Show the entry at this index.
    Show(usize),
    /// The cursor ran out in this direction.
    Ended,
    /// The entry cannot be played; the next attempt asks the cursor again.
    Skip,
}

/// The playlist's own progress beside its cursor: whether forward progression
/// has run out, and the display timer.
pub struct ProgressModel {
    pub exhausted: bool,
    pub timer: TimerModel,
}

/// The state that a playlist runtime keeps besides its cursor: the cursor
/// (which entry comes next) is asked by the caller, and its answers are
/// handed in here; this decides what is shown and when the next entry is due.
pub struct PlaylistProgress {
    exhausted: bool,
    timer: PlaylistTimer,
}

impl View for PlaylistProgress {
    type V = ProgressModel;

    closed spec fn view(&self) -> ProgressModel {
        ProgressModel { exhausted: self.exhausted, timer: self.timer@ }
    }
}

/// How many cursor steps one advance may take: one per entry, at least one.
pub open spec fn attempts_for(item_count: usize) -> usize {
    if item_count == 0 {
        1
    } else {
        item_count
    }
}

pub open spec fn step_outcome(direction: AdvanceDirection, index: Option<usize>, playable: bool) -> AdvanceStep {
    match index {
        None => AdvanceStep::Ended,
        Some(i) => if playable {
            AdvanceStep::Show(i)
        } else {
            AdvanceStep::Skip
        },
    }
}

pub open spec fn after_step(
    state: ProgressModel,
    direction: AdvanceDirection,
    index: Option<usize>,
    playable: bool,
    now: u64,
) -> ProgressModel {
    match index {
        None => if direction == AdvanceDirection::Next {
            ProgressModel { exhausted: true, timer: state.timer.halted() }
        } else {
            state
        },
        Some(_) => if playable {
            ProgressModel { exhausted: false, timer: state.timer.reset_at(now) }
        } else {
            state
        },
    }
}

/// The entry on screen has been shown for its duration (entries without a
/// duration are never due); paused and exhausted playlists are never due.
pub open spec fn progress_due(state: ProgressModel, now: u64, duration: Option<u64>) -> bool {
    !state.exhausted && match duration {
        Some(d) => state.timer.is_due(now, d),
        None => false,
    }
}

impl PlaylistProgress {
    pub fn new() -> (progress: Self)
        ensures
            !progress@.exhausted,
            progress@.timer == (TimerModel { started_at: None, elapsed_before_pause: 0, paused: false }),
    {
        PlaylistProgress { exhausted: false, timer: PlaylistTimer::new() }
    }

    pub fn is_exhausted(&self) -> (exhausted: bool)
        ensures
            exhausted == self@.exhausted,
    {
        self.exhausted
    }

    pub fn is_paused(&self) -> (paused: bool)
        ensures
            paused == self@.timer.paused,
    {
        self.timer.is_paused()
    }

    /// Time the current entry has been shown.
    pub fn elapsed(&self, now: u64) -> (elapsed: u64)
        ensures
            elapsed == self@.timer.elapsed(now),
    {
        self.timer.elapsed(now)
    }

    /// Forward progression stops once the cursor has run out; going back is
    /// always possible.
    pub fn may_advance(&self, direction: AdvanceDirection) -> (allowed: bool)
        ensures
            allowed == !(self@.exhausted && direction == AdvanceDirection::Next),
    {
        !(self.exhausted && direction == AdvanceDirection::Next)
    }

    pub fn attempts(item_count: usize) -> (attempts: usize)
        ensures
            attempts == attempts_for(item_count),
    {
        if item_count == 0 {
            1
        } else {
            item_count
        }
    }

    /// Takes the cursor's answer for one step of an advance (`index`, and
    /// whether that entry can be played). A playable entry is shown with a
    /// fresh timer; an unplayable one is skipped; a cursor that runs out
    /// forward exhausts the playlist and stops its timer.
    pub fn cursor_step(&mut self, direction: AdvanceDirection, index: Option<usize>, playable: bool, now: u64) -> (step: AdvanceStep)
        ensures
            step == step_outcome(direction, index, playable),
            final(self)@ == after_step(old(self)@, direction, index, playable, now),
    {
        match index {
            None => {
                if direction == AdvanceDirection::Next {
                    self.exhausted = true;
                    self.timer.halt();
                }
                AdvanceStep::Ended
            },
            Some(i) => if playable {
                self.exhausted = false;
                self.timer.reset(now);
                AdvanceStep::Show(i)
            } else {
                AdvanceStep::Skip
            },
        }
    }

    /// Whether the cursor should be asked for the entry to start with.
    pub fn may_start(&self) -> (allowed: bool)
        ensures
            allowed == !self@.exhausted,
    {
        !self.exhausted
    }

    /// The cursor started on `index`: the timer runs from now unless it
    /// already runs or the playlist is paused.
    pub fn started(&mut self, index: Option<usize>, now: u64) -> (shown: Option<usize>)
        ensures
            shown == index,
            final(self)@ == (match index {
                Some(_) => ProgressModel { timer: old(self)@.timer.started_if_idle(now), ..old(self)@ },
                None => old(self)@,
            }),
    {
        if index.is_some() {
            self.timer.start_if_idle(now);
        }
        index
    }

    /// Whether the next entry is due.
    pub fn is_due(&self, now: u64, duration: Option<u64>) -> (due: bool)
        ensures
            due == progress_due(self@, now, duration),
    {
        if self.exhausted {
            return false;
        }
        match duration {
            Some(d) => self.timer.is_due(now, d),
            None => false,
        }
    }

    /// A new playlist or a new cursor: progression starts over with a fresh
    /// timer.
    pub fn restart(&mut self, now: u64)
        ensures
            final(self)@ == (ProgressModel { exhausted: false, timer: old(self)@.timer.reset_at(now) }),
    {
        self.exhausted = false;
        self.timer.reset(now);
    }

    /// The playlist stops: no progression, no time shown.
    pub fn stop(&mut self)
        ensures
            final(self)@ == (ProgressModel { exhausted: false, timer: old(self)@.timer.stopped() }),
    {
        self.exhausted = false;
        self.timer.stop();
    }

    pub fn pause(&mut self, now: u64)
        ensures
            final(self)@ == (ProgressModel { timer: old(self)@.timer.paused_at(now), ..old(self)@ }),
    {
        self.timer.pause(now);
    }

    /// Resuming restarts the timer only while an entry is on screen and the
    /// playlist has not run out.
    pub fn resume(&mut self, now: u64, has_selection: bool)
        ensures
            final(self)@ == (ProgressModel {
                timer: old(self)@.timer.resumed_at(now, has_selection && !old(self)@.exhausted),
                ..old(self)@
            }),
    {
        let may_run = has_selection && !self.exhausted;
        self.timer.resume(now, may_run);
    }
}

/// Unplayable entries are skipped without ending the playlist or touching its
/// timer; only a cursor that runs out forward ends it.
pub proof fn lemma_unplayable_entries_do_not_end_the_playlist(
    state: ProgressModel,
    direction: AdvanceDirection,
    index: usize,
    now: u64,
)
    ensures
        step_outcome(direction, Some(index), false) == AdvanceStep::Skip,
        after_step(state, direction, Some(index), false, now) == state,
        after_step(state, AdvanceDirection::Previous, None, false, now) == state,
{
}

/// Once the cursor runs out forward, the playlist is exhausted: its timer is
/// stopped and it is never due, whatever the time and the entry's duration,
/// until an entry is shown again.
pub proof fn lemma_exhausted_playlists_stay_put(
    state: ProgressModel,
    playable: bool,
    now: u64,
    later: u64,
    duration: Option<u64>,
)
    ensures
        after_step(state, AdvanceDirection::Next, None, playable, now).exhausted,
        after_step(state, AdvanceDirection::Next, None, playable, now).timer.started_at is None,
        !progress_due(after_step(state, AdvanceDirection::Next, None, playable, now), later, duration),
{
}

/// Showing a playable entry, in either direction, ends any exhaustion: the
/// playlist may advance forward again, the entry's time starts from zero,
/// and (unless the playlist is paused) the entry becomes due exactly once
/// its duration has passed.
pub proof fn lemma_showing_an_entry_resumes_progression(
    state: ProgressModel,
    direction: AdvanceDirection,
    index: usize,
    now: u64,
    later: u64,
    duration: u64,
)
    ensures
        step_outcome(direction, Some(index), true) == AdvanceStep::Show(index),
        !after_step(state, direction, Some(index), true, now).exhausted,
        after_step(state, direction, Some(index), true, now).timer.elapsed(now) == 0,
        after_step(state, direction, Some(index), true, now).timer.paused == state.timer.paused,
        !state.timer.paused && now <= later ==> (progress_due(
            after_step(state, direction, Some(index), true, now),
            later,
            Some(duration),
        ) <==> later - now >= duration),
{
}

} // verus!
