use vstd::prelude::*;

use crate::text::str_equals;

verus! {

/// How long the collector waits before looking again while the spectrum is
/// turned off, in milliseconds.
pub const AUDIO_IDLE_WAIT_MS: u64 = 250;

/// How long the collector waits after the capture could not be opened.
pub const AUDIO_OPEN_RETRY_MS: u64 = 2000;

/// How long the collector waits after a read from the capture failed.
pub const AUDIO_READ_RETRY_MS: u64 = 1000;

/// What the capture is opened with: the PulseAudio source, the sample rate
/// and the number of spectrum updates per second.
#[derive(Debug, Clone, PartialEq, Eq)]
pub struct AudioParams {
    pub source: String,
    pub sample_rate: u32,
    pub update_hz: u32,
}

pub open spec fn params_view(params: AudioParams) -> (Seq<char>, u32, u32) {
    (params.source@, params.sample_rate, params.update_hz)
}

/// What the audio collector does next.
#[derive(Debug, Clone, Copy, PartialEq, Eq, Structural)]
pub enum AudioAction {
    /// The spectrum is off: report it off (with a silent spectrum once, right
    /// after it was on) and wait `AUDIO_IDLE_WAIT_MS`.
    Idle { clear_spectrum: bool },
    /// Open the capture with the wanted parameters (closing any other one).
    Open,
    /// Read the next spectrum from the open capture.
    Read,
}

/// The collector's state: the parameters of the open capture, if one is open,
/// and whether the spectrum was on at the last look.
pub struct AudioModel {
    pub open: Option<(Seq<char>, u32, u32)>,
    pub was_enabled: bool,
}

pub open spec fn audio_action(state: AudioModel, enabled: bool, wanted: (Seq<char>, u32, u32)) -> AudioAction {
    if !enabled {
        AudioAction::Idle { clear_spectrum: state.was_enabled }
    } else if state.open == Some(wanted) {
        AudioAction::Read
    } else {
        AudioAction::Open
    }
}

pub open spec fn audio_after_look(state: AudioModel, enabled: bool) -> AudioModel {
    if !enabled {
        AudioModel { open: None, was_enabled: false }
    } else {
        AudioModel { was_enabled: true, ..state }
    }
}

/// The decisions of the audio spectrum collector; the caller opens and reads
/// the PulseAudio capture and reports to the host integrations.
pub struct AudioCollector {
    open: Option<AudioParams>,
    was_enabled: bool,
}

impl View for AudioCollector {
    type V = AudioModel;

    closed spec fn view(&self) -> AudioModel {
        AudioModel {
            open: match self.open {
                Some(params) => Some(params_view(params)),
                None => None,
            },
            was_enabled: self.was_enabled,
        }
    }
}

fn same_params(a: &AudioParams, b: &AudioParams) -> (same: bool)
    ensures
        same == (params_view(*a) == params_view(*b)),
{
    str_equals(a.source.as_str(), b.source.as_str()) && a.sample_rate == b.sample_rate && a.update_hz
        == b.update_hz
}

impl AudioCollector {
    pub fn new() -> (collector: Self)
        ensures
            collector@ == (AudioModel { open: None, was_enabled: false }),
    {
        AudioCollector { open: None, was_enabled: false }
    }

    /// One look at the settings: whether the spectrum is on, and the wanted
    /// capture parameters. Turning the spectrum off closes the capture; a
    /// capture whose source, rate or update rate differ from the wanted ones
    /// is opened again.
    pub fn next_action(&mut self, enabled: bool, wanted: &AudioParams) -> (action: AudioAction)
        ensures
            action == audio_action(old(self)@, enabled, params_view(*wanted)),
            final(self)@ == audio_after_look(old(self)@, enabled),
    {
        if !enabled {
            let clear_spectrum = self.was_enabled;
            self.open = None;
            self.was_enabled = false;
            return AudioAction::Idle { clear_spectrum };
        }
        self.was_enabled = true;
        let current = match &self.open {
            Some(open) => same_params(open, wanted),
            None => false,
        };
        if current {
            AudioAction::Read
        } else {
            AudioAction::Open
        }
    }

    /// The capture was opened with `params`. (When opening fails the state
    /// stays as it was, the error is reported and the collector waits
    /// `AUDIO_OPEN_RETRY_MS`.)
    pub fn opened(&mut self, params: AudioParams)
        ensures
            final(self)@ == (AudioModel { open: Some(params_view(params)), ..old(self)@ }),
    {
        self.open = Some(params);
    }

    /// A read from the capture failed: the capture is dropped, to be opened
    /// again after `AUDIO_READ_RETRY_MS`.
    pub fn read_failed(&mut self)
        ensures
            final(self)@ == (AudioModel { open: None, ..old(self)@ }),
    {
        self.open = None;
    }
}

/// A silent spectrum is reported once when the spectrum is turned off, not on
/// every look while it stays off.
pub proof fn lemma_spectrum_is_cleared_once(state: AudioModel, wanted: (Seq<char>, u32, u32))
    ensures
        audio_action(audio_after_look(state, false), false, wanted) == (AudioAction::Idle { clear_spectrum: false }),
        state.was_enabled ==> audio_action(state, false, wanted) == (AudioAction::Idle { clear_spectrum: true }),
{
}

/// An open capture is read as long as the wanted parameters stay the same;
/// any change of source, rate or update rate opens it again.
pub proof fn lemma_capture_reopens_exactly_on_change(
    params: (Seq<char>, u32, u32),
    wanted: (Seq<char>, u32, u32),
    was_enabled: bool,
)
    ensures
        audio_action(AudioModel { open: Some(params), was_enabled }, true, wanted) == (if params == wanted {
            AudioAction::Read
        } else {
            AudioAction::Open
        }),
{
}

} // verus!
