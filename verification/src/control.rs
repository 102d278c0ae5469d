use vstd::prelude::*;
use vstd::string::StringExecFns;

use crate::backend::backend_config_name;
use crate::statuses::{has_status, status_of, status_sections, statuses_ascending, OutputStatuses};
use crate::text::{decimal, decimal_text, is_blank, text_is_blank};

verus! {

/// Lifecycle phase of the wallpaper runtime, as reported in status output.
#[derive(Debug, Clone, Copy, PartialEq, Eq)]
pub enum RuntimePhase {
    Idle,
    Starting,
    Running,
    Paused,
    Stopping,
    Failed,
}

/// The status name of each phase.
pub open spec fn phase_name(phase: RuntimePhase) -> Seq<char> {
    match phase {
        RuntimePhase::Idle => "idle"@,
        RuntimePhase::Starting => "starting"@,
        RuntimePhase::Running => "running"@,
        RuntimePhase::Paused => "paused"@,
        RuntimePhase::Stopping => "stopping"@,
        RuntimePhase::Failed => "failed"@,
    }
}

/// Different phases are shown under different names.
pub proof fn lemma_phase_names_differ(a: RuntimePhase, b: RuntimePhase)
    ensures
        a != b ==> phase_name(a) != phase_name(b),
{
    reveal_strlit("idle");
    reveal_strlit("starting");
    reveal_strlit("running");
    reveal_strlit("paused");
    reveal_strlit("stopping");
    reveal_strlit("failed");
    if a != b {
        assert(phase_name(a)[0] != phase_name(b)[0] || phase_name(a)[2] != phase_name(b)[2]);
    }
}

impl RuntimePhase {
    pub fn as_str(self) -> (name: &'static str)
        ensures
            name@ == phase_name(self),
    {
        match self {
            RuntimePhase::Idle => "idle",
            RuntimePhase::Starting => "starting",
            RuntimePhase::Running => "running",
            RuntimePhase::Paused => "paused",
            RuntimePhase::Stopping => "stopping",
            RuntimePhase::Failed => "failed",
        }
    }
}

/// Pause and stop flags of one renderer session.
pub struct ControlModel {
    pub paused: bool,
    pub stopping: bool,
}

impl ControlModel {
    pub open spec fn paused(self) -> ControlModel {
        ControlModel { paused: true, ..self }
    }

    pub open spec fn resumed(self) -> ControlModel {
        ControlModel { paused: false, ..self }
    }

    /// Stopping also pauses.
    pub open spec fn stopped(self) -> ControlModel {
        ControlModel { paused: true, stopping: true }
    }
}

#[derive(Debug, Clone)]
pub struct RuntimeControl {
    paused: bool,
    stopping: bool,
}

impl View for RuntimeControl {
    type V = ControlModel;

    closed spec fn view(&self) -> ControlModel {
        ControlModel { paused: self.paused, stopping: self.stopping }
    }
}

impl RuntimeControl {
    pub fn new() -> (control: Self)
        ensures
            control@ == (ControlModel { paused: false, stopping: false }),
    {
        RuntimeControl { paused: false, stopping: false }
    }

    pub fn pause(&mut self)
        ensures
            final(self)@ == old(self)@.paused(),
    {
        self.paused = true;
    }

    pub fn resume(&mut self)
        ensures
            final(self)@ == old(self)@.resumed(),
    {
        self.paused = false;
    }

    pub fn stop(&mut self)
        ensures
            final(self)@ == old(self)@.stopped(),
    {
        self.stopping = true;
        self.paused = true;
    }

    pub fn paused(&self) -> (paused: bool)
        ensures
            paused == self@.paused,
    {
        self.paused
    }

    pub fn stopping(&self) -> (stopping: bool)
        ensures
            stopping == self@.stopping,
    {
        self.stopping
    }
}

impl Default for RuntimeControl {
    fn default() -> (control: Self)
        ensures
            control@ == (ControlModel { paused: false, stopping: false }),
    {
        RuntimeControl::new()
    }
}

/// A stopped session is paused, and no later pause or resume takes the stop
/// back.
pub proof fn lemma_stop_is_final(control: ControlModel)
    ensures
        control.stopped().paused,
        control.stopped().stopping,
        control.stopped().resumed().stopping,
        control.stopped().paused().stopping,
        control.stopped().stopped() == control.stopped(),
{
}

} // verus!

verus! {

/// A command for the running wallpaper runtime.
#[derive(Debug, Clone, Copy, PartialEq, Eq, Structural)]
pub enum ControlCommand {
    Stop,
    Pause,
    Resume,
    Reload,
    Reconfigure,
}

pub open spec fn command_name(command: ControlCommand) -> Seq<char> {
    match command {
        ControlCommand::Stop => "stop"@,
        ControlCommand::Pause => "pause"@,
        ControlCommand::Resume => "resume"@,
        ControlCommand::Reload => "reload"@,
        ControlCommand::Reconfigure => "reconfigure"@,
    }
}

/// Different commands are shown under different names.
pub proof fn lemma_command_names_differ(a: ControlCommand, b: ControlCommand)
    ensures
        a != b ==> command_name(a) != command_name(b),
{
    reveal_strlit("stop");
    reveal_strlit("pause");
    reveal_strlit("resume");
    reveal_strlit("reload");
    reveal_strlit("reconfigure");
    if a != b {
        assert(command_name(a)[0] != command_name(b)[0] || command_name(a)[2] != command_name(b)[2]);
    }
}

impl ControlCommand {
    pub fn as_str(self) -> (name: &'static str)
        ensures
            name@ == command_name(self),
    {
        match self {
            ControlCommand::Stop => "stop",
            ControlCommand::Pause => "pause",
            ControlCommand::Resume => "resume",
            ControlCommand::Reload => "reload",
            ControlCommand::Reconfigure => "reconfigure",
        }
    }
}

/// Why a runtime loop returned.
#[derive(Debug, Clone, Copy, PartialEq, Eq, Structural)]
pub enum RuntimeLoopExit {
    Stop,
    RestartCurrent,
    Reconfigure,
}

/// What the renderer loop makes of a control command: the loop exit it asks
/// for, and whether the renderer is paused afterwards. Stopping ends the loop,
/// reloading restarts the current wallpaper, reconfiguring applies a new
/// configuration; pausing and resuming only change the pause flag (the
/// caller pauses, resumes or stops the renderer sessions).
pub open spec fn renderer_control(command: ControlCommand, paused: bool) -> (Option<RuntimeLoopExit>, bool) {
    match command {
        ControlCommand::Stop => (Some(RuntimeLoopExit::Stop), paused),
        ControlCommand::Pause => (None, true),
        ControlCommand::Resume => (None, false),
        ControlCommand::Reload => (Some(RuntimeLoopExit::RestartCurrent), paused),
        ControlCommand::Reconfigure => (Some(RuntimeLoopExit::Reconfigure), paused),
    }
}

pub fn renderer_control_outcome(command: ControlCommand, paused: bool) -> (outcome: (Option<RuntimeLoopExit>, bool))
    ensures
        outcome == renderer_control(command, paused),
{
    match command {
        ControlCommand::Stop => (Some(RuntimeLoopExit::Stop), paused),
        ControlCommand::Pause => (None, true),
        ControlCommand::Resume => (None, false),
        ControlCommand::Reload => (Some(RuntimeLoopExit::RestartCurrent), paused),
        ControlCommand::Reconfigure => (Some(RuntimeLoopExit::Reconfigure), paused),
    }
}

/// Why a runtime refused to start.
#[derive(Debug, Clone, Copy, PartialEq, Eq, Structural)]
pub enum RuntimeStartError {
    /// No wallpaper source is configured and no output binding supplies one.
    MissingSource,
}

impl RuntimeStartError {
    pub fn message(&self) -> (message: &'static str)
        ensures
            message@ == "renderer.source is required when no per-output bindings are configured"@,
    {
        "renderer.source is required when no per-output bindings are configured"
    }
}

/// A runtime needs a wallpaper source (one that is not blank) unless the
/// layer-shell backend runs per-output bindings, which bring their own.
pub fn check_renderer_source(source: &str, backend: crate::backend::BackendKind, has_output_bindings: bool) -> (checked: Result<(), RuntimeStartError>)
    ensures
        checked == (if is_blank(source@) && !(backend == crate::backend::BackendKind::LayerShell
            && has_output_bindings) {
            Err(RuntimeStartError::MissingSource)
        } else {
            Ok(())
        }),
{
    let per_output = match backend {
        crate::backend::BackendKind::LayerShell => has_output_bindings,
        crate::backend::BackendKind::Gnome => false,
    };
    if text_is_blank(source) && !per_output {
        Err(RuntimeStartError::MissingSource)
    } else {
        Ok(())
    }
}

/// The phase a control command puts the runtime in when the control server
/// handles it itself: pausing and resuming are forwarded to the runtime and
/// shown at once; every other command is left to the runtime loop.
pub open spec fn handled_phase(command: ControlCommand) -> Option<RuntimePhase> {
    match command {
        ControlCommand::Pause => Some(RuntimePhase::Paused),
        ControlCommand::Resume => Some(RuntimePhase::Running),
        _ => None,
    }
}

pub fn control_command_phase(command: ControlCommand) -> (phase: Option<RuntimePhase>)
    ensures
        phase == handled_phase(command),
{
    match command {
        ControlCommand::Pause => Some(RuntimePhase::Paused),
        ControlCommand::Resume => Some(RuntimePhase::Running),
        ControlCommand::Reload => None,
        ControlCommand::Stop => None,
        ControlCommand::Reconfigure => None,
    }
}

/// The lifecycle of the runtime as the status output shows it.
pub struct LifecycleModel {
    pub backend: crate::backend::BackendKind,
    pub phase: RuntimePhase,
    pub generation: u64,
    pub source: Seq<char>,
    pub error: Option<Seq<char>>,
    /// The status tables of the running outputs, in output-name order.
    pub statuses: Seq<(Seq<char>, Seq<char>, Seq<char>)>,
}

impl LifecycleModel {
    /// A new session starts: a new generation, the configured backend and
    /// source, no error, and no output status yet.
    pub open spec fn session_begun(
        self,
        backend: crate::backend::BackendKind,
        source: Seq<char>,
    ) -> LifecycleModel {
        LifecycleModel {
            backend,
            phase: RuntimePhase::Starting,
            generation: if self.generation == u64::MAX {
                u64::MAX
            } else {
                (self.generation + 1) as u64
            },
            source,
            error: None,
            statuses: Seq::empty(),
        }
    }

    pub open spec fn switch_begun(
        self,
        backend: crate::backend::BackendKind,
        source: Seq<char>,
    ) -> LifecycleModel {
        LifecycleModel {
            backend,
            phase: RuntimePhase::Starting,
            source,
            error: None,
            statuses: Seq::empty(),
            ..self
        }
    }

    /// A report about session `generation`; reports of other sessions are
    /// ignored.
    pub open spec fn reported(
        self,
        generation: u64,
        phase: RuntimePhase,
        error: Option<Seq<char>>,
    ) -> LifecycleModel {
        if generation == self.generation {
            LifecycleModel { phase, error, ..self }
        } else {
            self
        }
    }
}

/// Lifecycle of the runtime: backend, phase, the generation of the current
/// session, its wallpaper source and its error, if any, and the status of
/// each output it runs on.
#[derive(Debug)]
pub struct RuntimeState {
    backend: crate::backend::BackendKind,
    phase: RuntimePhase,
    generation: u64,
    source: String,
    error: Option<String>,
    statuses: OutputStatuses,
}

impl View for RuntimeState {
    type V = LifecycleModel;

    closed spec fn view(&self) -> LifecycleModel {
        LifecycleModel {
            backend: self.backend,
            phase: self.phase,
            generation: self.generation,
            source: self.source@,
            error: match self.error {
                Some(e) => Some(e@),
                None => None,
            },
            statuses: self.statuses@,
        }
    }
}

impl RuntimeState {
    pub fn new(backend: crate::backend::BackendKind, source: String) -> (state: Self)
        ensures
            state@ == (LifecycleModel {
                backend,
                phase: RuntimePhase::Idle,
                generation: 0,
                source: source@,
                error: None,
                statuses: Seq::empty(),
            }),
    {
        RuntimeState {
            backend,
            phase: RuntimePhase::Idle,
            generation: 0,
            source,
            error: None,
            statuses: OutputStatuses::new(),
        }
    }

    pub fn backend(&self) -> (backend: crate::backend::BackendKind)
        ensures
            backend == self@.backend,
    {
        self.backend
    }

    pub fn phase(&self) -> (phase: RuntimePhase)
        ensures
            phase == self@.phase,
    {
        self.phase
    }

    pub fn generation(&self) -> (generation: u64)
        ensures
            generation == self@.generation,
    {
        self.generation
    }

    pub fn source(&self) -> (source: &str)
        ensures
            source@ == self@.source,
    {
        self.source.as_str()
    }

    pub fn error(&self) -> (error: Option<&str>)
        ensures
            match error {
                Some(e) => self@.error == Some(e@),
                None => self@.error is None,
            },
    {
        match &self.error {
            Some(e) => Some(e.as_str()),
            None => None,
        }
    }

    /// Starts a new session and returns its generation.
    pub fn begin_session(&mut self, backend: crate::backend::BackendKind, source: String) -> (generation: u64)
        ensures
            final(self)@ == old(self)@.session_begun(backend, source@),
            generation == final(self)@.generation,
    {
        self.generation = self.generation.saturating_add(1);
        self.backend = backend;
        self.phase = RuntimePhase::Starting;
        self.source = source;
        self.error = None;
        self.statuses.clear();
        self.generation
    }

    /// A new configuration was scheduled for the running session.
    pub fn begin_switch(&mut self, backend: crate::backend::BackendKind, source: String)
        ensures
            final(self)@ == old(self)@.switch_begun(backend, source@),
    {
        self.backend = backend;
        self.phase = RuntimePhase::Starting;
        self.source = source;
        self.error = None;
        self.statuses.clear();
    }

    /// Records the status tables that `output` reported (its table as shown
    /// alone, and as shown among several outputs), replacing its earlier
    /// ones; with `None`, the output is gone and its status is forgotten.
    pub fn update_runtime_status(&mut self, output: String, tables: Option<(String, String)>)
        ensures
            final(self)@ == (LifecycleModel { statuses: final(self)@.statuses, ..old(self)@ }),
            statuses_ascending(final(self)@.statuses),
            forall|n: Seq<char>| #[trigger] has_status(final(self)@.statuses, n) <==> (if n == output@ {
                tables is Some
            } else {
                has_status(old(self)@.statuses, n)
            }),
            tables matches Some(t) ==> status_of(final(self)@.statuses, output@) == (t.0@, t.1@),
            forall|n: Seq<char>| n != output@ && has_status(old(self)@.statuses, n) ==> #[trigger] status_of(
                final(self)@.statuses,
                n,
            ) == status_of(old(self)@.statuses, n),
    {
        self.statuses.update(output, tables);
    }

    pub fn mark_running(&mut self, generation: u64)
        ensures
            final(self)@ == old(self)@.reported(generation, RuntimePhase::Running, None),
    {
        if generation == self.generation {
            self.phase = RuntimePhase::Running;
            self.error = None;
        }
    }

    pub fn mark_paused(&mut self)
        ensures
            final(self)@ == (LifecycleModel { phase: RuntimePhase::Paused, ..old(self)@ }),
    {
        self.phase = RuntimePhase::Paused;
    }

    pub fn mark_resumed(&mut self)
        ensures
            final(self)@ == (LifecycleModel { phase: RuntimePhase::Running, ..old(self)@ }),
    {
        self.phase = RuntimePhase::Running;
    }

    pub fn mark_stopping(&mut self, generation: u64)
        ensures
            final(self)@ == old(self)@.reported(generation, RuntimePhase::Stopping, old(self)@.error),
    {
        if generation == self.generation {
            self.phase = RuntimePhase::Stopping;
        }
    }

    pub fn mark_idle(&mut self, generation: u64)
        ensures
            final(self)@ == old(self)@.reported(generation, RuntimePhase::Idle, None),
    {
        if generation == self.generation {
            self.phase = RuntimePhase::Idle;
            self.error = None;
        }
    }

    pub fn fail(&mut self, generation: u64, error: String)
        ensures
            final(self)@ == old(self)@.reported(generation, RuntimePhase::Failed, Some(error@)),
    {
        if generation == self.generation {
            self.phase = RuntimePhase::Failed;
            self.error = Some(error);
        }
    }
}

/// Names what std's `Debug` formatting writes for a string (the text in
/// double quotes, with quotes, backslashes and control characters escaped).
pub uninterp spec fn debug_quoted(text: Seq<char>) -> Seq<char>;

/// Calls `format!("{:?}", text)`, std's `Debug` for `str`; its result is
/// named, not stated.
#[verifier::external_body]
pub(crate) fn debug_quote(text: &str) -> (quoted: String)
    ensures
        quoted@ == debug_quoted(text@),
{
    format!("{:?}", text)
}

/// The `[orchestrator]` status table, given the quoted source and error
/// texts: backend, phase, that outputs run separately, generation, source,
/// and the error when there is one, one entry per line.
pub open spec fn orchestrator_table(
    state: LifecycleModel,
    quoted_source: Seq<char>,
    quoted_error: Option<Seq<char>>,
) -> Seq<char> {
    "[orchestrator]\nbackend = \""@ + backend_config_name(state.backend) + "\"\nphase = \""@
        + phase_name(state.phase) + "\"\nmulti_output = true\ngeneration = "@ + decimal(state.generation as nat)
        + "\nsource = "@ + quoted_source + match quoted_error {
        Some(e) => "\nerror = "@ + e,
        None => Seq::empty(),
    }
}

impl RuntimeState {
    /// The `[orchestrator]` status table, with the source and error already
    /// quoted by the caller.
    pub fn render_orchestrator_table(&self, quoted_source: &str, quoted_error: Option<&str>) -> (table: String)
        ensures
            table@ == orchestrator_table(self@, quoted_source@, match quoted_error {
                Some(e) => Some(e@),
                None => None,
            }),
    {
        let text = "[orchestrator]\nbackend = \"".to_string().concat(self.backend.as_config_str()).concat(
            "\"\nphase = \"",
        ).concat(self.phase.as_str()).concat("\"\nmulti_output = true\ngeneration = ").concat(
            decimal_text(self.generation).as_str(),
        ).concat("\nsource = ").concat(quoted_source);
        match quoted_error {
            Some(e) => text.concat("\nerror = ").concat(e),
            None => {
                assert(text@ =~= text@ + Seq::<char>::empty());
                text
            },
        }
    }

    /// The status text: the `[orchestrator]` table, with the source and the
    /// error written as std's `Debug` writes strings, then the status tables
    /// of the outputs.
    pub fn render_status_toml(&self) -> (text: String)
        ensures
            text@ == orchestrator_table(self@, debug_quoted(self@.source), match self@.error {
                Some(e) => Some(debug_quoted(e)),
                None => None,
            }) + status_sections(self@.statuses),
    {
        let quoted_source = debug_quote(self.source.as_str());
        let table = match &self.error {
            Some(error) => {
                let quoted_error = debug_quote(error.as_str());
                self.render_orchestrator_table(quoted_source.as_str(), Some(quoted_error.as_str()))
            },
            None => self.render_orchestrator_table(quoted_source.as_str(), None),
        };
        let sections = self.statuses.render();
        table.concat(sections.as_str())
    }
}

/// Once a new session has begun, a late report from the session before it
/// changes nothing (until the generation counter is exhausted).
pub proof fn lemma_stale_reports_are_ignored(
    state: LifecycleModel,
    backend: crate::backend::BackendKind,
    source: Seq<char>,
    phase: RuntimePhase,
    error: Option<Seq<char>>,
)
    requires
        state.generation < u64::MAX,
    ensures
        state.session_begun(backend, source).reported(state.generation, phase, error)
            == state.session_begun(backend, source),
{
}

/// Calls `std::sync::mpsc::Sender::send` with `command` on the sender's
/// channel, and records `command` in the sender's log of what was handed
/// to the channel. Whether the command is delivered depends on whether the
/// receiver is still alive, so nothing is stated of the result.
#[verifier::external_body]
fn send_control(
    sender: &mut ControlSender,
    command: ControlCommand,
) -> (sent: Result<(), std::sync::mpsc::SendError<ControlCommand>>)
    ensures
        final(sender).sent() == old(sender).sent().push(command),
{
    sender.tx.send(command)
}

#[verifier::external_type_specification]
#[verifier::external_body]
#[verifier::reject_recursive_types(T)]
pub struct ExSender<T>(std::sync::mpsc::Sender<T>);

#[verifier::external_type_specification]
#[verifier::external_body]
#[verifier::reject_recursive_types(T)]
pub struct ExSendError<T>(std::sync::mpsc::SendError<T>);

/// The sending end of the control channel to the runtime. Its log holds
/// every command given to `Sender::send` on it, in order, delivered or not;
/// only the channel's send call adds to it.
pub struct ControlSender {
    tx: std::sync::mpsc::Sender<ControlCommand>,
    sent: Ghost<Seq<ControlCommand>>,
}

impl ControlSender {
    /// The commands handed to the channel so far, oldest first.
    pub closed spec fn sent(&self) -> Seq<ControlCommand> {
        self.sent@
    }

    pub fn new(tx: std::sync::mpsc::Sender<ControlCommand>) -> (sender: Self)
        ensures
            sender.sent() == Seq::<ControlCommand>::empty(),
    {
        ControlSender { tx, sent: Ghost(Seq::empty()) }
    }

    /// Hands `command` to the runtime; the error comes back when the runtime
    /// has gone away.
    pub fn send(&mut self, command: ControlCommand) -> (result: Result<(), std::sync::mpsc::SendError<ControlCommand>>)
        ensures
            final(self).sent() == old(self).sent().push(command),
    {
        send_control(self, command)
    }
}

/// A pause or resume command could not be handed to the runtime, whose
/// end of the control channel has gone away.
#[derive(Debug, Clone, Copy, PartialEq, Eq, Structural)]
pub struct ControlForwardError {
    pub command: ControlCommand,
}

impl ControlForwardError {
    pub fn message(&self) -> (message: String)
        ensures
            message@ == "failed to forward "@ + command_name(self.command) + " command to runtime"@,
    {
        "failed to forward ".to_string().concat(self.command.as_str()).concat(" command to runtime")
    }
}

/// The control server's share of a control command: pausing and resuming are
/// forwarded to the runtime and shown in the status at once (when the runtime
/// cannot be reached an error naming the command comes back and the status
/// stays as it was);
/// every other command is left to the runtime loop, nothing is sent and it is
/// reported as not handled.
pub fn handle_runtime_control_command(
    command: ControlCommand,
    control_tx: &mut ControlSender,
    state: &mut RuntimeState,
) -> (handled: Result<bool, ControlForwardError>)
    ensures
        match handled_phase(command) {
            None => handled == Ok::<bool, ControlForwardError>(false)
                && final(state)@ == old(state)@ && final(control_tx).sent() == old(control_tx).sent(),
            Some(phase) => final(control_tx).sent() == old(control_tx).sent().push(command) && match handled {
                Ok(forwarded) => forwarded && final(state)@ == (LifecycleModel { phase, ..old(state)@ }),
                Err(e) => e == ControlForwardError { command } && final(state)@ == old(state)@,
            },
        },
{
    match control_command_phase(command) {
        Some(phase) => {
            match control_tx.send(command) {
                Ok(()) => {},
                Err(_) => return Err(ControlForwardError { command }),
            }
            match phase {
                RuntimePhase::Paused => state.mark_paused(),
                _ => state.mark_resumed(),
            }
            Ok(true)
        },
        None => Ok(false),
    }
}

/// The answer to a shutdown request once the shutdown flag has been read and
/// set (`already_requested` is its value before): a repeated request sends
/// nothing and answers `Ok(false)`; the first sends one `Stop` command and
/// answers `Ok(true)` when it was delivered, or the send error.
pub fn answer_shutdown_request(
    already_requested: bool,
    control_tx: &mut ControlSender,
) -> (requested: Result<bool, std::sync::mpsc::SendError<ControlCommand>>)
    ensures
        already_requested ==> requested == Ok::<bool, std::sync::mpsc::SendError<ControlCommand>>(false)
            && final(control_tx).sent() == old(control_tx).sent(),
        !already_requested ==> requested != Ok::<bool, std::sync::mpsc::SendError<ControlCommand>>(false)
            && final(control_tx).sent() == old(control_tx).sent().push(ControlCommand::Stop),
{
    if already_requested {
        return Ok(false);
    }
    match control_tx.send(ControlCommand::Stop) {
        Ok(()) => Ok(true),
        Err(error) => Err(error),
    }
}

/// Asks the runtime to stop once: the first request sends one `Stop` command
/// and returns whether it was delivered; later requests send nothing and
/// return `Ok(false)`. Which request is the first is decided by the shared
/// flag, whose value is not modelled.
pub fn request_runtime_shutdown(
    control_tx: &mut ControlSender,
    shutdown_requested: &std::sync::atomic::AtomicBool,
) -> (requested: Result<bool, std::sync::mpsc::SendError<ControlCommand>>)
    ensures
        final(control_tx).sent() == old(control_tx).sent() || final(control_tx).sent() == old(
            control_tx,
        ).sent().push(ControlCommand::Stop),
        requested == Ok::<bool, std::sync::mpsc::SendError<ControlCommand>>(false) <==> final(control_tx).sent()
            == old(control_tx).sent(),
{
    let already_requested = shutdown_requested.swap(true, std::sync::atomic::Ordering::SeqCst);
    let ghost before = control_tx.sent();
    let requested = answer_shutdown_request(already_requested, control_tx);
    assert(control_tx.sent() == before || control_tx.sent().len() == before.len() + 1);
    requested
}

} // verus!
