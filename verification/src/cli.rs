use vstd::prelude::*;

use crate::control::ControlCommand;

verus! {

/// Command line of the daemon.
#[derive(Debug)]
pub struct Cli {
    pub command: Command,
}

/// The daemon's subcommands; configuration paths are kept as text.
#[derive(Debug)]
pub enum Command {
    /// Run daemon with a configuration file
    Run { config: Option<String> },
    /// Reconfigure a running daemon with a new renderer-native config
    Switch { config: String },
    /// Print environment diagnostics
    Doctor { config: Option<String> },
    /// Print the effective config as TOML
    PrintConfig { config: Option<String> },
    /// Print compositor output names as JSON
    Outputs,
    /// Send control command to a running daemon
    Ctl { action: ControlAction },
    /// Control daemon-managed playlists
    Playlist { action: PlaylistAction },
}

/// `we-layerd ctl` actions.
#[derive(Debug, Clone, Copy, PartialEq, Eq, Structural)]
pub enum ControlAction {
    Stop,
    Pause,
    Resume,
    Reload,
    Status,
}

/// `we-layerd playlist` actions, each optionally restricted to one output.
#[derive(Debug, Clone, PartialEq, Eq)]
pub enum PlaylistAction {
    Play { name: String, output: Option<String> },
    Next { output: Option<String> },
    Previous { output: Option<String> },
    Stop { output: Option<String> },
}

/// A playlist action for the playlist of one output.
#[derive(Debug, Clone, PartialEq, Eq)]
pub enum OutputPlaylistAction {
    Play(String),
    Next,
    Previous,
    Stop,
}

/// A playlist command sent to the daemon.
#[derive(Debug, Clone, PartialEq, Eq)]
pub enum PlaylistCommand {
    Play(String),
    Next,
    Previous,
    Stop,
    Output { output: String, action: OutputPlaylistAction },
}

/// The command `we-layerd ctl` sends; `status` is a query, not a command.
pub open spec fn command_for_action(action: ControlAction) -> Option<ControlCommand> {
    match action {
        ControlAction::Stop => Some(ControlCommand::Stop),
        ControlAction::Pause => Some(ControlCommand::Pause),
        ControlAction::Resume => Some(ControlCommand::Resume),
        ControlAction::Reload => Some(ControlCommand::Reload),
        ControlAction::Status => None,
    }
}

pub fn control_command_for(action: ControlAction) -> (command: Option<ControlCommand>)
    ensures
        command == command_for_action(action),
{
    match action {
        ControlAction::Stop => Some(ControlCommand::Stop),
        ControlAction::Pause => Some(ControlCommand::Pause),
        ControlAction::Resume => Some(ControlCommand::Resume),
        ControlAction::Reload => Some(ControlCommand::Reload),
        ControlAction::Status => None,
    }
}

/// The playlist command for a `we-layerd playlist` action: the global
/// playlist, or the playlist of the named output.
pub open spec fn command_for_playlist_action(action: PlaylistAction) -> PlaylistCommand {
    match action {
        PlaylistAction::Play { name, output } => match output {
            Some(output) => PlaylistCommand::Output { output, action: OutputPlaylistAction::Play(name) },
            None => PlaylistCommand::Play(name),
        },
        PlaylistAction::Next { output } => match output {
            Some(output) => PlaylistCommand::Output { output, action: OutputPlaylistAction::Next },
            None => PlaylistCommand::Next,
        },
        PlaylistAction::Previous { output } => match output {
            Some(output) => PlaylistCommand::Output {
                output,
                action: OutputPlaylistAction::Previous,
            },
            None => PlaylistCommand::Previous,
        },
        PlaylistAction::Stop { output } => match output {
            Some(output) => PlaylistCommand::Output { output, action: OutputPlaylistAction::Stop },
            None => PlaylistCommand::Stop,
        },
    }
}

pub fn playlist_command_for(action: PlaylistAction) -> (command: PlaylistCommand)
    ensures
        command == command_for_playlist_action(action),
{
    match action {
        PlaylistAction::Play { name, output } => match output {
            Some(output) => PlaylistCommand::Output { output, action: OutputPlaylistAction::Play(name) },
            None => PlaylistCommand::Play(name),
        },
        PlaylistAction::Next { output } => match output {
            Some(output) => PlaylistCommand::Output { output, action: OutputPlaylistAction::Next },
            None => PlaylistCommand::Next,
        },
        PlaylistAction::Previous { output } => match output {
            Some(output) => PlaylistCommand::Output {
                output,
                action: OutputPlaylistAction::Previous,
            },
            None => PlaylistCommand::Previous,
        },
        PlaylistAction::Stop { output } => match output {
            Some(output) => PlaylistCommand::Output { output, action: OutputPlaylistAction::Stop },
            None => PlaylistCommand::Stop,
        },
    }
}

/// The output that a playlist action targets, if any.
pub open spec fn action_target(action: PlaylistAction) -> Option<String> {
    match action {
        PlaylistAction::Play { output, .. } => output,
        PlaylistAction::Next { output } => output,
        PlaylistAction::Previous { output } => output,
        PlaylistAction::Stop { output } => output,
    }
}

/// The same action aimed at `output` (or at the global playlist).
pub open spec fn retargeted(action: PlaylistAction, output: Option<String>) -> PlaylistAction {
    match action {
        PlaylistAction::Play { name, .. } => PlaylistAction::Play { name, output },
        PlaylistAction::Next { .. } => PlaylistAction::Next { output },
        PlaylistAction::Previous { .. } => PlaylistAction::Previous { output },
        PlaylistAction::Stop { .. } => PlaylistAction::Stop { output },
    }
}

/// A global playlist command as the action of an output's playlist.
pub open spec fn as_output_action(command: PlaylistCommand) -> Option<OutputPlaylistAction> {
    match command {
        PlaylistCommand::Play(name) => Some(OutputPlaylistAction::Play(name)),
        PlaylistCommand::Next => Some(OutputPlaylistAction::Next),
        PlaylistCommand::Previous => Some(OutputPlaylistAction::Previous),
        PlaylistCommand::Stop => Some(OutputPlaylistAction::Stop),
        PlaylistCommand::Output { .. } => None,
    }
}

/// Different playlist actions send different commands: no two actions
/// (different directions, playlist names or targets) are confused.
pub proof fn lemma_playlist_commands_tell_actions_apart(a: PlaylistAction, b: PlaylistAction)
    ensures
        command_for_playlist_action(a) == command_for_playlist_action(b) ==> a == b,
{
}

/// An action aimed at an output sends, addressed to that output, the very
/// action that the global playlist would get; an action without an output
/// goes to the global playlist.
pub proof fn lemma_playlist_commands_keep_their_target(action: PlaylistAction, output: String)
    ensures
        action_target(action) is None ==> command_for_playlist_action(action) !is Output,
        as_output_action(command_for_playlist_action(retargeted(action, None))) is Some,
        command_for_playlist_action(retargeted(action, Some(output))) == (PlaylistCommand::Output {
            output,
            action: as_output_action(command_for_playlist_action(retargeted(action, None)))->0,
        }),
{
}

/// Different `ctl` actions send different commands.
pub proof fn lemma_control_commands_tell_actions_apart(a: ControlAction, b: ControlAction)
    ensures
        command_for_action(a) is Some && command_for_action(a) == command_for_action(b) ==> a == b,
{
}

} // verus!
