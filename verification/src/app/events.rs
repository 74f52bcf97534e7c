//! Events of the application loop and how the state reacts to them.

use vstd::prelude::*;

use crate::common::error::{player_error_text, PlayerError};
use crate::domain::PlayerSnapshot;
use crate::input::{Action, KeyCombo, Keymap};
use crate::state::{AppState, StateView};
use crate::text::push_str;

verus! {

/// All events the application loop reacts to.
#[derive(Debug)]
pub enum AppEvent {
    /// Periodic redraw tick.
    Tick,
    /// A key press.
    Key(KeyCombo),
    /// The terminal changed size.
    Resize(u16, u16),
    /// Any other terminal input (mouse, paste, focus).
    OtherInput,
    /// Snapshot pushed by the player watcher.
    PlayerSnapshot(PlayerSnapshot),
    /// The player layer reported a failure.
    PlayerError(PlayerError),
    /// The input pump reported a failure.
    InputError(String),
}

/// What the loop does after an event has updated the state.
#[derive(Debug, PartialEq, Eq, Structural)]
pub enum Reaction {
    /// Nothing beyond redrawing.
    Nothing,
    /// Carry out an action.
    Dispatch(Action),
    /// Forget the connected player.
    DropPlayer,
}

/// What the loop does with the player for an action: a call on the
/// connected player, or a new attempt to find and connect to one.
#[derive(Debug, Clone, Copy, PartialEq, Eq, Structural)]
pub enum PlayerCommand {
    /// Look for a player again and connect to it.
    Connect,
    PlayPause,
    Next,
    Previous,
    SetVolume(u8),
    SeekRelative(i64),
}

/// Volume step of the volume keys.
pub const VOLUME_STEP: u8 = 5;

/// Seconds a seek key moves.
pub const SEEK_STEP_SECS: i64 = 5;

/// The banner shown for a player failure.
pub open spec fn player_error_banner(e: PlayerError) -> Seq<char> {
    "player error: "@ + player_error_text(e)
}

/// The banner shown when a player call fails.
pub open spec fn action_failed_banner(e: PlayerError) -> Seq<char> {
    "action failed: "@ + player_error_text(e)
}

/// Update the state for `event` and say what the loop does next: a key
/// bound in `keymap` is dispatched, a snapshot replaces the shown one and
/// clears the banner, a player error is shown and the player is dropped, an
/// input error is shown; nothing else changes the state. No event asks the
/// loop to quit by itself.
pub fn on_event(state: &mut AppState, keymap: &Keymap, event: AppEvent) -> (r: Reaction)
    ensures
        (match event {
            AppEvent::Key(k) => {
                &&& final(state)@ == old(state)@
                &&& r == (if keymap@.contains_key(k) {
                    Reaction::Dispatch(keymap@[k])
                } else {
                    Reaction::Nothing
                })
            },
            AppEvent::PlayerSnapshot(s) => {
                &&& final(state)@ == (StateView {
                    player: s@,
                    status_banner: None,
                    ..old(state)@
                })
                &&& r == Reaction::Nothing
            },
            AppEvent::PlayerError(e) => {
                &&& final(state)@ == (StateView {
                    status_banner: Some(player_error_banner(e)),
                    ..old(state)@
                })
                &&& r == Reaction::DropPlayer
            },
            AppEvent::InputError(m) => {
                &&& final(state)@ == (StateView {
                    status_banner: Some("input error: "@ + m@),
                    ..old(state)@
                })
                &&& r == Reaction::Nothing
            },
            _ => {
                &&& final(state)@ == old(state)@
                &&& r == Reaction::Nothing
            },
        }),
{
    match event {
        AppEvent::Key(k) => match keymap.lookup(k) {
            Some(a) => Reaction::Dispatch(a),
            None => Reaction::Nothing,
        },
        AppEvent::PlayerSnapshot(s) => {
            state.set_player(s);
            state.clear_banner();
            Reaction::Nothing
        },
        AppEvent::PlayerError(e) => {
            let mut banner = String::new();
            push_str(&mut banner, "player error: ");
            let m = e.message();
            push_str(&mut banner, m.as_str());
            state.set_banner(banner);
            Reaction::DropPlayer
        },
        AppEvent::InputError(m) => {
            let mut banner = String::new();
            push_str(&mut banner, "input error: ");
            push_str(&mut banner, m.as_str());
            state.set_banner(banner);
            Reaction::Nothing
        },
        _ => Reaction::Nothing,
    }
}

/// The volume after one step up: five more, at most 100.
pub open spec fn volume_up(v: u8) -> u8 {
    if v + 5 > 100 {
        100
    } else {
        (v + 5) as u8
    }
}

/// The volume after one step down: five less, at least 0.
pub open spec fn volume_down(v: u8) -> u8 {
    if v < 5 {
        0
    } else {
        (v - 5) as u8
    }
}

/// The player call an action needs, given the player's current volume.
pub open spec fn spec_command(action: Action, volume: u8) -> Option<PlayerCommand> {
    match action {
        Action::TogglePlayPause => Some(PlayerCommand::PlayPause),
        Action::Next => Some(PlayerCommand::Next),
        Action::Previous => Some(PlayerCommand::Previous),
        Action::VolumeUp => Some(PlayerCommand::SetVolume(volume_up(volume))),
        Action::VolumeDown => Some(PlayerCommand::SetVolume(volume_down(volume))),
        Action::SeekForward => Some(PlayerCommand::SeekRelative(5i64)),
        Action::SeekBackward => Some(PlayerCommand::SeekRelative(-5i64)),
        Action::Quit | Action::Redraw => None,
    }
}

/// Carry out `action`. `player_volume` is the connected player's current
/// volume, or `None` when no player is connected. Quit and redraw act on
/// the state; a redraw without a player also retries connecting. The other
/// actions become a player call, or a banner when there is no player.
pub fn dispatch(state: &mut AppState, action: Action, player_volume: Option<u8>) -> (r: Option<
    PlayerCommand,
>)
    ensures
        action == Action::Quit ==> r is None && final(state)@ == (StateView {
            should_quit: true,
            ..old(state)@
        }),
        action == Action::Redraw ==> final(state)@ == (StateView {
            status_banner: None,
            ..old(state)@
        }) && r == (if player_volume is None {
            Some(PlayerCommand::Connect)
        } else {
            None
        }),
        action != Action::Quit && action != Action::Redraw ==> (match player_volume {
            None => r is None && final(state)@ == (StateView {
                status_banner: Some("no player connected"@),
                ..old(state)@
            }),
            Some(v) => r == spec_command(action, v) && final(state)@ == old(state)@,
        }),
{
    match action {
        Action::Quit => {
            state.quit();
            None
        },
        Action::Redraw => {
            state.clear_banner();
            if player_volume.is_none() {
                Some(PlayerCommand::Connect)
            } else {
                None
            }
        },
        _ => {
            let volume = match player_volume {
                Some(v) => v,
                None => {
                    state.set_banner(String::from_str("no player connected"));
                    return None;
                },
            };
            match action {
                Action::TogglePlayPause => Some(PlayerCommand::PlayPause),
                Action::Next => Some(PlayerCommand::Next),
                Action::Previous => Some(PlayerCommand::Previous),
                Action::VolumeUp => {
                    let up = if volume > 95 {
                        100
                    } else {
                        volume + 5
                    };
                    Some(PlayerCommand::SetVolume(up))
                },
                Action::VolumeDown => {
                    let down = if volume < 5 {
                        0
                    } else {
                        volume - 5
                    };
                    Some(PlayerCommand::SetVolume(down))
                },
                Action::SeekForward => Some(PlayerCommand::SeekRelative(SEEK_STEP_SECS)),
                Action::SeekBackward => Some(PlayerCommand::SeekRelative(-SEEK_STEP_SECS)),
                _ => None,
            }
        },
    }
}

/// Record the outcome of a player call: a failure is shown in the banner,
/// a success changes nothing.
pub fn report_command_result(state: &mut AppState, result: Result<(), PlayerError>)
    ensures
        (match result {
            Ok(()) => final(state)@ == old(state)@,
            Err(e) => final(state)@ == (StateView {
                status_banner: Some(action_failed_banner(e)),
                ..old(state)@
            }),
        }),
{
    match result {
        Ok(()) => {},
        Err(e) => {
            let mut banner = String::new();
            push_str(&mut banner, "action failed: ");
            let m = e.message();
            push_str(&mut banner, m.as_str());
            state.set_banner(banner);
        },
    }
}

/// Record the outcome of connecting to a player: its first snapshot is
/// shown, or a banner tells what went wrong. Returns whether a player is
/// connected.
pub fn on_connect(state: &mut AppState, result: Result<PlayerSnapshot, PlayerError>) -> (r: bool)
    ensures
        r == result is Ok,
        (match result {
            Ok(s) => final(state)@ == (StateView { player: s@, ..old(state)@ }),
            Err(PlayerError::NoPlayerAvailable) => final(state)@ == (StateView {
                status_banner: Some("No MPRIS player detected \u{2014} start one and press r"@),
                ..old(state)@
            }),
            Err(e) => final(state)@ == (StateView {
                status_banner: Some("MPRIS unavailable: "@ + player_error_text(e)),
                ..old(state)@
            }),
        }),
{
    match result {
        Ok(s) => {
            state.set_player(s);
            true
        },
        Err(PlayerError::NoPlayerAvailable) => {
            state.set_banner(
                String::from_str("No MPRIS player detected \u{2014} start one and press r"),
            );
            false
        },
        Err(e) => {
            let mut banner = String::new();
            push_str(&mut banner, "MPRIS unavailable: ");
            let m = e.message();
            push_str(&mut banner, m.as_str());
            state.set_banner(banner);
            false
        },
    }
}

/// Milliseconds between redraw ticks: one second over the frame rate,
/// with the rate held to 1..=240.
pub fn tick_interval_ms(frame_rate: u16) -> (r: u64)
    ensures
        r == 1000int / (if frame_rate < 1 {
            1int
        } else if frame_rate > 240 {
            240int
        } else {
            frame_rate as int
        }),
{
    let rate: u64 = if frame_rate < 1 {
        1
    } else if frame_rate > 240 {
        240
    } else {
        frame_rate as u64
    };
    1000 / rate
}

/// Volume keys keep the volume within 0..=100 and move it by at most one
/// step.
pub proof fn law_volume_steps_stay_in_range(v: u8)
    requires
        v <= 100,
    ensures
        volume_up(v) <= 100,
        volume_up(v) >= v,
        volume_up(v) - v <= 5,
        volume_down(v) <= v,
        v - volume_down(v) <= 5,
{
}

/// A volume step down undoes a step up, and a step up undoes a step down,
/// away from the ends of the range.
pub proof fn law_volume_steps_undo(v: u8)
    ensures
        v <= 95 ==> volume_down(volume_up(v)) == v,
        5 <= v <= 100 ==> volume_up(volume_down(v)) == v,
{
}

/// With a player at volume `v`, each action asks for the call of the same
/// name and direction: play/pause toggles, next skips forward and previous
/// back; volume up sets five more (at most 100) and volume down five less
/// (at least 0); seek forward and seek backward move by the same number of
/// seconds in opposite directions, forward being the positive one. Quit
/// and redraw make no call.
pub proof fn law_command_matches_action(v: u8)
    ensures
        spec_command(Action::TogglePlayPause, v) == Some(PlayerCommand::PlayPause),
        spec_command(Action::Next, v) == Some(PlayerCommand::Next),
        spec_command(Action::Previous, v) == Some(PlayerCommand::Previous),
        spec_command(Action::VolumeUp, v) matches Some(PlayerCommand::SetVolume(u)) && u <= 100
            && (v <= 95 ==> u == v + 5) && (v >= 95 ==> u == 100),
        spec_command(Action::VolumeDown, v) matches Some(PlayerCommand::SetVolume(d)) && (v >= 5
            ==> d == v - 5) && (v < 5 ==> d == 0),
        spec_command(Action::SeekForward, v) matches Some(PlayerCommand::SeekRelative(f))
            && spec_command(Action::SeekBackward, v) matches Some(PlayerCommand::SeekRelative(b))
            && f > 0 && b == -f,
        spec_command(Action::Quit, v) is None,
        spec_command(Action::Redraw, v) is None,
{
}

/// A step down undoes a step up below the top of the range: volume up then
/// volume down gives back the volume from 0 to 95.
pub proof fn law_volume_down_undoes_up(v: u8)
    requires
        v <= 95,
    ensures
        spec_command(Action::VolumeUp, v) matches Some(PlayerCommand::SetVolume(u))
            && spec_command(Action::VolumeDown, u) == Some(PlayerCommand::SetVolume(v)),
{
}

} // verus!
