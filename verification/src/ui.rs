//! UI-side shared state and window placement arithmetic.  Creating,
//! moving and hiding the actual windows is the shell's business.

use vstd::prelude::*;

use crate::num::tdiv;

verus! {

/// The cross-thread UI state: whether the indicator is visible, and the
/// session counter that every terminal action resets.
pub struct UiState {
    pub window_visible: bool,
    pub wave_window_count: u32,
}

impl UiState {
    pub fn new() -> (s: UiState)
        ensures
            !s.window_visible,
            s.wave_window_count == 0,
    {
        UiState { window_visible: false, wave_window_count: 0 }
    }
}

/// Track whether the indicator window is visible.
pub fn set_window_visible(state: &mut UiState, visible: bool)
    ensures
        final(state).window_visible == visible,
        final(state).wave_window_count == old(state).wave_window_count,
{
    state.window_visible = visible;
}

/// Reset the session counter so the next hotkey press starts clean;
/// every terminal action runs this unconditionally.
pub fn reset_wave_window_counter_internal(state: &mut UiState)
    ensures
        final(state).wave_window_count == 0,
        final(state).window_visible == old(state).window_visible,
{
    state.wave_window_count = 0;
}

/// What the hotkey toggle does, from the current visibility and
/// recording state.
#[derive(Clone, Copy, Debug, PartialEq, Eq, Structural)]
pub enum ToggleAction {
    /// Visible and recording: stop the recording and hide the window.
    StopAndHide,
    /// Visible but idle: start recording in place.
    StartRecording,
    /// Hidden: show the window, then start recording.
    ShowAndStart,
}

/// The toggle decision the shell carries out.
pub fn toggle_action(visible: bool, recording: bool) -> (a: ToggleAction)
    ensures
        (visible && recording) ==> a == ToggleAction::StopAndHide,
        (visible && !recording) ==> a == ToggleAction::StartRecording,
        !visible ==> a == ToggleAction::ShowAndStart,
{
    if visible && recording {
        ToggleAction::StopAndHide
    } else if visible {
        ToggleAction::StartRecording
    } else {
        ToggleAction::ShowAndStart
    }
}

/// Where the indicator goes: horizontally centered on the monitor, and
/// lifted off the bottom edge by the larger of the platform dock padding
/// and eight percent of the screen height.
pub fn calculate_optimal_position(
    mon_w: i32,
    mon_h: i32,
    mon_x: i32,
    mon_y: i32,
    win_w: i32,
    win_h: i32,
    dock_padding: Option<i32>,
) -> (pos: (i32, i32))
    requires
        0 < win_w <= mon_w <= 1000000,
        0 < win_h <= mon_h <= 1000000,
        -10000000 <= mon_x <= 10000000,
        -10000000 <= mon_y <= 10000000,
        dock_padding is Some ==> 0 <= dock_padding->0 <= 1000000,
    ensures
        pos.0 == mon_x + tdiv(mon_w - win_w as int, 2),
        ({
            let dynamic = if dock_padding is Some {
                dock_padding->0 as int
            } else {
                60int
            };
            let pixel = (mon_h as int * 8) / 100;
            let padding = if dynamic >= pixel {
                dynamic
            } else {
                pixel
            };
            pos.1 == mon_y + mon_h - win_h - padding
        }),
{
    let x = mon_x + (mon_w - win_w) / 2;
    let dynamic = match dock_padding {
        Some(p) => p,
        None => 60,
    };
    let pixel = (mon_h * 8) / 100;
    let padding = if dynamic >= pixel {
        dynamic
    } else {
        pixel
    };
    let y = mon_y + mon_h - win_h - padding;
    (x, y)
}

} // verus!
