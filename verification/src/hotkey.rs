//! Hotkey signal handling: the edge detection, debouncing and error
//! throttling of the global key monitor.  Polling the OS for key state
//! is the shell's business; it hands the observations here and performs
//! the action decided.

use vstd::prelude::*;

verus! {

/// Stock debounce window in milliseconds; platforms with chattier key
/// sources use shorter ones.
pub const DEBOUNCE_MS: u64 = 200;

/// Consecutive failures tolerated before the monitor backs off.
pub const MAX_CONSECUTIVE_ERRORS: u32 = 3;

/// The monitor's memory between polls.
pub struct HotkeyMonitor {
    /// Window within which duplicate signals are coalesced, in
    /// milliseconds; a tuning knob that varies by platform.
    pub debounce_ms: u64,
    /// Whether the hotkey was down at the previous poll.
    pub key_was_down: bool,
    /// When the last accepted action fired, in milliseconds.
    pub last_action_ms: u64,
    /// Session starts that failed in a row.
    pub consecutive_errors: u32,
}

/// What the shell does after one poll.
#[derive(Clone, Copy, Debug, PartialEq, Eq, Structural)]
pub enum HotkeyAction {
    /// A fresh press: begin a session.
    StartSession,
    /// A release: end the session and process it.
    StopSession,
    /// Too many failures in a row: wait before trying again.
    Backoff,
    /// No edge, or an edge within the debounce window.
    Idle,
}

impl HotkeyMonitor {
    pub fn new(debounce_ms: u64) -> (m: HotkeyMonitor)
        ensures
            m.debounce_ms == debounce_ms,
            !m.key_was_down,
            m.last_action_ms == 0,
            m.consecutive_errors == 0,
    {
        HotkeyMonitor { debounce_ms, key_was_down: false, last_action_ms: 0, consecutive_errors: 0 }
    }

    /// Judge one poll of the key state at `now_ms`.  Only an edge acts;
    /// an edge within the debounce window is coalesced into nothing; a
    /// press edge after too many failures backs off instead of starting,
    /// clearing the failure count.
    pub fn observe(&mut self, key_down: bool, now_ms: u64) -> (action: HotkeyAction)
        requires
            now_ms >= old(self).last_action_ms,
        ensures
            final(self).key_was_down == key_down,
            final(self).debounce_ms == old(self).debounce_ms,
            ({
                let press_edge = key_down && !old(self).key_was_down;
                let release_edge = !key_down && old(self).key_was_down;
                let debounced = now_ms - old(self).last_action_ms > old(self).debounce_ms;
                &&& action == HotkeyAction::StartSession <==> (press_edge && debounced && old(
                    self,
                ).consecutive_errors < MAX_CONSECUTIVE_ERRORS)
                &&& action == HotkeyAction::Backoff <==> (press_edge && debounced && old(
                    self,
                ).consecutive_errors >= MAX_CONSECUTIVE_ERRORS)
                &&& action == HotkeyAction::StopSession <==> (release_edge && debounced)
                &&& (action == HotkeyAction::StartSession || action == HotkeyAction::StopSession)
                    ==> final(self).last_action_ms == now_ms
                &&& action == HotkeyAction::Idle ==> final(self).last_action_ms == old(
                    self,
                ).last_action_ms
                &&& action == HotkeyAction::Backoff ==> final(self).consecutive_errors == 0
                    && final(self).last_action_ms == old(self).last_action_ms
                &&& action != HotkeyAction::Backoff ==> final(self).consecutive_errors == old(
                    self,
                ).consecutive_errors
            }),
    {
        let press_edge = key_down && !self.key_was_down;
        let release_edge = !key_down && self.key_was_down;
        self.key_was_down = key_down;
        if now_ms - self.last_action_ms > self.debounce_ms {
            if press_edge {
                if self.consecutive_errors < MAX_CONSECUTIVE_ERRORS {
                    self.last_action_ms = now_ms;
                    return HotkeyAction::StartSession;
                } else {
                    self.consecutive_errors = 0;
                    return HotkeyAction::Backoff;
                }
            }
            if release_edge {
                self.last_action_ms = now_ms;
                return HotkeyAction::StopSession;
            }
        }
        HotkeyAction::Idle
    }

    /// Account the outcome of an attempted session start: a success
    /// clears the failure run, a failure lengthens it.
    pub fn report_start_outcome(&mut self, ok: bool)
        requires
            old(self).consecutive_errors < 0xffffffff,
        ensures
            ok ==> final(self).consecutive_errors == 0,
            !ok ==> final(self).consecutive_errors == old(self).consecutive_errors + 1,
            final(self).key_was_down == old(self).key_was_down,
            final(self).last_action_ms == old(self).last_action_ms,
            final(self).debounce_ms == old(self).debounce_ms,
    {
        if ok {
            self.consecutive_errors = 0;
        } else {
            self.consecutive_errors = self.consecutive_errors + 1;
        }
    }
}

} // verus!
