//! User-facing configuration records.
//!
//! `UiSettings` is the full per-user record kept in the settings file:
//! the six cycle fields the engine consumes plus presentation-only fields
//! (theme, hotkey bindings, optional vault path) that the timer core does
//! not interpret. `TimerSettings` is the plain six-field record exchanged
//! with the engine's callers.

use vstd::prelude::*;
use crate::engine::Settings;

verus! {

/// The full user-facing settings record.
pub struct UiSettings {
    pub focus_min: u64,
    pub break_min: u64,
    pub micro_every: u64,
    pub micro_min: u64,
    pub hard_break: bool,
    pub theme: String,
    pub obsidian_vault: Option<String>,
    pub enable_idle: bool,
    pub snooze_sec: u64,
    pub idle_threshold_min: Option<u64>,
    pub force_blocks: Option<Vec<String>>,
    pub webhook_url: Option<String>,
    pub hotkeys: Vec<(String, String)>,
}

impl UiSettings {
    /// The cycle configuration the engine consumes: the six core fields,
    /// with the presentation-only fields left behind.
    pub fn to_cycle_settings(&self) -> (s: Settings)
        ensures
            s == (Settings {
                focus_minutes: self.focus_min,
                break_minutes: self.break_min,
                micro_every: self.micro_every,
                micro_minutes: self.micro_min,
                hard_break: self.hard_break,
                snooze_sec: self.snooze_sec,
            }),
    {
        Settings {
            focus_minutes: self.focus_min,
            break_minutes: self.break_min,
            micro_every: self.micro_every,
            micro_minutes: self.micro_min,
            hard_break: self.hard_break,
            snooze_sec: self.snooze_sec,
        }
    }
}

impl Default for UiSettings {
    /// The documented default record: a 50/10 cycle with a 2-minute
    /// micro-break every second cycle, hard breaks on, idle detection on
    /// with a 5-minute threshold, the system theme, and the three stock
    /// hotkey bindings.
    fn default() -> (s: Self)
        ensures
            s.focus_min == 50,
            s.break_min == 10,
            s.micro_every == 2,
            s.micro_min == 2,
            s.hard_break == true,
            s.theme@ == "system"@,
            s.obsidian_vault is None,
            s.enable_idle == true,
            s.snooze_sec == 60,
            s.idle_threshold_min == Some(5u64),
            s.force_blocks is Some && s.force_blocks->0@.len() == 0,
            s.webhook_url is None,
            s.hotkeys@.len() == 3,
            s.hotkeys@[0].0@ == "start"@ && s.hotkeys@[0].1@ == "CmdOrCtrl+Shift+P"@,
            s.hotkeys@[1].0@ == "stop"@ && s.hotkeys@[1].1@ == "CmdOrCtrl+Shift+O"@,
            s.hotkeys@[2].0@ == "snooze"@ && s.hotkeys@[2].1@ == "CmdOrCtrl+Shift+S"@,
    {
        let mut hotkeys: Vec<(String, String)> = Vec::new();
        hotkeys.push(("start".to_owned(), "CmdOrCtrl+Shift+P".to_owned()));
        hotkeys.push(("stop".to_owned(), "CmdOrCtrl+Shift+O".to_owned()));
        hotkeys.push(("snooze".to_owned(), "CmdOrCtrl+Shift+S".to_owned()));
        UiSettings {
            focus_min: 50,
            break_min: 10,
            micro_every: 2,
            micro_min: 2,
            hard_break: true,
            theme: "system".to_owned(),
            obsidian_vault: None,
            enable_idle: true,
            snooze_sec: 60,
            idle_threshold_min: Some(5),
            force_blocks: Some(Vec::new()),
            webhook_url: None,
            hotkeys,
        }
    }
}

/// The plain six-field cycle record exchanged with the engine's callers.
#[derive(Clone, Copy, Debug, PartialEq, Eq, Structural)]
pub struct TimerSettings {
    pub focus_minutes: u64,
    pub break_minutes: u64,
    pub micro_every: u64,
    pub micro_minutes: u64,
    pub hard_break: bool,
    pub snooze_sec: u64,
}

impl TimerSettings {
    /// The same record as the engine's configuration type.
    pub fn as_settings(&self) -> (s: Settings)
        ensures
            s == (Settings {
                focus_minutes: self.focus_minutes,
                break_minutes: self.break_minutes,
                micro_every: self.micro_every,
                micro_minutes: self.micro_minutes,
                hard_break: self.hard_break,
                snooze_sec: self.snooze_sec,
            }),
    {
        Settings {
            focus_minutes: self.focus_minutes,
            break_minutes: self.break_minutes,
            micro_every: self.micro_every,
            micro_minutes: self.micro_minutes,
            hard_break: self.hard_break,
            snooze_sec: self.snooze_sec,
        }
    }
}

} // verus!
