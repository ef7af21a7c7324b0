//! Telling when the user is away from the keyboard. The caller polls the
//! mouse and the keys at a fixed rhythm and hands each sample to
//! `AFKWatcher::step`, which keeps count of the idle time and says when the
//! user has gone away and when the user is back. `metric_body` writes the
//! message that reports such a change.

use crate::number::{decimal_text, to_decimal};
use crate::text::string_of;
use vstd::prelude::*;
use vstd::string::*;

verus! {

/// Times are in milliseconds.
#[derive(Debug, Clone, Copy, PartialEq, Eq, Structural)]
pub struct AFKSettings {
    /// The idle time after which the user counts as away.
    pub timeout: u64,
    /// The time between two samples.
    pub poll_time: u64,
}

impl AFKSettings {
    /// Settings with the given timeout and poll time.
    pub fn new(timeout: u64, poll_time: u64) -> (s: Self)
        ensures
            s == (AFKSettings { timeout, poll_time }),
    {
        AFKSettings { timeout, poll_time }
    }
}

/// Watches for the user going away and coming back.
#[derive(Debug, Clone, Copy, PartialEq, Eq, Structural)]
pub struct AFKWatcher {
    pub settings: AFKSettings,
}

/// What the watcher reports.
#[derive(Debug, Clone, Copy, PartialEq, Eq, Structural)]
pub enum AFKState {
    ONLINE,
    OFFLINE,
}

/// What the watcher remembers between two samples: where the mouse was,
/// for how long nothing has happened, and whether the user counts as away.
#[derive(Debug, Clone, Copy, PartialEq, Eq)]
pub struct AFKTracker {
    pub mouse: (i32, i32),
    pub idle: u64,
    pub afk: bool,
}

impl AFKTracker {
    /// The sample shows that the user did something: the mouse has moved,
    /// or a key is down.
    pub open spec fn interacted(self, mouse: (i32, i32), keys_down: usize) -> bool {
        mouse != self.mouse || keys_down > 0
    }
}

impl AFKWatcher {
    /// A watcher with a copy of `settings`.
    pub fn new(settings: &AFKSettings) -> (w: Self)
        ensures
            w.settings == *settings,
    {
        AFKWatcher { settings: *settings }
    }

    /// The memory of a watcher that starts with the mouse at `mouse`.
    pub fn start(&self, mouse: (i32, i32)) -> (t: AFKTracker)
        ensures
            t == (AFKTracker { mouse, idle: 0, afk: false }),
    {
        AFKTracker { mouse, idle: 0, afk: false }
    }

    /// What one sample makes of the watcher's memory, and what is to be
    /// reported. A sample with an interaction sets the idle time back to
    /// zero, and reports `ONLINE` where the user was away. A sample without
    /// one adds the poll time to the idle time, and reports `OFFLINE` where
    /// the idle time reaches the timeout and the user was not away yet.
    pub open spec fn next(self, t: AFKTracker, mouse: (i32, i32), keys_down: usize) -> (
        AFKTracker,
        Option<AFKState>,
    ) {
        if t.interacted(mouse, keys_down) {
            (
                AFKTracker { mouse, idle: 0, afk: false },
                if t.afk {
                    Some(AFKState::ONLINE)
                } else {
                    None
                },
            )
        } else {
            let idle = (t.idle + self.settings.poll_time) as u64;
            if idle >= self.settings.timeout && !t.afk {
                (AFKTracker { mouse, idle, afk: true }, Some(AFKState::OFFLINE))
            } else {
                (AFKTracker { mouse, idle, afk: t.afk }, None)
            }
        }
    }

    /// Takes one sample: see `next`. The idle time must stay in 64 bits.
    pub fn step(&self, t: AFKTracker, mouse: (i32, i32), keys_down: usize) -> (r: (
        AFKTracker,
        Option<AFKState>,
    ))
        requires
            !t.interacted(mouse, keys_down) ==> t.idle + self.settings.poll_time <= u64::MAX,
        ensures
            r == self.next(t, mouse, keys_down),
    {
        let moved = mouse.0 != t.mouse.0 || mouse.1 != t.mouse.1;
        if moved || keys_down > 0 {
            let report = if t.afk {
                Some(AFKState::ONLINE)
            } else {
                None
            };
            (AFKTracker { mouse, idle: 0, afk: false }, report)
        } else {
            let idle = t.idle + self.settings.poll_time;
            if idle >= self.settings.timeout && !t.afk {
                (AFKTracker { mouse, idle, afk: true }, Some(AFKState::OFFLINE))
            } else {
                (AFKTracker { mouse, idle, afk: t.afk }, None)
            }
        }
    }

    /// A report of `OFFLINE` comes only from a user who was not away, and a
    /// report of `ONLINE` only from a user who was; after either the
    /// memory agrees with the report.
    pub proof fn lemma_reports_are_changes(self, t: AFKTracker, mouse: (i32, i32), keys_down: usize)
        ensures
            self.next(t, mouse, keys_down).1 == Some(AFKState::OFFLINE) ==> !t.afk && self.next(
                t,
                mouse,
                keys_down,
            ).0.afk,
            self.next(t, mouse, keys_down).1 == Some(AFKState::ONLINE) ==> t.afk && !self.next(
                t,
                mouse,
                keys_down,
            ).0.afk,
            self.next(t, mouse, keys_down).1 is None ==> self.next(t, mouse, keys_down).0.afk
                == t.afk,
    {
    }
}

/// The name of a state in a message.
pub open spec fn state_name(state: AFKState) -> Seq<char> {
    match state {
        AFKState::ONLINE => "ONLINE"@,
        AFKState::OFFLINE => "OFFLINE"@,
    }
}

/// The message that reports the state `state` as of the time `time`, in
/// seconds since 1970: an object with the members `type` and `time`.
pub open spec fn metric_text(state: AFKState, time: int) -> Seq<char> {
    "{\"type\":\""@ + state_name(state) + "\",\"time\":"@ + decimal_text(time) + "}"@
}

/// Writes the message that reports a change: see `metric_text`.
pub fn metric_body(state: AFKState, time: i64) -> (body: String)
    ensures
        body@ == metric_text(state, time as int),
{
    let mut body = String::from_str("{\"type\":\"");
    match state {
        AFKState::ONLINE => body.append("ONLINE"),
        AFKState::OFFLINE => body.append("OFFLINE"),
    }
    body.append("\",\"time\":");
    let seconds = string_of(to_decimal(time).as_slice());
    body.append(seconds.as_str());
    body.append("}");
    body
}

} // verus!
