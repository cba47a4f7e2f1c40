//! Decisions of the launchers: what the start-up dialog asked for, and how an
//! error is reported.

use vstd::prelude::*;
use crate::numfmt::push_str;
use crate::config::str_eq;
use crate::paramdef::{lowercased, to_lowercase};

verus! {

/// What to do, as chosen in the start-up dialog.
#[derive(Clone, Copy, Debug, PartialEq, Eq)]
pub enum Action {
    Run,
    Install,
    Uninstall,
}

/// The action of the dialog button with id `button` (100 run, 101 install or
/// update, 102 uninstall), or the message `Error` for any other id.
pub fn action_for_button(button: i32) -> (r: Result<Action, String>)
    ensures
        button == 100 ==> r == Ok::<Action, String>(Action::Run),
        button == 101 ==> r == Ok::<Action, String>(Action::Install),
        button == 102 ==> r == Ok::<Action, String>(Action::Uninstall),
        (button != 100 && button != 101 && button != 102) ==> (r matches Err(m) && m@ == "Error"@),
{
    match button {
        100 => Ok(Action::Run),
        101 => Ok(Action::Install),
        102 => Ok(Action::Uninstall),
        _ => {
            let mut m = String::new();
            push_str(&mut m, "Error");
            Err(m)
        },
    }
}

/// An error's text as the injector reports it: `Error: ` before it.
pub fn err_to_string(e: &str) -> (r: String)
    ensures
        r@ == "Error: "@ + e@,
{
    let mut r = String::new();
    push_str(&mut r, "Error: ");
    push_str(&mut r, e);
    r
}

/// How long the key must be held, in milliseconds.
pub const HOLD_MS: u64 = 2000;

/// How long the wait for the key lasts, in milliseconds.
pub const WINDOW_MS: u64 = 10000;

/// What the wait for the right-shift key does after a poll.
#[derive(Clone, Copy, Debug, PartialEq, Eq)]
pub enum HoldStep {
    /// The key was held long enough: load the tool.
    Held,
    /// The wait is over without the key held long enough: start normally.
    TimedOut,
    /// Sleep for the poll interval, then poll again.
    Poll,
}

/// The wait for the right-shift key at start-up: when the key went down, if
/// it is down.
#[derive(Clone, Copy, Debug, PartialEq, Eq)]
pub struct HoldWait {
    pub key_down_since: Option<u64>,
}

/// The outcome and the next state of a poll: `waited` is how long the wait
/// has lasted, `now` the time of the poll and `key_down` whether the key is
/// down (times in milliseconds on one monotonic clock).
pub open spec fn hold_step_spec(w: HoldWait, waited: u64, now: u64, key_down: bool) -> (HoldStep, HoldWait) {
    if waited >= WINDOW_MS {
        (HoldStep::TimedOut, w)
    } else if !key_down {
        (HoldStep::Poll, HoldWait { key_down_since: None })
    } else {
        match w.key_down_since {
            None => (HoldStep::Poll, HoldWait { key_down_since: Some(now) }),
            Some(start) => if now >= start && now - start >= HOLD_MS {
                (HoldStep::Held, w)
            } else {
                (HoldStep::Poll, w)
            },
        }
    }
}

impl HoldWait {
    /// The key is not down at the start.
    pub fn new() -> (r: HoldWait)
        ensures
            r.key_down_since is None,
    {
        HoldWait { key_down_since: None }
    }

    /// Handles a poll.
    pub fn step(&mut self, waited: u64, now: u64, key_down: bool) -> (r: HoldStep)
        ensures
            (r, *final(self)) == hold_step_spec(*old(self), waited, now, key_down),
    {
        if waited >= WINDOW_MS {
            return HoldStep::TimedOut;
        }
        if !key_down {
            self.key_down_since = None;
            return HoldStep::Poll;
        }
        match self.key_down_since {
            None => {
                self.key_down_since = Some(now);
                HoldStep::Poll
            },
            Some(start) => {
                if now >= start && now - start >= HOLD_MS {
                    HoldStep::Held
                } else {
                    HoldStep::Poll
                }
            },
        }
    }
}

/// Holding the key from a poll at `t0` to a poll at `t1`, two seconds later
/// and within the wait, loads the tool: the first poll records when the key
/// went down, and a poll with the key still down two seconds on ends the wait.
pub proof fn lemma_hold_loads(w: HoldWait, waited0: u64, t0: u64, waited1: u64, t1: u64)
    requires
        w.key_down_since is None,
        waited0 < WINDOW_MS,
        waited1 < WINDOW_MS,
        t1 >= t0 + HOLD_MS,
    ensures
        hold_step_spec(w, waited0, t0, true).0 == HoldStep::Poll,
        hold_step_spec(hold_step_spec(w, waited0, t0, true).1, waited1, t1, true).0 == HoldStep::Held,
{
}

/// Letting the key go restarts the count.
pub proof fn lemma_release_resets(w: HoldWait, waited: u64, now: u64)
    requires
        waited < WINDOW_MS,
    ensures
        hold_step_spec(w, waited, now, false) == (HoldStep::Poll, HoldWait { key_down_since: None }),
{
}

/// Whether the tool, loaded as a library with file name `file_name` (when
/// known), waits for the right-shift key before starting: only when it was
/// installed as the game's `dinput8.dll` (in any letter case).
pub open spec fn waits_for_key_spec(file_name: Option<Seq<char>>) -> bool {
    match file_name {
        Some(n) => lowercased(n) == "dinput8.dll"@,
        None => false,
    }
}

/// Whether the tool waits for the right-shift key before starting.
pub fn waits_for_key(file_name: Option<&str>) -> (r: bool)
    ensures
        r == waits_for_key_spec(match file_name {
            Some(n) => Some(n@),
            None => None,
        }),
{
    match file_name {
        Some(n) => {
            let lower = to_lowercase(n);
            str_eq(lower.as_str(), "dinput8.dll")
        },
        None => false,
    }
}

/// The bytes that skip the intro screens, for the bytes read where the
/// intro check is: the conditional jump `74 53` becomes two `90` (no-op)
/// instructions; anything else is left alone.
pub fn intro_skip_patch(current: [u8; 2]) -> (r: Option<[u8; 2]>)
    ensures
        (current[0] == 0x74 && current[1] == 0x53) ==> (r matches Some(w) && w[0] == 0x90 && w[1] == 0x90),
        !(current[0] == 0x74 && current[1] == 0x53) ==> r is None,
{
    if current[0] == 0x74 && current[1] == 0x53 {
        Some([0x90, 0x90])
    } else {
        None
    }
}

} // verus!
