//! The overlay's state machine and the indicators it shows while closed.

use vstd::prelude::*;
use crate::numfmt::{push_char, push_radix, push_str, radix_text};

verus! {

/// Whether the tool's menu is open, closed (indicators shown) or hidden.
#[derive(Clone, Copy, Debug, PartialEq, Eq)]
pub enum UiState {
    MenuOpen,
    Closed,
    Hidden,
}

/// The state after a frame's key presses: the display key opens and closes
/// the menu, the hide key hides everything, and either key brings a hidden
/// overlay back to closed. Nothing changes while the game captures the
/// keyboard or no key is pressed.
pub open spec fn ui_transition(state: UiState, display: bool, hide: bool, keyboard_captured: bool) -> UiState {
    if keyboard_captured || !(display || hide) {
        state
    } else {
        match state {
            UiState::Hidden => UiState::Closed,
            _ => if hide {
                UiState::Hidden
            } else {
                match state {
                    UiState::MenuOpen => UiState::Closed,
                    _ => UiState::MenuOpen,
                }
            },
        }
    }
}

/// The state after a frame's key presses.
pub fn next_ui_state(state: UiState, display: bool, hide: bool, keyboard_captured: bool) -> (r: UiState)
    ensures
        r == ui_transition(state, display, hide, keyboard_captured),
{
    if keyboard_captured || !(display || hide) {
        return state;
    }
    match (state, hide) {
        (UiState::Hidden, _) => UiState::Closed,
        (_, true) => UiState::Hidden,
        (UiState::MenuOpen, _) => UiState::Closed,
        (UiState::Closed, _) => UiState::MenuOpen,
    }
}

/// Whether the game's cursor is shown in a state: only with the menu open.
pub fn cursor_shown(state: UiState) -> (r: bool)
    ensures
        r == (state == UiState::MenuOpen),
{
    match state {
        UiState::MenuOpen => true,
        _ => false,
    }
}

/// The cursor write of a frame: the cursor is shown while the menu is open;
/// a key press that leaves the menu closed or hidden hides it; otherwise the
/// cursor is left alone.
pub open spec fn cursor_write(state: UiState, display: bool, hide: bool, keyboard_captured: bool) -> Option<bool> {
    if ui_transition(state, display, hide, keyboard_captured) == UiState::MenuOpen {
        Some(true)
    } else if !keyboard_captured && (display || hide) {
        Some(false)
    } else {
        None
    }
}

/// How long log lines stay on screen, in milliseconds.
pub const LOG_KEEP_MS: u64 = 5000;

/// A line of the on-screen log and when it arrived, in milliseconds of a
/// monotonic clock.
pub struct LogLine {
    pub at: u64,
    pub text: String,
}

/// The values of log lines: arrival time and text.
pub open spec fn log_view(s: Seq<LogLine>) -> Seq<(u64, Seq<char>)> {
    Seq::new(s.len(), |i: int| (s[i].at, s[i].text@))
}

/// How long ago `at` was at `now` (no time passes backwards).
pub open spec fn log_age(now: u64, at: u64) -> int {
    if now >= at {
        now - at
    } else {
        0
    }
}

/// The lines of `s` that are less than `LOG_KEEP_MS` old at `now`, in order.
pub open spec fn recent_lines(s: Seq<(u64, Seq<char>)>, now: u64) -> Seq<(u64, Seq<char>)>
    decreases s.len(),
{
    if s.len() == 0 {
        s
    } else if log_age(now, s.last().0) < LOG_KEEP_MS {
        recent_lines(s.drop_last(), now).push(s.last())
    } else {
        recent_lines(s.drop_last(), now)
    }
}

/// New messages arriving at `now`.
pub open spec fn arrived(incoming: Seq<String>, now: u64) -> Seq<(u64, Seq<char>)> {
    Seq::new(incoming.len(), |i: int| (now, incoming[i]@))
}

/// Every line that `recent_lines` keeps is recent, and it keeps no more lines
/// than it was given.
pub proof fn lemma_recent_lines(s: Seq<(u64, Seq<char>)>, now: u64)
    ensures
        recent_lines(s, now).len() <= s.len(),
        forall|i: int| 0 <= i < recent_lines(s, now).len() ==> log_age(now, #[trigger] recent_lines(s, now)[i].0) < LOG_KEEP_MS,
    decreases s.len(),
{
    if s.len() > 0 {
        lemma_recent_lines(s.drop_last(), now);
    }
}

/// The overlay between frames: its state and the log lines on screen.
pub struct Hud {
    pub state: UiState,
    pub log: Vec<LogLine>,
}

impl Hud {
    /// A closed overlay with an empty log.
    pub fn new() -> (r: Hud)
        ensures
            r.state == UiState::Closed,
            r.log@.len() == 0,
    {
        Hud { state: UiState::Closed, log: Vec::new() }
    }

    /// One frame: the key presses move the state as `ui_transition` says, the
    /// messages that arrived join the log at `now`, and every line that is
    /// `LOG_KEEP_MS` old or older leaves it. Returns the cursor write the
    /// frame makes, if any.
    pub fn frame(&mut self, display: bool, hide: bool, keyboard_captured: bool, incoming: Vec<String>, now: u64) -> (cursor: Option<bool>)
        ensures
            final(self).state == ui_transition(old(self).state, display, hide, keyboard_captured),
            cursor == cursor_write(old(self).state, display, hide, keyboard_captured),
            log_view(final(self).log@) == recent_lines(log_view(old(self).log@) + arrived(incoming@, now), now),
            forall|i: int| 0 <= i < final(self).log@.len() ==> log_age(now, #[trigger] final(self).log@[i].at) < LOG_KEEP_MS,
    {
        let before = self.state;
        self.state = next_ui_state(before, display, hide, keyboard_captured);
        let cursor = if cursor_shown(self.state) {
            Some(true)
        } else if !keyboard_captured && (display || hide) {
            Some(false)
        } else {
            None
        };
        let ghost all = log_view(self.log@) + arrived(incoming@, now);
        let mut kept: Vec<LogLine> = Vec::new();
        let n = self.log.len();
        let mut i: usize = 0;
        while i < n
            invariant
                n == self.log@.len(),
                all == log_view(self.log@) + arrived(incoming@, now),
                0 <= i <= n,
                log_view(kept@) == recent_lines(all.subrange(0, i as int), now),
            decreases n - i,
        {
            let at = self.log[i].at;
            proof {
                assert(all.subrange(0, i + 1).drop_last() =~= all.subrange(0, i as int));
                assert(all.subrange(0, i + 1).last() == all[i as int]);
            }
            if now < at || now - at < LOG_KEEP_MS {
                let text = self.log[i].text.clone();
                let ghost v = kept@;
                kept.push(LogLine { at, text });
                assert(log_view(kept@) =~= log_view(v).push(all[i as int]));
            }
            i = i + 1;
        }
        let m = incoming.len();
        let mut j: usize = 0;
        while j < m
            invariant
                n == self.log@.len(),
                m == incoming@.len(),
                all == log_view(self.log@) + arrived(incoming@, now),
                0 <= j <= m,
                log_view(kept@) == recent_lines(all.subrange(0, n + j), now),
            decreases m - j,
        {
            proof {
                assert(all.subrange(0, n + j + 1).drop_last() =~= all.subrange(0, n + j));
                assert(all.subrange(0, n + j + 1).last() == all[n + j]);
                assert(all[n + j] == (now, incoming@[j as int]@));
            }
            let text = incoming[j].clone();
            let ghost v = kept@;
            kept.push(LogLine { at: now, text });
            assert(log_view(kept@) =~= log_view(v).push(all[n + j]));
            j = j + 1;
        }
        proof {
            assert(all.subrange(0, n + m) =~= all);
            lemma_recent_lines(all, now);
            assert forall|k: int| 0 <= k < kept@.len() implies log_age(now, #[trigger] kept@[k].at) < LOG_KEEP_MS by {
                assert(log_view(kept@)[k].0 == kept@[k].at);
            }
        }
        self.log = kept;
        cursor
    }

    /// The log lines the overlay shows: the last three, oldest first.
    pub fn shown_log(&self) -> (r: Vec<String>)
        ensures
            r@.len() == if self.log@.len() < 3 { self.log@.len() } else { 3 },
            forall|i: int| 0 <= i < r@.len() ==> #[trigger] r@[i]@ == self.log@[self.log@.len() - r@.len() + i].text@,
    {
        let n = self.log.len();
        let from: usize = if n < 3 { 0 } else { n - 3 };
        let mut r: Vec<String> = Vec::new();
        let mut i: usize = from;
        while i < n
            invariant
                n == self.log@.len(),
                from == if n < 3 { 0 } else { n - 3 },
                from <= i <= n,
                r@.len() == i - from,
                forall|k: int| 0 <= k < r@.len() ==> #[trigger] r@[k]@ == self.log@[from + k].text@,
            decreases n - i,
        {
            r.push(self.log[i].text.clone());
            i = i + 1;
        }
        r
    }
}

/// Pressing the display key twice (nothing captured, no hide key) returns to
/// the state it started from, unless the overlay was hidden.
pub proof fn lemma_display_twice(state: UiState)
    requires
        state != UiState::Hidden,
    ensures
        ui_transition(ui_transition(state, true, false, false), true, false, false) == state,
{
}

/// Pressing the hide key twice (nothing captured, no display key) hides the
/// overlay and brings it back closed.
pub proof fn lemma_hide_twice(state: UiState)
    requires
        state != UiState::Hidden,
    ensures
        ui_transition(state, false, true, false) == UiState::Hidden,
        ui_transition(ui_transition(state, false, true, false), false, true, false) == UiState::Closed,
{
}

/// The in-game time `igt` (milliseconds) as `IGT hh:mm:ss.cc` (hundredths).
pub open spec fn igt_text(igt: nat) -> Seq<char> {
    let total = igt / 1000;
    "IGT "@ + radix_text(total / 3600, 10, 2) + seq![':'] + radix_text((total / 60) % 60, 10, 2) + seq![':']
        + radix_text(total % 60, 10, 2) + seq!['.'] + radix_text((igt % 1000) / 10, 10, 2)
}

/// Formats the in-game time indicator.
pub fn igt_label(igt: u64) -> (s: String)
    ensures
        s@ == igt_text(igt as nat),
{
    let millis = (igt % 1000) / 10;
    let total_seconds = igt / 1000;
    let seconds = total_seconds % 60;
    let minutes = total_seconds / 60 % 60;
    let hours = total_seconds / 3600;
    let mut s = String::new();
    push_str(&mut s, "IGT ");
    push_radix(&mut s, hours, 10, 2);
    push_char(&mut s, ':');
    push_radix(&mut s, minutes, 10, 2);
    push_char(&mut s, ':');
    push_radix(&mut s, seconds, 10, 2);
    push_char(&mut s, '.');
    push_radix(&mut s, millis, 10, 2);
    s
}

/// The map id `m` as `mAA_BB_CC_DD`, its four bytes in hexadecimal, most
/// significant first.
pub open spec fn map_id_text(m: u32) -> Seq<char> {
    seq!['m'] + radix_text((m as nat / 0x100_0000) % 256, 16, 2) + seq!['_'] + radix_text(
        (m as nat / 0x1_0000) % 256,
        16,
        2,
    ) + seq!['_'] + radix_text((m as nat / 0x100) % 256, 16, 2) + seq!['_'] + radix_text(m as nat % 256, 16, 2)
}

/// Formats the map id indicator.
pub fn map_id_label(m: u32) -> (s: String)
    ensures
        s@ == map_id_text(m),
{
    let a = (m >> 24u32) & 0xff;
    let b = (m >> 16u32) & 0xff;
    let r = (m >> 8u32) & 0xff;
    let t = m & 0xff;
    assert((m >> 24u32) & 0xff == (m / 0x100_0000) % 256) by (bit_vector);
    assert((m >> 16u32) & 0xff == (m / 0x1_0000) % 256) by (bit_vector);
    assert((m >> 8u32) & 0xff == (m / 0x100) % 256) by (bit_vector);
    assert(m & 0xff == m % 256) by (bit_vector);
    let mut s = String::new();
    push_char(&mut s, 'm');
    push_radix(&mut s, a as u64, 16, 2);
    push_char(&mut s, '_');
    push_radix(&mut s, b as u64, 16, 2);
    push_char(&mut s, '_');
    push_radix(&mut s, r as u64, 16, 2);
    push_char(&mut s, '_');
    push_radix(&mut s, t as u64, 16, 2);
    s
}

} // verus!
