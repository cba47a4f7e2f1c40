//! Hotkeys: a key with an optional modifier, as written in the configuration
//! (`rshift+o`), and when such a hotkey counts as pressed or released.

use vstd::prelude::*;
use crate::numfmt::{chars_of, push_char, push_chars, push_str};

verus! {

/// A hotkey: the virtual-key code of the key and, optionally, of a modifier
/// that must be held with it.
#[derive(Clone, Copy, Debug, PartialEq, Eq)]
pub struct KeyState {
    pub key: i32,
    pub modifier: Option<i32>,
}

/// The index of the last `+` in `s`.
pub open spec fn last_plus(s: Seq<char>) -> Option<int>
    decreases s.len(),
{
    if s.len() == 0 {
        None
    } else if s.last() == '+' {
        Some(s.len() - 1)
    } else {
        last_plus(s.drop_last())
    }
}

/// The text after the last `+` of `s` (all of `s` when there is none).
pub open spec fn last_piece(s: Seq<char>) -> Seq<char> {
    match last_plus(s) {
        Some(i) => s.subrange(i + 1, s.len() as int),
        None => s,
    }
}

/// The key name and the modifier name of a hotkey text, read from the end
/// as `str::rsplit('+')` reads it: the last piece names the key, the piece
/// before it (if any) the modifier; earlier pieces are ignored.
pub open spec fn key_parts(s: Seq<char>) -> (Seq<char>, Option<Seq<char>>) {
    match last_plus(s) {
        None => (s, None),
        Some(i) => (s.subrange(i + 1, s.len() as int), Some(last_piece(s.subrange(0, i)))),
    }
}

/// The last `+` of a prefix lies in it.
proof fn lemma_last_plus_bounds(s: Seq<char>)
    ensures
        match last_plus(s) {
            Some(i) => 0 <= i < s.len() && s[i] == '+' && forall|j: int| i < j < s.len() ==> s[j] != '+',
            None => forall|j: int| 0 <= j < s.len() ==> s[j] != '+',
        },
    decreases s.len(),
{
    if s.len() > 0 && s.last() != '+' {
        let d = s.drop_last();
        lemma_last_plus_bounds(d);
        assert forall|j: int| 0 <= j < d.len() implies d[j] == s[j] by {}
    }
}

/// The index of the last `+` among the first `end` characters.
fn find_last_plus(cs: &Vec<char>, end: usize) -> (r: Option<usize>)
    requires
        end <= cs@.len(),
    ensures
        match r {
            Some(i) => last_plus(cs@.subrange(0, end as int)) == Some(i as int),
            None => last_plus(cs@.subrange(0, end as int)) is None,
        },
{
    let mut k: usize = end;
    while k > 0
        invariant
            k <= end <= cs@.len(),
            last_plus(cs@.subrange(0, end as int)) == last_plus(cs@.subrange(0, k as int)),
        decreases k,
    {
        let ghost pre = cs@.subrange(0, k as int);
        assert(pre.last() == cs@[k - 1]);
        if cs[k - 1] == '+' {
            return Some(k - 1);
        }
        assert(pre.drop_last() =~= cs@.subrange(0, k - 1));
        k = k - 1;
    }
    None
}

/// The message for a key name with no key code.
pub open spec fn invalid_key_text(name: Seq<char>) -> Seq<char> {
    seq!['"'] + name + "\" is not a valid key code"@
}

fn invalid_key(cs: &Vec<char>, from: usize, to: usize) -> (r: String)
    requires
        from <= to <= cs@.len(),
    ensures
        r@ == invalid_key_text(cs@.subrange(from as int, to as int)),
{
    let mut m = String::new();
    push_char(&mut m, '"');
    push_chars(&mut m, cs, from, to);
    push_str(&mut m, "\" is not a valid key code");
    proof {
        reveal_strlit("\"");
    }
    m
}

/// The key name and modifier name of a hotkey text.
pub fn key_names(value: &str) -> (r: (String, Option<String>))
    ensures
        r.0@ == key_parts(value@).0,
        match r.1 {
            Some(m) => key_parts(value@).1 == Some(m@),
            None => key_parts(value@).1 is None,
        },
{
    let cs = chars_of(value);
    let n = cs.len();
    assert(cs@.subrange(0, n as int) =~= value@);
    match find_last_plus(&cs, n) {
        None => {
            let mut k = String::new();
            push_chars(&mut k, &cs, 0, n);
            (k, None)
        },
        Some(i) => {
            proof {
                lemma_last_plus_bounds(value@);
            }
            let mut k = String::new();
            push_chars(&mut k, &cs, i + 1, n);
            let before = find_last_plus(&cs, i);
            let mut m = String::new();
            match before {
                Some(j) => {
                    proof {
                        lemma_last_plus_bounds(cs@.subrange(0, i as int));
                        assert(cs@.subrange(0, i as int).subrange(j + 1, i as int) =~= cs@.subrange(j + 1, i as int));
                    }
                    push_chars(&mut m, &cs, j + 1, i);
                },
                None => {
                    push_chars(&mut m, &cs, 0, i);
                },
            }
            (k, Some(m))
        },
    }
}

/// The hotkey that `value` names, given the key code of its key name and,
/// where it has a modifier name, the key code of that name (none where a
/// name has no code). A modifier without a code is reported by its name, a
/// key without a code by the whole text.
pub open spec fn key_state_spec(value: Seq<char>, key_code: Option<i32>, modifier_code: Option<i32>) -> Result<KeyState, Seq<char>> {
    let (k, m) = key_parts(value);
    match m {
        Some(mname) => match modifier_code {
            None => Err(invalid_key_text(mname)),
            Some(mc) => match key_code {
                None => Err(invalid_key_text(value)),
                Some(c) => Ok(KeyState { key: c, modifier: Some(mc) }),
            },
        },
        None => match key_code {
            None => Err(invalid_key_text(value)),
            Some(c) => Ok(KeyState { key: c, modifier: None }),
        },
    }
}

impl KeyState {
    /// The hotkey that `value` names, given the codes looked up for its key
    /// name and modifier name (see `key_names`).
    pub fn from_codes(value: &str, key_code: Option<i32>, modifier_code: Option<i32>) -> (r: Result<KeyState, String>)
        ensures
            match key_state_spec(value@, key_code, modifier_code) {
                Ok(k) => r == Ok::<KeyState, String>(k),
                Err(e) => r matches Err(m) && m@ == e,
            },
    {
        let (_, modifier) = key_names(value);
        let cs = chars_of(value);
        let n = cs.len();
        assert(cs@.subrange(0, n as int) =~= value@);
        match modifier {
            Some(mname) => match modifier_code {
                None => {
                    let mcs = chars_of(mname.as_str());
                    let l = mcs.len();
                    assert(mcs@.subrange(0, l as int) =~= mname@);
                    Err(invalid_key(&mcs, 0, l))
                },
                Some(mc) => match key_code {
                    None => Err(invalid_key(&cs, 0, n)),
                    Some(c) => Ok(KeyState { key: c, modifier: Some(mc) }),
                },
            },
            None => match key_code {
                None => Err(invalid_key(&cs, 0, n)),
                Some(c) => Ok(KeyState { key: c, modifier: None }),
            },
        }
    }

    /// Whether the modifier is held, given its state when there is one.
    pub fn is_modifier_down(&self, modifier_down: bool) -> (r: bool)
        ensures
            r == (self.modifier is None || modifier_down),
    {
        match self.modifier {
            Some(_) => modifier_down,
            None => true,
        }
    }

    /// Whether the hotkey fires on this frame, given whether its key changed
    /// as asked (released, pressed or down) and whether the modifier is held.
    pub fn fires(&self, key_event: bool, modifier_down: bool) -> (r: bool)
        ensures
            r == (key_event && (self.modifier is None || modifier_down)),
    {
        key_event && self.is_modifier_down(modifier_down)
    }
}

} // verus!
