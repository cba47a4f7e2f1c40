//! Flag widgets: several flags behind one switch, the death camera and the
//! action freeze.

use vstd::prelude::*;
use crate::memedit::{Bitflag, BytesPatch, FlagToggler, PointerChain};

verus! {

/// A bit flag or a byte patch.
#[derive(Clone, Debug)]
pub enum Toggler {
    Bit(Bitflag),
    Patch(BytesPatch),
}

impl FlagToggler for Toggler {
    open spec fn width_spec(&self) -> nat {
        match self {
            Toggler::Bit(f) => f.width_spec(),
            Toggler::Patch(p) => p.width_spec(),
        }
    }

    open spec fn state_of(&self, bytes: Seq<u8>) -> bool {
        match self {
            Toggler::Bit(f) => f.state_of(bytes),
            Toggler::Patch(p) => p.state_of(bytes),
        }
    }

    open spec fn set_write(&self, bytes: Seq<u8>, flag: bool) -> Option<Seq<u8>> {
        match self {
            Toggler::Bit(f) => f.set_write(bytes, flag),
            Toggler::Patch(p) => p.set_write(bytes, flag),
        }
    }

    open spec fn toggle_outcome(&self, bytes: Seq<u8>) -> (bool, Seq<u8>) {
        match self {
            Toggler::Bit(f) => f.toggle_outcome(bytes),
            Toggler::Patch(p) => p.toggle_outcome(bytes),
        }
    }

    fn width(&self) -> (w: usize) {
        match self {
            Toggler::Bit(f) => f.width(),
            Toggler::Patch(p) => p.width(),
        }
    }

    fn get(&self, read: Option<&[u8]>) -> (r: Option<bool>) {
        match self {
            Toggler::Bit(f) => f.get(read),
            Toggler::Patch(p) => p.get(read),
        }
    }

    fn toggle(&self, read: Option<&[u8]>) -> (r: Option<(bool, Vec<u8>)>) {
        match self {
            Toggler::Bit(f) => f.toggle(read),
            Toggler::Patch(p) => p.toggle(read),
        }
    }

    fn set(&self, read: Option<&[u8]>, flag: bool) -> (r: Option<Vec<u8>>) {
        match self {
            Toggler::Bit(f) => f.set(read, flag),
            Toggler::Patch(p) => p.set(read, flag),
        }
    }
}

/// The bytes read at a flag's address fit that flag.
pub open spec fn read_fits(t: Toggler, read: Option<Vec<u8>>) -> bool {
    read matches Some(b) ==> b@.len() == t.width_spec()
}

/// What a flag's `set` writes for a read.
pub open spec fn set_result(t: Toggler, read: Option<Vec<u8>>, flag: bool) -> Option<Seq<u8>> {
    match read {
        None => None,
        Some(b) => t.set_write(b@, flag),
    }
}

/// Several flags switched together; the first one shows the state.
#[derive(Debug)]
pub struct MultiFlag {
    pub flags: Vec<Toggler>,
}

impl MultiFlag {
    pub fn new(flags: Vec<Toggler>) -> (m: MultiFlag)
        ensures
            m.flags@ == flags@,
    {
        MultiFlag { flags }
    }

    /// The state of the first flag, given what was read at its address; `None`
    /// when there is no flag.
    pub fn get(&self, first_read: Option<&[u8]>) -> (r: Option<bool>)
        requires
            self.flags@.len() > 0 ==> (first_read matches Some(b) ==> b@.len()
                == self.flags@[0].width_spec()),
        ensures
            self.flags@.len() == 0 ==> r is None,
            self.flags@.len() > 0 ==> r == match first_read {
                None => None::<bool>,
                Some(b) => Some(self.flags@[0].state_of(b@)),
            },
    {
        if self.flags.len() == 0 {
            None
        } else {
            self.flags[0].get(first_read)
        }
    }

    /// Sets every flag to `value`: for each flag, given what was read at its
    /// address, the bytes to write there (if any).
    pub fn set(&self, reads: &Vec<Option<Vec<u8>>>, value: bool) -> (w: Vec<Option<Vec<u8>>>)
        requires
            reads@.len() == self.flags@.len(),
            forall|i: int| 0 <= i < reads@.len() ==> read_fits(self.flags@[i], #[trigger] reads@[i]),
        ensures
            w@.len() == self.flags@.len(),
            forall|i: int| 0 <= i < w@.len() ==> (match #[trigger] w@[i] {
                None => set_result(self.flags@[i], reads@[i], value) is None,
                Some(v) => set_result(self.flags@[i], reads@[i], value) == Some(v@),
            }),
    {
        let mut out: Vec<Option<Vec<u8>>> = Vec::new();
        let mut i: usize = 0;
        while i < self.flags.len()
            invariant
                reads@.len() == self.flags@.len(),
                forall|k: int| 0 <= k < reads@.len() ==> read_fits(self.flags@[k], #[trigger] reads@[k]),
                0 <= i <= self.flags@.len(),
                out@.len() == i,
                forall|k: int| 0 <= k < i ==> (match #[trigger] out@[k] {
                    None => set_result(self.flags@[k], reads@[k], value) is None,
                    Some(v) => set_result(self.flags@[k], reads@[k], value) == Some(v@),
                }),
            decreases self.flags@.len() - i,
        {
            let r = match &reads[i] {
                None => None,
                Some(b) => Some(b.as_slice()),
            };
            assert(read_fits(self.flags@[i as int], reads@[i as int]));
            let wr = self.flags[i].set(r, value);
            out.push(wr);
            i = i + 1;
        }
        out
    }
}

/// The death camera: two bit flags (player, mount) and a one-byte patch.
#[derive(Debug)]
pub struct Deathcam {
    pub flag: Bitflag,
    pub flag_torrent: Bitflag,
    pub seven: BytesPatch,
}

impl Deathcam {
    pub fn new(flag: Bitflag, flag_torrent: Bitflag, seven: BytesPatch) -> (d: Deathcam)
        ensures
            d.flag == flag,
            d.flag_torrent == flag_torrent,
            d.seven == seven,
    {
        Deathcam { flag, flag_torrent, seven }
    }

    /// The state, as the player's flag shows it.
    pub fn get(&self, flag_read: Option<u8>) -> (r: Option<bool>)
        ensures
            r == match flag_read {
                None => None::<bool>,
                Some(x) => Some(self.flag.is_set(x)),
            },
    {
        match flag_read {
            None => None,
            Some(x) => Some(x & self.flag.mask == self.flag.mask),
        }
    }

    /// Sets patch, player flag and mount flag (in this order) to `value`:
    /// given what was read at each address, the bytes to write at each.
    pub fn set(
        &self,
        seven_read: Option<&[u8]>,
        flag_read: Option<&[u8]>,
        torrent_read: Option<&[u8]>,
        value: bool,
    ) -> (w: (Option<Vec<u8>>, Option<Vec<u8>>, Option<Vec<u8>>))
        requires
            seven_read matches Some(b) ==> b@.len() == self.seven.on@.len(),
            flag_read matches Some(b) ==> b@.len() == 1,
            torrent_read matches Some(b) ==> b@.len() == 1,
        ensures
            match seven_read {
                None => w.0 is None,
                Some(b) => match self.seven.set_write(b@, value) {
                    None => w.0 is None,
                    Some(s) => w.0 matches Some(v) && v@ == s,
                },
            },
            match flag_read {
                None => w.1 is None,
                Some(b) => w.1 matches Some(v) && v@ == seq![self.flag.with_flag(b@[0], value)],
            },
            match torrent_read {
                None => w.2 is None,
                Some(b) => w.2 matches Some(v) && v@ == seq![self.flag_torrent.with_flag(b@[0], value)],
            },
    {
        let a = self.seven.set(seven_read, value);
        let b = self.flag.set(flag_read, value);
        let c = self.flag_torrent.set(torrent_read, value);
        (a, b, c)
    }
}

/// A byte that holds one value when actions are frozen and another when not.
#[derive(Debug)]
pub struct ActionFreeze {
    pub ptr: PointerChain,
    pub state: bool,
    pub state_on: u8,
    pub state_off: u8,
}

impl ActionFreeze {
    /// `states` is `(off, on)`; the initial state is whether the byte read now
    /// holds the `on` value.
    pub fn new(ptr: PointerChain, states: (u8, u8), current: Option<u8>) -> (a: ActionFreeze)
        ensures
            a.ptr == ptr,
            a.state_off == states.0,
            a.state_on == states.1,
            a.state == (current == Some(states.1)),
    {
        let (state_off, state_on) = states;
        let state = match current {
            Some(i) => i == state_on,
            None => false,
        };
        ActionFreeze { ptr, state, state_on, state_off }
    }

    /// `Some(true)` for the `on` value, `Some(false)` for the `off` value,
    /// `None` for any other value or a failed read.
    pub fn get(&self, read: Option<u8>) -> (r: Option<bool>)
        ensures
            r == match read {
                None => None::<bool>,
                Some(x) => if x == self.state_on {
                    Some(true)
                } else if x == self.state_off {
                    Some(false)
                } else {
                    None::<bool>
                },
            },
    {
        match read {
            None => None,
            Some(x) => {
                if x == self.state_on {
                    Some(true)
                } else if x == self.state_off {
                    Some(false)
                } else {
                    None
                }
            },
        }
    }

    /// Records `value` and returns the byte to write.
    pub fn set(&mut self, value: bool) -> (w: u8)
        ensures
            final(self).state == value,
            final(self).ptr == old(self).ptr,
            final(self).state_on == old(self).state_on,
            final(self).state_off == old(self).state_off,
            w == if value { old(self).state_on } else { old(self).state_off },
    {
        self.state = value;
        if self.state {
            self.state_on
        } else {
            self.state_off
        }
    }
}

/// Writing what `set(v)` returns and reading it back shows `v`, when the two
/// values differ.
pub proof fn lemma_action_freeze_set_get(a: ActionFreeze, v: bool)
    requires
        a.state_on != a.state_off,
    ensures
        ({
            let w = if v { a.state_on } else { a.state_off };
            (if w == a.state_on {
                Some(true)
            } else if w == a.state_off {
                Some(false)
            } else {
                None::<bool>
            }) == Some(v)
        }),
{
}

} // verus!
