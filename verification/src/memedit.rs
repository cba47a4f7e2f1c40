//! Pointer chains and the flags they toggle.
//!
//! A [`PointerChain`] is a base address followed by offsets: it evaluates to
//! `*(*(*(*base + o1) + o2) + ...) + on`. The reads themselves are done by the
//! caller; this module decides, one read at a time, which address to read next
//! ([`ChainWalk`]) and, for the flags, which value to write back.

use vstd::prelude::*;

verus! {

/// `a + b` with wraparound at `usize::MAX + 1`.
pub open spec fn wrap_add(a: usize, b: usize) -> usize {
    vstd::wrapping::usize_specs::wrapping_add(a, b)
}

/// What a chain evaluates to, walking `offsets` from `addr`, where `mem(a)` is
/// the pointer-sized value read at `a` (`None` when the read fails).
pub open spec fn walk_from(addr: usize, offsets: Seq<usize>, mem: spec_fn(usize) -> Option<usize>) -> Option<usize>
    decreases offsets.len(),
{
    if offsets.len() == 0 {
        Some(addr)
    } else {
        match mem(addr) {
            None => None,
            Some(v) => walk_from(wrap_add(v, offsets[0]), offsets.drop_first(), mem),
        }
    }
}

/// A base address and the offsets applied after each dereference.
#[derive(Clone, Debug)]
pub struct PointerChain {
    pub base: usize,
    pub offsets: Vec<usize>,
}

/// Progress of an evaluation: the current address and how many offsets are
/// already applied.
#[derive(Clone, Copy, Debug)]
pub struct ChainWalk {
    pub addr: usize,
    pub next: usize,
}

/// What the evaluation needs next.
#[derive(Clone, Copy, Debug, PartialEq, Eq)]
pub enum WalkStep {
    /// Read a pointer-sized value at this address and pass it to `advance`.
    Read(usize),
    /// The chain evaluated to this address.
    Done(usize),
}

impl PointerChain {
    /// The chain's evaluation with memory `mem`.
    pub open spec fn eval_spec(self, mem: spec_fn(usize) -> Option<usize>) -> Option<usize> {
        walk_from(self.base, self.offsets@, mem)
    }

    /// A chain from a list of addresses: the first is the base, the rest offsets.
    pub fn new(chain: &[usize]) -> (c: PointerChain)
        requires
            chain@.len() >= 1,
        ensures
            c.base == chain@[0],
            c.offsets@ == chain@.drop_first(),
    {
        let mut offsets: Vec<usize> = Vec::new();
        let mut i: usize = 1;
        while i < chain.len()
            invariant
                1 <= i <= chain@.len(),
                offsets@ =~= chain@.subrange(1, i as int),
            decreases chain@.len() - i,
        {
            offsets.push(chain[i]);
            i = i + 1;
        }
        PointerChain { base: chain[0], offsets }
    }

    /// The same chain, for a datum of another type.
    pub fn cast(&self) -> (c: PointerChain)
        ensures
            c.base == self.base,
            c.offsets@ == self.offsets@,
    {
        PointerChain { base: self.base, offsets: copy_offsets(&self.offsets) }
    }

    /// Starts an evaluation at the base address.
    pub fn start(&self) -> (w: ChainWalk)
        ensures
            w.addr == self.base,
            w.next == 0,
    {
        ChainWalk { addr: self.base, next: 0 }
    }

    /// Whether the evaluation needs another read or is finished.
    pub fn step(&self, w: &ChainWalk) -> (s: WalkStep)
        requires
            w.next <= self.offsets@.len(),
        ensures
            w.next < self.offsets@.len() ==> s == WalkStep::Read(w.addr),
            w.next == self.offsets@.len() ==> s == WalkStep::Done(w.addr),
    {
        if w.next < self.offsets.len() {
            WalkStep::Read(w.addr)
        } else {
            WalkStep::Done(w.addr)
        }
    }

    /// Applies the next offset to `value`, the pointer read at `w.addr`.
    pub fn advance(&self, w: &ChainWalk, value: usize) -> (r: ChainWalk)
        requires
            w.next < self.offsets@.len(),
        ensures
            r.addr == wrap_add(value, self.offsets@[w.next as int]),
            r.next == w.next + 1,
    {
        let len = self.offsets.len();
        assert(w.next < len);
        ChainWalk { addr: value.wrapping_add(self.offsets[w.next]), next: w.next + 1 }
    }
}

/// A copy of an offset list.
pub fn copy_offsets(v: &Vec<usize>) -> (r: Vec<usize>)
    ensures
        r@ == v@,
{
    let mut r: Vec<usize> = Vec::new();
    let mut i: usize = 0;
    while i < v.len()
        invariant
            0 <= i <= v@.len(),
            r@ =~= v@.subrange(0, i as int),
        decreases v@.len() - i,
    {
        r.push(v[i]);
        i = i + 1;
    }
    assert(r@ =~= v@);
    r
}

/// A walk is on track when what is left of it evaluates to what the whole
/// chain evaluates to.
pub open spec fn on_track(c: PointerChain, w: ChainWalk, mem: spec_fn(usize) -> Option<usize>) -> bool {
    w.next <= c.offsets@.len() && walk_from(w.addr, c.offsets@.skip(w.next as int), mem) == c.eval_spec(mem)
}

/// The walk that `start` begins is on track.
pub proof fn lemma_walk_starts_on_track(c: PointerChain, mem: spec_fn(usize) -> Option<usize>)
    ensures
        on_track(c, ChainWalk { addr: c.base, next: 0 }, mem),
{
    assert(c.offsets@.skip(0) =~= c.offsets@);
}

/// Driving a walk with `step` evaluates the chain: from a walk on track,
/// `Done(a)` means the chain evaluates to `a`, and a failed read at the
/// address `Read` asks for means it evaluates to nothing.
pub proof fn lemma_walk_follows_eval(c: PointerChain, w: ChainWalk, mem: spec_fn(usize) -> Option<usize>)
    requires
        on_track(c, w, mem),
    ensures
        w.next == c.offsets@.len() ==> c.eval_spec(mem) == Some(w.addr),
        w.next < c.offsets@.len() && mem(w.addr) is None ==> c.eval_spec(mem) is None,
{
    if w.next == c.offsets@.len() {
        assert(c.offsets@.skip(w.next as int).len() == 0);
    }
}

/// Advancing a walk on track with the value read at its address, as
/// `advance` does, keeps it on track.
pub proof fn lemma_advance_on_track(c: PointerChain, w: ChainWalk, v: usize, w2: ChainWalk, mem: spec_fn(usize) -> Option<usize>)
    requires
        on_track(c, w, mem),
        w.next < c.offsets@.len(),
        mem(w.addr) == Some(v),
        w2.addr == wrap_add(v, c.offsets@[w.next as int]),
        w2.next == w.next + 1,
    ensures
        on_track(c, w2, mem),
{
    let s = c.offsets@.skip(w.next as int);
    assert(s.drop_first() =~= c.offsets@.skip(w.next + 1));
    assert(s[0] == c.offsets@[w.next as int]);
}

/// A walk that has applied `w.next` offsets at `w.addr` ends where the whole
/// chain ends: after a successful read of `v` at `w.addr`, advancing keeps the
/// remaining evaluation unchanged.
pub proof fn lemma_advance_keeps_result(c: PointerChain, w: ChainWalk, v: usize, mem: spec_fn(usize) -> Option<usize>)
    requires
        w.next < c.offsets@.len(),
        mem(w.addr) == Some(v),
    ensures
        walk_from(w.addr, c.offsets@.skip(w.next as int), mem)
            == walk_from(wrap_add(v, c.offsets@[w.next as int]), c.offsets@.skip(w.next + 1), mem),
{
    let s = c.offsets@.skip(w.next as int);
    assert(s.drop_first() =~= c.offsets@.skip(w.next + 1));
    assert(s[0] == c.offsets@[w.next as int]);
}

/// Evaluating a chain through `a` then through `b` is evaluating it through
/// `a + b`: a chain may be split anywhere.
pub proof fn lemma_walk_concat(addr: usize, a: Seq<usize>, b: Seq<usize>, mem: spec_fn(usize) -> Option<usize>)
    ensures
        walk_from(addr, a + b, mem) == match walk_from(addr, a, mem) {
            None => None,
            Some(mid) => walk_from(mid, b, mem),
        },
    decreases a.len(),
{
    if a.len() == 0 {
        assert(a + b =~= b);
    } else {
        assert((a + b).drop_first() =~= a.drop_first() + b);
        assert((a + b)[0] == a[0]);
        match mem(addr) {
            None => {},
            Some(v) => {
                lemma_walk_concat(wrap_add(v, a[0]), a.drop_first(), b, mem);
            },
        }
    }
}

/// A chain without offsets evaluates to its base without reading memory.
pub proof fn lemma_no_offsets(c: PointerChain, mem: spec_fn(usize) -> Option<usize>)
    requires
        c.offsets@.len() == 0,
    ensures
        c.eval_spec(mem) == Some(c.base),
{
}


/// Equality of two byte strings.
pub fn bytes_equal(a: &[u8], b: &[u8]) -> (r: bool)
    ensures
        r == (a@ == b@),
{
    if a.len() != b.len() {
        return false;
    }
    let mut i: usize = 0;
    while i < a.len()
        invariant
            a@.len() == b@.len(),
            0 <= i <= a@.len(),
            forall|j: int| 0 <= j < i ==> a@[j] == b@[j],
        decreases a@.len() - i,
    {
        if a[i] != b[i] {
            return false;
        }
        i = i + 1;
    }
    assert(a@ =~= b@);
    true
}

/// A copy of a byte string.
pub fn copy_bytes(a: &[u8]) -> (r: Vec<u8>)
    ensures
        r@ == a@,
{
    let mut r: Vec<u8> = Vec::new();
    let mut i: usize = 0;
    while i < a.len()
        invariant
            0 <= i <= a@.len(),
            r@ =~= a@.subrange(0, i as int),
        decreases a@.len() - i,
    {
        r.push(a[i]);
        i = i + 1;
    }
    assert(r@ =~= a@);
    r
}

/// Something that shows an on/off state through the bytes at a chain's address
/// and changes it by writing bytes there. The caller reads `width()` bytes at
/// the chain's address (`None` when the read fails) and performs the writes
/// these methods decide.
pub trait FlagToggler {
    /// How many bytes the flag reads and writes.
    spec fn width_spec(&self) -> nat;

    /// The state that `bytes` show.
    spec fn state_of(&self, bytes: Seq<u8>) -> bool;

    /// What `set(flag)` writes over `bytes`, if anything.
    spec fn set_write(&self, bytes: Seq<u8>, flag: bool) -> Option<Seq<u8>>;

    /// What `toggle` reports and writes over `bytes`.
    spec fn toggle_outcome(&self, bytes: Seq<u8>) -> (bool, Seq<u8>);

    fn width(&self) -> (w: usize)
        ensures
            w == self.width_spec(),
    ;

    /// The flag's state, given what was read at its address.
    fn get(&self, read: Option<&[u8]>) -> (r: Option<bool>)
        requires
            read matches Some(b) ==> b@.len() == self.width_spec(),
        ensures
            r == match read {
                None => None::<bool>,
                Some(b) => Some(self.state_of(b@)),
            },
    ;

    /// Flips the flag: the value reported and the bytes to write, if the read
    /// succeeded.
    fn toggle(&self, read: Option<&[u8]>) -> (r: Option<(bool, Vec<u8>)>)
        requires
            read matches Some(b) ==> b@.len() == self.width_spec(),
        ensures
            match read {
                None => r is None,
                Some(b) => r matches Some(o) && o.0 == self.toggle_outcome(b@).0
                    && o.1@ == self.toggle_outcome(b@).1,
            },
    ;

    /// Sets the flag to `flag`: the bytes to write, if any.
    fn set(&self, read: Option<&[u8]>, flag: bool) -> (r: Option<Vec<u8>>)
        requires
            read matches Some(b) ==> b@.len() == self.width_spec(),
        ensures
            match read {
                None => r is None,
                Some(b) => match self.set_write(b@, flag) {
                    None => r is None,
                    Some(w) => r matches Some(v) && v@ == w,
                },
            },
    ;
}

/// A bit mask within the byte that a chain points to.
#[derive(Clone, Debug)]
pub struct Bitflag {
    pub chain: PointerChain,
    pub mask: u8,
}

impl Bitflag {
    pub fn new(chain: PointerChain, mask: u8) -> (b: Bitflag)
        ensures
            b.chain == chain,
            b.mask == mask,
    {
        Bitflag { chain, mask }
    }

    /// Whether all the mask's bits are set in `x`.
    pub open spec fn is_set(self, x: u8) -> bool {
        x & self.mask == self.mask
    }

    /// `x` with the mask's bits set (`flag`) or cleared.
    pub open spec fn with_flag(self, x: u8, flag: bool) -> u8 {
        if flag {
            x | self.mask
        } else {
            x & !self.mask
        }
    }
}

impl FlagToggler for Bitflag {
    open spec fn width_spec(&self) -> nat {
        1
    }

    open spec fn state_of(&self, bytes: Seq<u8>) -> bool {
        self.is_set(bytes[0])
    }

    open spec fn set_write(&self, bytes: Seq<u8>, flag: bool) -> Option<Seq<u8>> {
        Some(seq![self.with_flag(bytes[0], flag)])
    }

    open spec fn toggle_outcome(&self, bytes: Seq<u8>) -> (bool, Seq<u8>) {
        (bytes[0] == self.mask, seq![bytes[0] ^ self.mask])
    }

    fn width(&self) -> (w: usize) {
        1
    }

    fn get(&self, read: Option<&[u8]>) -> (r: Option<bool>) {
        match read {
            None => None,
            Some(b) => Some(b[0] & self.mask == self.mask),
        }
    }

    fn toggle(&self, read: Option<&[u8]>) -> (r: Option<(bool, Vec<u8>)>) {
        match read {
            None => None,
            Some(b) => {
                let x = b[0];
                let mut w: Vec<u8> = Vec::new();
                w.push(x ^ self.mask);
                assert(w@ =~= seq![x ^ self.mask]);
                Some((x == self.mask, w))
            },
        }
    }

    fn set(&self, read: Option<&[u8]>, flag: bool) -> (r: Option<Vec<u8>>) {
        match read {
            None => None,
            Some(b) => {
                let x = b[0];
                let v = if flag {
                    x | self.mask
                } else {
                    x & !self.mask
                };
                let mut w: Vec<u8> = Vec::new();
                w.push(v);
                assert(w@ =~= seq![v]);
                Some(w)
            },
        }
    }
}

/// A patch that writes `on` over a byte string, and `off` to undo it.
#[derive(Clone, Debug)]
pub struct BytesPatch {
    pub chain: PointerChain,
    pub on: Vec<u8>,
    pub off: Vec<u8>,
}

impl BytesPatch {
    /// A patch whose `off` bytes are those read at the chain's address now, or
    /// zeros when that read fails.
    pub fn new(chain: PointerChain, bytes_on: Vec<u8>, current: Option<&[u8]>) -> (p: BytesPatch)
        requires
            current matches Some(c) ==> c@.len() == bytes_on@.len(),
        ensures
            p.chain == chain,
            p.on@ == bytes_on@,
            p.off@ == match current {
                Some(c) => c@,
                None => Seq::new(bytes_on@.len(), |i: int| 0u8),
            },
    {
        let off = match current {
            Some(c) => copy_bytes(c),
            None => {
                let mut z: Vec<u8> = Vec::new();
                let mut i: usize = 0;
                while i < bytes_on.len()
                    invariant
                        0 <= i <= bytes_on@.len(),
                        z@ =~= Seq::new(i as nat, |k: int| 0u8),
                    decreases bytes_on@.len() - i,
                {
                    z.push(0u8);
                    i = i + 1;
                }
                z
            },
        };
        BytesPatch { chain, on: bytes_on, off }
    }

    /// Patch and original bytes have the same length.
    pub open spec fn wf(self) -> bool {
        self.on@.len() == self.off@.len()
    }
}

impl FlagToggler for BytesPatch {
    open spec fn width_spec(&self) -> nat {
        self.on@.len()
    }

    open spec fn state_of(&self, bytes: Seq<u8>) -> bool {
        bytes == self.on@
    }

    open spec fn set_write(&self, bytes: Seq<u8>, flag: bool) -> Option<Seq<u8>> {
        if (bytes == self.on@) != flag {
            Some(if flag { self.on@ } else { self.off@ })
        } else {
            None
        }
    }

    open spec fn toggle_outcome(&self, bytes: Seq<u8>) -> (bool, Seq<u8>) {
        if bytes == self.on@ {
            (false, self.off@)
        } else {
            (true, self.on@)
        }
    }

    fn width(&self) -> (w: usize) {
        self.on.len()
    }

    fn get(&self, read: Option<&[u8]>) -> (r: Option<bool>) {
        match read {
            None => None,
            Some(b) => Some(bytes_equal(b, self.on.as_slice())),
        }
    }

    fn toggle(&self, read: Option<&[u8]>) -> (r: Option<(bool, Vec<u8>)>) {
        match read {
            None => None,
            Some(b) => {
                let was_on = bytes_equal(b, self.on.as_slice());
                if was_on {
                    Some((false, copy_bytes(self.off.as_slice())))
                } else {
                    Some((true, copy_bytes(self.on.as_slice())))
                }
            },
        }
    }

    fn set(&self, read: Option<&[u8]>, flag: bool) -> (r: Option<Vec<u8>>) {
        match read {
            None => None,
            Some(b) => {
                if bytes_equal(b, self.on.as_slice()) != flag {
                    if flag {
                        Some(copy_bytes(self.on.as_slice()))
                    } else {
                        Some(copy_bytes(self.off.as_slice()))
                    }
                } else {
                    None
                }
            },
        }
    }
}

/// Setting a bit flag and reading it back gives the state that was set (for a
/// non-empty mask), and leaves the bits outside the mask as they were.
pub proof fn lemma_bitflag_set_get(f: Bitflag, x: u8, flag: bool)
    requires
        f.mask != 0,
    ensures
        f.is_set(f.with_flag(x, flag)) == flag,
        f.with_flag(x, flag) & !f.mask == x & !f.mask,
{
    let m = f.mask;
    assert((x | m) & m == m) by (bit_vector);
    assert(m != 0 ==> (x & !m) & m != m) by (bit_vector);
    assert((x | m) & !m == x & !m) by (bit_vector);
    assert((x & !m) & !m == x & !m) by (bit_vector);
}

/// Toggling a bit flag twice restores the byte.
pub proof fn lemma_bitflag_toggle_twice(f: Bitflag, x: u8)
    ensures
        f.toggle_outcome(f.toggle_outcome(seq![x]).1).1 == seq![x],
{
    let m = f.mask;
    assert((x ^ m) ^ m == x) by (bit_vector);
    assert(seq![x ^ m][0] == x ^ m);
    assert(seq![x][0] == x);
}

/// For a one-bit mask, toggling flips the state the flag shows.
pub proof fn lemma_bitflag_toggle_flips(f: Bitflag, x: u8)
    requires
        f.mask == 1 || f.mask == 2 || f.mask == 4 || f.mask == 8 || f.mask == 16 || f.mask == 32
            || f.mask == 64 || f.mask == 128,
    ensures
        f.is_set(x ^ f.mask) == !f.is_set(x),
{
    let m = f.mask;
    assert((m == 1 || m == 2 || m == 4 || m == 8 || m == 16 || m == 32 || m == 64 || m == 128)
        ==> (((x ^ m) & m == m) == !(x & m == m))) by (bit_vector);
}

/// Setting a byte patch leaves memory showing the state that was set, for a
/// patch whose `on` and `off` bytes differ.
pub proof fn lemma_patch_set_get(p: BytesPatch, bytes: Seq<u8>, flag: bool)
    requires
        p.on@ != p.off@,
    ensures
        p.state_of(match p.set_write(bytes, flag) {
            None => bytes,
            Some(w) => w,
        }) == flag,
{
}

/// Toggling a byte patch reports and produces the opposite state, for a patch
/// whose `on` and `off` bytes differ.
pub proof fn lemma_patch_toggle_flips(p: BytesPatch, bytes: Seq<u8>)
    requires
        p.on@ != p.off@,
    ensures
        p.toggle_outcome(bytes).0 == !p.state_of(bytes),
        p.state_of(p.toggle_outcome(bytes).1) == p.toggle_outcome(bytes).0,
{
}

} // verus!
