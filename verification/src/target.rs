//! The target widget: a detour that records the entity the player targets,
//! and the chains that read that entity's state.

use vstd::prelude::*;
use crate::memedit::PointerChain;
use crate::pointers::{chain_is, chain3};

verus! {

/// The `n` little-endian bytes of `v`.
pub open spec fn le_bytes(v: nat, n: nat) -> Seq<u8>
    decreases n,
{
    if n == 0 {
        Seq::empty()
    } else {
        seq![(v % 256) as u8] + le_bytes(v / 256, (n - 1) as nat)
    }
}

/// The integer that little-endian bytes `b` encode.
pub open spec fn le_value(b: Seq<u8>) -> nat
    decreases b.len(),
{
    if b.len() == 0 {
        0
    } else {
        b[0] as nat + 256 * le_value(b.drop_first())
    }
}

/// Decoding the little-endian bytes of a value that fits gives the value back.
pub proof fn lemma_le_roundtrip(v: nat, n: nat)
    requires
        v < vstd::arithmetic::power2::pow2(8 * n),
    ensures
        le_bytes(v, n).len() == n,
        le_value(le_bytes(v, n)) == v,
    decreases n,
{
    vstd::arithmetic::power2::lemma_pow2_pos(8 * n);
    if n == 0 {
        vstd::arithmetic::power2::lemma_pow2(0);
        assert(vstd::arithmetic::power::pow(2, 0) == 1) by {
            vstd::arithmetic::power::lemma_pow0(2);
        }
    } else {
        let rest = (v / 256) as nat;
        assert(vstd::arithmetic::power2::pow2(8 * n) == 256 * vstd::arithmetic::power2::pow2(8 * (n - 1) as nat)) by {
            vstd::arithmetic::power2::lemma_pow2_adds(8, 8 * (n - 1) as nat);
            vstd::arithmetic::power2::lemma2_to64();
            assert(8 + 8 * (n - 1) as nat == 8 * n) by (nonlinear_arith)
                requires n >= 1;
        }
        assert(rest < vstd::arithmetic::power2::pow2(8 * (n - 1) as nat)) by (nonlinear_arith)
            requires
                v < 256 * vstd::arithmetic::power2::pow2(8 * (n - 1) as nat),
                rest == v / 256,
        ;
        lemma_le_roundtrip(rest, (n - 1) as nat);
        let b = le_bytes(v, n);
        assert(b.drop_first() =~= le_bytes(rest, (n - 1) as nat));
        assert(v == v % 256 + 256 * (v / 256)) by (nonlinear_arith);
    }
}

/// The four little-endian bytes of `val`.
pub fn u32_to_array(val: u32) -> (buf: [u8; 4])
    ensures
        buf@ == le_bytes(val as nat, 4),
{
    let b0 = (val & 0xff) as u8;
    let b1 = ((val >> 8u32) & 0xff) as u8;
    let b2 = ((val >> 16u32) & 0xff) as u8;
    let b3 = ((val >> 24u32) & 0xff) as u8;
    assert(val & 0xff == val % 256) by (bit_vector);
    assert((val >> 8u32) & 0xff == (val / 256) % 256) by (bit_vector);
    assert((val >> 16u32) & 0xff == (val / 65536) % 256) by (bit_vector);
    assert((val >> 24u32) & 0xff == (val / 16777216) % 256) by (bit_vector);
    assert((val as nat / 256) / 256 == val as nat / 65536) by (nonlinear_arith);
    assert((val as nat / 65536) / 256 == val as nat / 16777216) by (nonlinear_arith);
    let buf = [b0, b1, b2, b3];
    assert(buf@ =~= le_bytes(val as nat, 4)) by {
        reveal_with_fuel(le_bytes, 5);
    }
    buf
}

/// The eight little-endian bytes of `val`.
pub fn u64_to_array(val: u64) -> (buf: [u8; 8])
    ensures
        buf@ == le_bytes(val as nat, 8),
{
    let lo = u32_to_array((val & 0xffff_ffff) as u32);
    let hi = u32_to_array((val >> 32u64) as u32);
    assert(val & 0xffff_ffff == val % 0x1_0000_0000) by (bit_vector);
    assert(val >> 32u64 == val / 0x1_0000_0000) by (bit_vector);
    let buf = [lo[0], lo[1], lo[2], lo[3], hi[0], hi[1], hi[2], hi[3]];
    proof {
        lemma_le_split(val as nat);
    }
    assert(buf@ =~= le_bytes(val as nat, 8));
    buf
}

/// The eight bytes of `v` are the four bytes of its low half, then the four
/// bytes of its high half.
proof fn lemma_le_split(v: nat)
    ensures
        le_bytes(v, 8) == le_bytes(v % 0x1_0000_0000, 4) + le_bytes(v / 0x1_0000_0000, 4),
{
    reveal_with_fuel(le_bytes, 9);
    let lo = v % 0x1_0000_0000;
    let hi = v / 0x1_0000_0000;
    assert(v % 256 == lo % 256) by (nonlinear_arith) requires lo == v % 0x1_0000_0000;
    assert((v / 256) % 256 == (lo / 256) % 256) by (nonlinear_arith) requires lo == v % 0x1_0000_0000;
    assert((v / 256 / 256) % 256 == (lo / 256 / 256) % 256) by (nonlinear_arith) requires lo == v % 0x1_0000_0000;
    assert((v / 256 / 256 / 256) % 256 == (lo / 256 / 256 / 256) % 256) by (nonlinear_arith) requires lo == v % 0x1_0000_0000;
    assert(v / 256 / 256 / 256 / 256 == hi) by (nonlinear_arith) requires hi == v / 0x1_0000_0000;
    assert(le_bytes(v, 8) =~= le_bytes(lo, 4) + le_bytes(hi, 4));
}

/// The 32-bit displacement of a jump from an instruction of length `len` at
/// `from` to `to` (taken modulo 2^32).
pub open spec fn rel32(to: usize, from: usize, len: u64) -> u32 {
    ((to - from - len) % 0x1_0000_0000) as u32
}

/// The 32-bit displacement of a jump from an instruction of length `len` at
/// `from` to `to`.
pub fn jump_displacement(to: usize, from: usize, len: u64) -> (r: u32)
    ensures
        r == rel32(to, from, len),
{
    let t = to as u64;
    let f = from as u64;
    let w1 = t.wrapping_sub(f);
    let w2 = w1.wrapping_sub(len);
    let r = (w2 & 0xffff_ffff) as u32;
    assert(w2 & 0xffff_ffff == w2 % 0x1_0000_0000) by (bit_vector);
    proof {
        let m: int = 0x1_0000_0000;
        let k: int = if t < f { 1 } else { 0 };
        let j: int = if (w1 as int) < (len as int) { 1 } else { 0 };
        assert(w2 as int == (to - from - len) + (k + j) * 0x1_0000_0000_0000_0000);
        assert(w2 as int == m * ((k + j) * 0x1_0000_0000) + (to - from - len));
        vstd::arithmetic::div_mod::lemma_mod_multiples_vanish((k + j) * 0x1_0000_0000, to - from - len, m);
    }
    r
}

/// The bytes written over the hooked instruction: a jump to the allocated
/// code, then six `nop`s.
pub open spec fn detour_bytes_spec(detour_addr: usize, alloc_addr: usize) -> Seq<u8> {
    seq![0xE9u8] + le_bytes(rel32(alloc_addr, detour_addr, 5) as nat, 4)
        + seq![0x90u8, 0x90u8, 0x90u8, 0x90u8, 0x90u8, 0x90u8]
}

/// The allocated code: store `rax` at `data_ptr`, run the hooked instruction
/// (the last seven original bytes), jump back after the detour.
pub open spec fn patch_bytes_spec(detour_addr: usize, alloc_addr: usize, data_ptr: u64, orig: Seq<u8>) -> Seq<u8> {
    seq![0x48u8, 0xa3u8] + le_bytes(data_ptr as nat, 8) + orig.subrange(4, 11) + seq![0xe9u8]
        + le_bytes(rel32(detour_addr, alloc_addr, 11) as nat, 4)
}

/// The chains to an entity's hit, stamina and focus points (current, _, max),
/// resistances and poise meter.
#[derive(Clone, Debug)]
pub struct EntityChains {
    pub hp: PointerChain,
    pub sp: PointerChain,
    pub mp: PointerChain,
    pub res: PointerChain,
    pub poise: PointerChain,
}

/// What the target widget asks for when its hotkey is released.
#[derive(Clone, Copy, Debug, PartialEq, Eq)]
pub enum TargetAction {
    Enable,
    Disable,
    Nothing,
}

/// State of the target widget.
#[derive(Clone, Copy, Debug)]
pub struct Target {
    pub is_enabled: bool,
    pub entity_addr: u64,
    pub detour_orig_data: [u8; 11],
}

impl Target {
    /// Disabled, with no entity recorded.
    pub fn new() -> (t: Target)
        ensures
            !t.is_enabled,
            t.entity_addr == 0,
            t.detour_orig_data@ == Seq::new(11, |i: int| 0u8),
    {
        let t = Target { is_enabled: false, entity_addr: 0, detour_orig_data: [0u8; 11] };
        assert(t.detour_orig_data@ =~= Seq::new(11, |i: int| 0u8));
        t
    }

    /// Installs the detour: `orig` is what was read at `detour_addr`,
    /// `alloc_addr` the allocated code's address and `data_ptr` where the
    /// entity address is to be stored. Returns the code to write at
    /// `alloc_addr` and the bytes to write at `detour_addr`.
    pub fn enable(&mut self, orig: [u8; 11], detour_addr: usize, alloc_addr: usize, data_ptr: u64) -> (r: (Vec<u8>, Vec<u8>))
        ensures
            final(self).is_enabled,
            final(self).detour_orig_data == orig,
            final(self).entity_addr == old(self).entity_addr,
            r.0@ == patch_bytes_spec(detour_addr, alloc_addr, data_ptr, orig@),
            r.1@ == detour_bytes_spec(detour_addr, alloc_addr),
            r.0@.len() == 22,
            r.1@.len() == 11,
    {
        self.detour_orig_data = orig;
        let going = u32_to_array(jump_displacement(alloc_addr, detour_addr, 5));
        let returning = u32_to_array(jump_displacement(detour_addr, alloc_addr, 11));
        let data = u64_to_array(data_ptr);
        let mut detour: Vec<u8> = Vec::new();
        detour.push(0xE9);
        let mut i: usize = 0;
        while i < 4
            invariant
                0 <= i <= 4,
                detour@ =~= seq![0xE9u8] + going@.subrange(0, i as int),
            decreases 4 - i,
        {
            detour.push(going[i]);
            i = i + 1;
        }
        let mut i: usize = 0;
        while i < 6
            invariant
                0 <= i <= 6,
                detour@ =~= seq![0xE9u8] + going@ + Seq::new(i as nat, |k: int| 0x90u8),
            decreases 6 - i,
        {
            detour.push(0x90);
            i = i + 1;
        }
        let mut patch: Vec<u8> = Vec::new();
        patch.push(0x48);
        patch.push(0xa3);
        let mut i: usize = 0;
        while i < 8
            invariant
                0 <= i <= 8,
                patch@ =~= seq![0x48u8, 0xa3u8] + data@.subrange(0, i as int),
            decreases 8 - i,
        {
            patch.push(data[i]);
            i = i + 1;
        }
        let mut i: usize = 4;
        while i < 11
            invariant
                4 <= i <= 11,
                patch@ =~= seq![0x48u8, 0xa3u8] + data@ + orig@.subrange(4, i as int),
            decreases 11 - i,
        {
            patch.push(orig[i]);
            i = i + 1;
        }
        patch.push(0xe9);
        let mut i: usize = 0;
        while i < 4
            invariant
                0 <= i <= 4,
                patch@ =~= seq![0x48u8, 0xa3u8] + data@ + orig@.subrange(4, 11) + seq![0xe9u8]
                    + returning@.subrange(0, i as int),
            decreases 4 - i,
        {
            patch.push(returning[i]);
            i = i + 1;
        }
        self.is_enabled = true;
        assert(Seq::new(6, |k: int| 0x90u8) =~= seq![0x90u8, 0x90u8, 0x90u8, 0x90u8, 0x90u8, 0x90u8]);
        (patch, detour)
    }

    /// Removes the detour: returns the original bytes to write back.
    pub fn disable(&mut self) -> (r: [u8; 11])
        ensures
            !final(self).is_enabled,
            final(self).detour_orig_data == old(self).detour_orig_data,
            final(self).entity_addr == old(self).entity_addr,
            r == old(self).detour_orig_data,
    {
        self.is_enabled = false;
        self.detour_orig_data
    }

    /// The hotkey flips the detour: disable when enabled, enable otherwise.
    pub fn interact(&self, hotkey_released: bool) -> (a: TargetAction)
        ensures
            !hotkey_released ==> a == TargetAction::Nothing,
            hotkey_released && self.is_enabled ==> a == TargetAction::Disable,
            hotkey_released && !self.is_enabled ==> a == TargetAction::Enable,
    {
        if hotkey_released {
            if self.is_enabled {
                TargetAction::Disable
            } else {
                TargetAction::Enable
            }
        } else {
            TargetAction::Nothing
        }
    }

    /// The chains to the recorded entity's data: none while disabled or before
    /// an entity was recorded.
    pub fn entity_chains(&self) -> (r: Option<EntityChains>)
        requires
            self.entity_addr <= usize::MAX - 0x190,
        ensures
            (!self.is_enabled || self.entity_addr == 0) ==> r is None,
            (self.is_enabled && self.entity_addr != 0) ==> (r matches Some(c) && {
                let e = (self.entity_addr + 0x190) as usize;
                &&& chain_is(c.hp, seq![e, 0, 0x138])
                &&& chain_is(c.sp, seq![e, 0, 0x154])
                &&& chain_is(c.mp, seq![e, 0, 0x148])
                &&& chain_is(c.res, seq![e, 0x20, 0x10])
                &&& chain_is(c.poise, seq![e, 0x40, 0x10])
            }),
    {
        if !self.is_enabled || self.entity_addr == 0 {
            return None;
        }
        let e = self.entity_addr as usize + 0x190;
        Some(EntityChains {
            hp: chain3(e, 0, 0x138),
            sp: chain3(e, 0, 0x154),
            mp: chain3(e, 0, 0x148),
            res: chain3(e, 0x20, 0x10),
            poise: chain3(e, 0x40, 0x10),
        })
    }
}

/// Current and maximum of a `[current, _, max]` triple, zeros when the read
/// failed.
pub fn current_and_max(read: Option<[u32; 3]>) -> (r: (u32, u32))
    ensures
        r == match read {
            None => (0u32, 0u32),
            Some(a) => (a@[0], a@[2]),
        },
{
    match read {
        None => (0, 0),
        Some(a) => (a[0], a[2]),
    }
}

} // verus!
