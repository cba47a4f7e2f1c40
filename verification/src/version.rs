//! Game versions: which executable versions are supported, how the version
//! is read off the executable's file version, and where it is kept once known.

use vstd::prelude::*;
use crate::numfmt::{push_char, push_radix, push_str, radix_text};

verus! {

/// A supported game version.
#[allow(non_camel_case_types)]
#[derive(Clone, Copy, Debug, PartialEq, Eq)]
pub enum Version {
    V1_02_0,
    V1_02_1,
    V1_02_2,
    V1_02_3,
    V1_03_0,
    V1_03_1,
    V1_03_2,
    V1_04_0,
    V1_04_1,
    V1_05_0,
    V1_06_0,
    V1_07_0,
    V1_08_0,
    V1_08_1,
    V1_09_0,
    V1_09_1,
    V2_00_0,
    V2_00_1,
    V2_02_0,
    V2_02_3,
    V2_03_0,
    V2_04_0,
    V2_05_0,
    V2_06_0,
}

impl Version {
    /// `(major, minor, patch)` of this version.
    pub open spec fn triple(self) -> (u32, u32, u32) {
        match self {
            Version::V1_02_0 => (1, 2, 0),
            Version::V1_02_1 => (1, 2, 1),
            Version::V1_02_2 => (1, 2, 2),
            Version::V1_02_3 => (1, 2, 3),
            Version::V1_03_0 => (1, 3, 0),
            Version::V1_03_1 => (1, 3, 1),
            Version::V1_03_2 => (1, 3, 2),
            Version::V1_04_0 => (1, 4, 0),
            Version::V1_04_1 => (1, 4, 1),
            Version::V1_05_0 => (1, 5, 0),
            Version::V1_06_0 => (1, 6, 0),
            Version::V1_07_0 => (1, 7, 0),
            Version::V1_08_0 => (1, 8, 0),
            Version::V1_08_1 => (1, 8, 1),
            Version::V1_09_0 => (1, 9, 0),
            Version::V1_09_1 => (1, 9, 1),
            Version::V2_00_0 => (2, 0, 0),
            Version::V2_00_1 => (2, 0, 1),
            Version::V2_02_0 => (2, 2, 0),
            Version::V2_02_3 => (2, 2, 3),
            Version::V2_03_0 => (2, 3, 0),
            Version::V2_04_0 => (2, 4, 0),
            Version::V2_05_0 => (2, 5, 0),
            Version::V2_06_0 => (2, 6, 0),
        }
    }

    /// `(major, minor, patch)` of this version.
    pub fn to_triple(self) -> (t: (u32, u32, u32))
        ensures
            t == self.triple(),
    {
        match self {
            Version::V1_02_0 => (1, 2, 0),
            Version::V1_02_1 => (1, 2, 1),
            Version::V1_02_2 => (1, 2, 2),
            Version::V1_02_3 => (1, 2, 3),
            Version::V1_03_0 => (1, 3, 0),
            Version::V1_03_1 => (1, 3, 1),
            Version::V1_03_2 => (1, 3, 2),
            Version::V1_04_0 => (1, 4, 0),
            Version::V1_04_1 => (1, 4, 1),
            Version::V1_05_0 => (1, 5, 0),
            Version::V1_06_0 => (1, 6, 0),
            Version::V1_07_0 => (1, 7, 0),
            Version::V1_08_0 => (1, 8, 0),
            Version::V1_08_1 => (1, 8, 1),
            Version::V1_09_0 => (1, 9, 0),
            Version::V1_09_1 => (1, 9, 1),
            Version::V2_00_0 => (2, 0, 0),
            Version::V2_00_1 => (2, 0, 1),
            Version::V2_02_0 => (2, 2, 0),
            Version::V2_02_3 => (2, 2, 3),
            Version::V2_03_0 => (2, 3, 0),
            Version::V2_04_0 => (2, 4, 0),
            Version::V2_05_0 => (2, 5, 0),
            Version::V2_06_0 => (2, 6, 0),
        }
    }

    /// The supported version with this `(major, minor, patch)`, or `Err(())`.
    pub fn try_from_triple(t: (u32, u32, u32)) -> (r: Result<Version, ()>)
        ensures
            r matches Ok(v) ==> v.triple() == t,
            r is Err ==> forall|v: Version| #[trigger] v.triple() != t,
    {
        match t {
            (1, 2, 0) => Ok(Version::V1_02_0),
            (1, 2, 1) => Ok(Version::V1_02_1),
            (1, 2, 2) => Ok(Version::V1_02_2),
            (1, 2, 3) => Ok(Version::V1_02_3),
            (1, 3, 0) => Ok(Version::V1_03_0),
            (1, 3, 1) => Ok(Version::V1_03_1),
            (1, 3, 2) => Ok(Version::V1_03_2),
            (1, 4, 0) => Ok(Version::V1_04_0),
            (1, 4, 1) => Ok(Version::V1_04_1),
            (1, 5, 0) => Ok(Version::V1_05_0),
            (1, 6, 0) => Ok(Version::V1_06_0),
            (1, 7, 0) => Ok(Version::V1_07_0),
            (1, 8, 0) => Ok(Version::V1_08_0),
            (1, 8, 1) => Ok(Version::V1_08_1),
            (1, 9, 0) => Ok(Version::V1_09_0),
            (1, 9, 1) => Ok(Version::V1_09_1),
            (2, 0, 0) => Ok(Version::V2_00_0),
            (2, 0, 1) => Ok(Version::V2_00_1),
            (2, 2, 0) => Ok(Version::V2_02_0),
            (2, 2, 3) => Ok(Version::V2_02_3),
            (2, 3, 0) => Ok(Version::V2_03_0),
            (2, 4, 0) => Ok(Version::V2_04_0),
            (2, 5, 0) => Ok(Version::V2_05_0),
            (2, 6, 0) => Ok(Version::V2_06_0),
            _ => Err(()),
        }
    }
}

/// Each version is the game release its name gives: `V<major>_<minor>_<patch>`
/// is release `major.minor.patch`.
pub proof fn lemma_version_numbers()
    ensures
        Version::V1_02_0.triple() == (1u32, 2u32, 0u32),
        Version::V1_02_1.triple() == (1u32, 2u32, 1u32),
        Version::V1_02_2.triple() == (1u32, 2u32, 2u32),
        Version::V1_02_3.triple() == (1u32, 2u32, 3u32),
        Version::V1_03_0.triple() == (1u32, 3u32, 0u32),
        Version::V1_03_1.triple() == (1u32, 3u32, 1u32),
        Version::V1_03_2.triple() == (1u32, 3u32, 2u32),
        Version::V1_04_0.triple() == (1u32, 4u32, 0u32),
        Version::V1_04_1.triple() == (1u32, 4u32, 1u32),
        Version::V1_05_0.triple() == (1u32, 5u32, 0u32),
        Version::V1_06_0.triple() == (1u32, 6u32, 0u32),
        Version::V1_07_0.triple() == (1u32, 7u32, 0u32),
        Version::V1_08_0.triple() == (1u32, 8u32, 0u32),
        Version::V1_08_1.triple() == (1u32, 8u32, 1u32),
        Version::V1_09_0.triple() == (1u32, 9u32, 0u32),
        Version::V1_09_1.triple() == (1u32, 9u32, 1u32),
        Version::V2_00_0.triple() == (2u32, 0u32, 0u32),
        Version::V2_00_1.triple() == (2u32, 0u32, 1u32),
        Version::V2_02_0.triple() == (2u32, 2u32, 0u32),
        Version::V2_02_3.triple() == (2u32, 2u32, 3u32),
        Version::V2_03_0.triple() == (2u32, 3u32, 0u32),
        Version::V2_04_0.triple() == (2u32, 4u32, 0u32),
        Version::V2_05_0.triple() == (2u32, 5u32, 0u32),
        Version::V2_06_0.triple() == (2u32, 6u32, 0u32),
{
}

/// Different versions have different numbers, and a version's numbers give the
/// version back.
pub proof fn lemma_triple_roundtrip(v: Version, w: Version)
    ensures
        v.triple() == w.triple() ==> v == w,
{
}

/// The `(major, minor, patch)` that the file version words `ms` (most
/// significant) and `ls` (least significant) hold.
pub open spec fn decode_file_version(ms: u32, ls: u32) -> (u32, u32, u32) {
    ((ms >> 16u32) & 0xffffu32, ms & 0xffffu32, (ls >> 16u32) & 0xffffu32)
}

/// Reads `(major, minor, patch)` off the executable's file version words.
pub fn file_version_triple(ms: u32, ls: u32) -> (t: (u32, u32, u32))
    ensures
        t == decode_file_version(ms, ls),
        t.0 == ms / 0x10000,
        t.1 == ms % 0x10000,
        t.2 == ls / 0x10000,
{
    assert((ms >> 16u32) & 0xffffu32 == ms / 0x10000) by (bit_vector);
    assert(ms & 0xffffu32 == ms % 0x10000) by (bit_vector);
    assert((ls >> 16u32) & 0xffffu32 == ls / 0x10000) by (bit_vector);
    ((ms >> 16) & 0xffff, ms & 0xffff, (ls >> 16) & 0xffff)
}

/// Where the detected version is kept once the executable was checked.
#[derive(Clone, Copy, Debug)]
pub struct VersionSlot {
    pub version: Option<Version>,
}

impl VersionSlot {
    /// No version detected yet.
    pub fn new() -> (s: VersionSlot)
        ensures
            s.version is None,
    {
        VersionSlot { version: None }
    }

    /// The version detected earlier, if any.
    pub fn cached(&self) -> (r: Option<Version>)
        ensures
            r == self.version,
    {
        self.version
    }

    /// The detected version: the one kept from before, or the one that the
    /// file version words give, which is then kept. An unsupported version is
    /// returned as `Err((major, minor, patch))` and nothing is kept.
    pub fn check_version(&mut self, ms: u32, ls: u32) -> (r: Result<Version, (u32, u32, u32)>)
        ensures
            old(self).version matches Some(v) ==> r == Ok::<Version, (u32, u32, u32)>(v)
                && final(self).version == old(self).version,
            old(self).version is None ==> match r {
                Ok(v) => v.triple() == decode_file_version(ms, ls)
                    && final(self).version == Some(v),
                Err(t) => t == decode_file_version(ms, ls)
                    && (forall|v: Version| #[trigger] v.triple() != t)
                    && final(self).version is None,
            },
    {
        if let Some(v) = self.version {
            return Ok(v);
        }
        let t = file_version_triple(ms, ls);
        match Version::try_from_triple(t) {
            Ok(v) => {
                self.version = Some(v);
                Ok(v)
            },
            Err(()) => Err(t),
        }
    }
}

/// The detected game version. The slot must hold one.
pub fn get_version(slot: &VersionSlot) -> (v: Version)
    requires
        slot.version is Some,
    ensures
        slot.version == Some(v),
{
    match slot.version {
        Some(v) => v,
        None => {
            assert(false);
            Version::V1_02_0
        },
    }
}

/// The label `Game Ver {major}.{minor:02}.{patch}`.
pub fn version_label(v: Version) -> (s: String)
    ensures
        s@ == "Game Ver "@ + radix_text(v.triple().0 as nat, 10, 0) + seq!['.']
            + radix_text(v.triple().1 as nat, 10, 2) + seq!['.'] + radix_text(v.triple().2 as nat, 10, 0),
{
    let (maj, min, patch) = v.to_triple();
    let mut s = String::new();
    push_str(&mut s, "Game Ver ");
    push_radix(&mut s, maj as u64, 10, 0);
    push_char(&mut s, '.');
    push_radix(&mut s, min as u64, 10, 2);
    push_char(&mut s, '.');
    push_radix(&mut s, patch as u64, 10, 0);
    s
}

/// The caption of the message shown for an unsupported game version.
pub open spec fn unsupported_caption() -> Seq<char> {
    "Elden Ring Practice Tool - Unsupported version"@
}

/// The text of the message shown for game version `major.minor.patch` when
/// it is not supported.
pub open spec fn unsupported_text(t: (u32, u32, u32)) -> Seq<char> {
    "The current game version, "@ + radix_text(t.0 as nat, 10, 0) + seq!['.'] + radix_text(t.1 as nat, 10, 0)
        + seq!['.'] + radix_text(t.2 as nat, 10, 0)
        + ", is not supported yet.\n\nAn update will be released soon, please stay tuned!"@
}

/// The caption and text of the message box for an unsupported version.
pub fn unsupported_version_message(t: (u32, u32, u32)) -> (r: (String, String))
    ensures
        r.0@ == unsupported_caption(),
        r.1@ == unsupported_text(t),
{
    let mut caption = String::new();
    push_str(&mut caption, "Elden Ring Practice Tool - Unsupported version");
    let mut text = String::new();
    push_str(&mut text, "The current game version, ");
    push_radix(&mut text, t.0 as u64, 10, 0);
    push_char(&mut text, '.');
    push_radix(&mut text, t.1 as u64, 10, 0);
    push_char(&mut text, '.');
    push_radix(&mut text, t.2 as u64, 10, 0);
    push_str(&mut text, ", is not supported yet.\n\nAn update will be released soon, please stay tuned!");
    (caption, text)
}

} // verus!
