//! Whether a newer release of the tool exists, and the message that says so.

use vstd::prelude::*;
use crate::numfmt::{chars_of, push_char, push_chars, push_decimal, push_str, radix_digits};

verus! {

/// A semantic version as the `semver` crate parsed it: its numbers, and the
/// text of its pre-release and build metadata (kept only as the crate read
/// them).
#[derive(Debug)]
pub struct SemVer {
    pub major: u64,
    pub minor: u64,
    pub patch: u64,
    pre: String,
    build: String,
}

impl SemVer {
    /// The version's parts: numbers, pre-release and build metadata.
    pub closed spec fn parts(&self) -> (u64, u64, u64, Seq<char>, Seq<char>) {
        (self.major, self.minor, self.patch, self.pre@, self.build@)
    }

    /// The pre-release text (empty when there is none).
    pub fn pre(&self) -> (r: &str)
        ensures
            r@ == self.parts().3,
    {
        self.pre.as_str()
    }

    /// The build metadata text (empty when there is none).
    pub fn build(&self) -> (r: &str)
        ensures
            r@ == self.parts().4,
    {
        self.build.as_str()
    }

    /// The version that `s` spells, or the parse error's message.
    pub fn parse(s: &str) -> (r: Result<SemVer, String>)
        ensures
            match r {
                Ok(v) => semver_parse(s@) == Ok::<(u64, u64, u64, Seq<char>, Seq<char>), Seq<char>>(v.parts()),
                Err(e) => semver_parse(s@) == Err::<(u64, u64, u64, Seq<char>, Seq<char>), Seq<char>>(e@),
            },
    {
        parse_semver(s)
    }
}

/// What `semver::Version::parse` gives for `s`: the version's parts, or the
/// error's message.
pub uninterp spec fn semver_parse(s: Seq<char>) -> Result<(u64, u64, u64, Seq<char>, Seq<char>), Seq<char>>;

/// `semver::Version::parse`, with the version taken apart and the error
/// rendered. Claimed: the result is the named parse of `s`. Not claimed: the
/// semantic-versioning grammar itself.
#[verifier::external_body]
fn parse_semver(s: &str) -> (r: Result<SemVer, String>)
    ensures
        match r {
            Ok(v) => semver_parse(s@) == Ok::<(u64, u64, u64, Seq<char>, Seq<char>), Seq<char>>(v.parts()),
            Err(e) => semver_parse(s@) == Err::<(u64, u64, u64, Seq<char>, Seq<char>), Seq<char>>(e@),
        },
{
    match semver::Version::parse(s) {
        Ok(v) => Ok(SemVer {
            major: v.major,
            minor: v.minor,
            patch: v.patch,
            pre: v.pre.as_str().to_string(),
            build: v.build.as_str().to_string(),
        }),
        Err(e) => Err(e.to_string()),
    }
}

/// Whether version `v` comes after the release `major.minor.patch` (no
/// pre-release, no build metadata) in the order of `semver::Version`: higher
/// numbers, or the same numbers with no pre-release and some build metadata.
pub open spec fn newer_than(v: (u64, u64, u64, Seq<char>, Seq<char>), major: u64, minor: u64, patch: u64) -> bool {
    ||| v.0 > major
    ||| v.0 == major && v.1 > minor
    ||| v.0 == major && v.1 == minor && v.2 > patch
    ||| v.0 == major && v.1 == minor && v.2 == patch && v.3.len() == 0 && v.4.len() > 0
}

/// `>` on `semver::Version`, between `v` (rebuilt from the texts the crate
/// parsed: a `SemVer` is only made by `parse_semver`, so they are valid) and
/// `Version::new(major, minor, patch)`. Claimed, as the crate's order shows
/// against a release without pre-release or build metadata: the numbers
/// decide first, then a pre-release comes before the release, and any build
/// metadata comes after none.
#[verifier::external_body]
fn later_than_release(v: &SemVer, major: u64, minor: u64, patch: u64) -> (r: bool)
    ensures
        r == newer_than(v.parts(), major, minor, patch),
{
    let pre = semver::Prerelease::new(&v.pre).unwrap();
    let build = semver::BuildMetadata::new(&v.build).unwrap();
    let version = semver::Version { major: v.major, minor: v.minor, patch: v.patch, pre, build };
    version > semver::Version::new(major, minor, patch)
}

/// Whether `v` comes after the release `major.minor.patch`.
pub fn is_newer(v: &SemVer, major: u64, minor: u64, patch: u64) -> (r: bool)
    ensures
        r == newer_than(v.parts(), major, minor, patch),
{
    later_than_release(v, major, minor, patch)
}

/// A version as `Display` prints it: `major.minor.patch`, then `-pre` and
/// `+build` when present.
pub open spec fn version_text(v: (u64, u64, u64, Seq<char>, Seq<char>)) -> Seq<char> {
    radix_digits(v.0 as nat, 10) + seq!['.'] + radix_digits(v.1 as nat, 10) + seq!['.'] + radix_digits(v.2 as nat, 10)
        + (if v.3.len() > 0 { seq!['-'] + v.3 } else { Seq::empty() })
        + (if v.4.len() > 0 { seq!['+'] + v.4 } else { Seq::empty() })
}

/// Appends the text of a version.
pub fn push_version(s: &mut String, major: u64, minor: u64, patch: u64, pre: &str, build: &str)
    ensures
        final(s)@ == old(s)@ + version_text((major, minor, patch, pre@, build@)),
{
    push_decimal(s, major);
    push_char(s, '.');
    push_decimal(s, minor);
    push_char(s, '.');
    push_decimal(s, patch);
    let p = chars_of(pre);
    if p.len() > 0 {
        push_char(s, '-');
        push_str(s, pre);
    }
    let b = chars_of(build);
    if b.len() > 0 {
        push_char(s, '+');
        push_str(s, build);
    }
}

/// Whether `c` is whitespace (Unicode `White_Space`).
pub uninterp spec fn char_is_whitespace(c: char) -> bool;

/// `char::is_whitespace`. Claimed: the result is the named property; space,
/// tab, line feed, vertical tab, form feed and carriage return are whitespace,
/// other ASCII characters are not.
#[verifier::external_body]
fn is_whitespace(c: char) -> (r: bool)
    ensures
        r == char_is_whitespace(c),
        (c == ' ' || c == '\t' || c == '\n' || c == '\x0b' || c == '\x0c' || c == '\r') ==> r,
        ((c as u32) < 128 && !(c == ' ' || c == '\t' || c == '\n' || c == '\x0b' || c == '\x0c' || c == '\r')) ==> !r,
{
    c.is_whitespace()
}

/// Whether `pat` occurs in `s` at `i`.
pub open spec fn occurs_at(s: Seq<char>, pat: Seq<char>, i: int) -> bool {
    0 <= i && i + pat.len() <= s.len() && s.subrange(i, i + pat.len()) == pat
}

/// The first index where `pat` occurs in `s`.
pub open spec fn first_occurrence(s: Seq<char>, pat: Seq<char>) -> Option<int> {
    if exists|i: int| occurs_at(s, pat, i) {
        Some(choose|i: int| occurs_at(s, pat, i) && forall|j: int| 0 <= j < i ==> !occurs_at(s, pat, j))
    } else {
        None
    }
}

/// The first index where `pat` occurs in `s`, if any.
pub fn find(s: &Vec<char>, pat: &Vec<char>) -> (r: Option<usize>)
    ensures
        match r {
            None => forall|i: int| !occurs_at(s@, pat@, i),
            Some(i) => occurs_at(s@, pat@, i as int) && forall|j: int| 0 <= j < i ==> !occurs_at(s@, pat@, j),
        },
{
    if pat.len() > s.len() {
        return None;
    }
    let n = s.len();
    let last = n - pat.len();
    let mut i: usize = 0;
    loop
        invariant
            n == s@.len(),
            last == s@.len() - pat@.len(),
            pat@.len() <= s@.len(),
            0 <= i <= last,
            forall|j: int| 0 <= j < i ==> !occurs_at(s@, pat@, j),
        decreases last - i,
    {
        let mut k: usize = 0;
        let mut ok = true;
        while k < pat.len()
            invariant
                n == s@.len(),
                last == s@.len() - pat@.len(),
                pat@.len() <= s@.len(),
                i <= last,
                0 <= k <= pat@.len(),
                ok == forall|m: int| 0 <= m < k ==> s@[i + m] == pat@[m],
            decreases pat@.len() - k,
        {
            if s[i + k] != pat[k] {
                ok = false;
            }
            k = k + 1;
        }
        if ok {
            assert(s@.subrange(i as int, i + pat@.len()) =~= pat@);
            return Some(i);
        }
        proof {
            let m = choose|m: int| 0 <= m < pat@.len() && s@[i + m] != pat@[m];
            if occurs_at(s@, pat@, i as int) {
                assert(s@.subrange(i as int, i + pat@.len())[m] == s@[i + m]);
            }
        }
        if i == last {
            assert forall|j: int| !occurs_at(s@, pat@, j) by {
                if j > last {
                    assert(j + pat@.len() > s@.len());
                }
            }
            return None;
        }
        i = i + 1;
    }
}

/// The first occurrence is the only occurrence with none before it.
pub proof fn lemma_first_occurrence(s: Seq<char>, pat: Seq<char>, i: int)
    requires
        occurs_at(s, pat, i),
        forall|j: int| 0 <= j < i ==> !occurs_at(s, pat, j),
    ensures
        first_occurrence(s, pat) == Some(i),
{
    let c = choose|c: int| occurs_at(s, pat, c) && forall|j: int| 0 <= j < c ==> !occurs_at(s, pat, j);
    assert(occurs_at(s, pat, c));
    if c < i {
        assert(!occurs_at(s, pat, c));
    }
    if c > i {
        assert(!occurs_at(s, pat, i));
    }
}

/// `lo..hi` is the part of `s` that is left once leading and trailing
/// whitespace is removed (an all-whitespace `s` leaves `len..len`).
pub open spec fn trim_bounds(s: Seq<char>, lo: int, hi: int) -> bool {
    &&& 0 <= lo <= hi <= s.len()
    &&& forall|i: int| 0 <= i < lo ==> char_is_whitespace(#[trigger] s[i])
    &&& forall|i: int| hi <= i < s.len() ==> char_is_whitespace(#[trigger] s[i])
    &&& lo < s.len() ==> !char_is_whitespace(s[lo])
    &&& lo < hi ==> !char_is_whitespace(s[hi - 1])
}

/// `s` without leading and trailing whitespace (`str::trim`).
pub open spec fn trimmed(s: Seq<char>) -> Seq<char> {
    let (lo, hi) = choose|lo: int, hi: int| trim_bounds(s, lo, hi);
    s.subrange(lo, hi)
}

/// The bounds of the trimmed part are determined by `s`.
pub proof fn lemma_trim_bounds_unique(s: Seq<char>, lo1: int, hi1: int, lo2: int, hi2: int)
    requires
        trim_bounds(s, lo1, hi1),
        trim_bounds(s, lo2, hi2),
    ensures
        lo1 == lo2,
        hi1 == hi2,
{
    if lo1 < lo2 {
        assert(char_is_whitespace(s[lo1]));
    }
    if lo2 < lo1 {
        assert(char_is_whitespace(s[lo2]));
    }
    if hi1 < hi2 {
        assert(char_is_whitespace(s[hi2 - 1]));
    }
    if hi2 < hi1 {
        assert(char_is_whitespace(s[hi1 - 1]));
    }
}

/// Bounds that satisfy `trim_bounds` give the trimmed text.
pub proof fn lemma_trimmed(s: Seq<char>, lo: int, hi: int)
    requires
        trim_bounds(s, lo, hi),
    ensures
        trimmed(s) == s.subrange(lo, hi),
{
    let (l, h) = choose|l: int, h: int| trim_bounds(s, l, h);
    lemma_trim_bounds_unique(s, lo, hi, l, h);
}

/// The bounds of `s[..len]` once leading and trailing whitespace is removed.
pub fn trim_span(s: &Vec<char>, len: usize) -> (r: (usize, usize))
    requires
        len <= s@.len(),
    ensures
        trim_bounds(s@.take(len as int), r.0 as int, r.1 as int),
{
    let ghost t = s@.take(len as int);
    let mut lo: usize = 0;
    while lo < len && is_whitespace(s[lo])
        invariant
            len <= s@.len(),
            t == s@.take(len as int),
            lo <= len,
            forall|i: int| 0 <= i < lo ==> char_is_whitespace(#[trigger] t[i]),
        decreases len - lo,
    {
        lo = lo + 1;
    }
    let mut hi: usize = len;
    while hi > lo && is_whitespace(s[hi - 1])
        invariant
            len <= s@.len(),
            t == s@.take(len as int),
            lo <= hi <= len,
            forall|i: int| 0 <= i < lo ==> char_is_whitespace(#[trigger] t[i]),
            lo < len ==> !char_is_whitespace(t[lo as int]),
            forall|i: int| hi <= i < len ==> char_is_whitespace(#[trigger] t[i]),
        decreases hi - lo,
    {
        hi = hi - 1;
    }
    (lo, hi)
}

/// `s` without leading and trailing whitespace.
pub fn trim(s: &str) -> (r: String)
    ensures
        r@ == trimmed(s@),
{
    let cs = chars_of(s);
    let (lo, hi) = trim_span(&cs, cs.len());
    let mut out = String::new();
    push_chars(&mut out, &cs, lo, hi);
    proof {
        assert(cs@.take(cs@.len() as int) =~= cs@);
        lemma_trimmed(s@, lo as int, hi as int);
    }
    out
}

/// The heading after which a release's body lists its changes.
pub open spec fn changes_heading() -> Seq<char> {
    "## What's Changed"@
}

/// The release notes shown for a release body: the text before the first
/// "## What's Changed" heading, trimmed, or the whole body where there is none.
pub open spec fn release_notes_text(body: Seq<char>) -> Seq<char> {
    match first_occurrence(body, changes_heading()) {
        Some(i) => trimmed(body.take(i)),
        None => body,
    }
}

/// The release notes shown for a release body.
pub fn release_notes(body: &str) -> (r: String)
    ensures
        r@ == release_notes_text(body@),
{
    let cs = chars_of(body);
    let heading = chars_of("## What's Changed");
    let mut out = String::new();
    match find(&cs, &heading) {
        Some(i) => {
            let (lo, hi) = trim_span(&cs, i);
            push_chars(&mut out, &cs, lo, hi);
            proof {
                lemma_first_occurrence(body@, changes_heading(), i as int);
                lemma_trimmed(body@.take(i as int), lo as int, hi as int);
                assert(cs@.subrange(lo as int, hi as int) =~= body@.take(i as int).subrange(lo as int, hi as int));
            }
        },
        None => {
            push_str(&mut out, body);
            assert(out@ =~= body@);
        },
    }
    out
}

/// What the update check concluded.
pub enum Update {
    /// A newer release exists: where to get it, and the message to show.
    Available { url: String, notes: String },
    /// The installed version is the latest.
    UpToDate,
    /// The check failed, with the reason.
    Error(String),
}

/// The message shown when release `v` is newer than the installed version.
pub open spec fn update_message(
    v: (u64, u64, u64, Seq<char>, Seq<char>),
    major: u64,
    minor: u64,
    patch: u64,
    body: Seq<char>,
) -> Seq<char> {
    "A new version of the practice tool is available!\n\nLatest version:    "@ + version_text(v)
        + "\nInstalled version: "@ + version_text((major, minor, patch, Seq::empty(), Seq::empty()))
        + "\n\nRelease notes:\n"@ + release_notes_text(body) + "\n"@
}

/// What the update check concludes from a parsed release tag: the parse
/// error, an available update when the release is newer than the installed
/// `major.minor.patch`, or up to date.
pub open spec fn update_outcome(
    parsed: Result<(u64, u64, u64, Seq<char>, Seq<char>), Seq<char>>,
    url: Seq<char>,
    body: Seq<char>,
    major: u64,
    minor: u64,
    patch: u64,
    r: Update,
) -> bool {
    match parsed {
        Err(e) => r matches Update::Error(m) && m@ == e,
        Ok(v) => if newer_than(v, major, minor, patch) {
            r matches Update::Available { url: u, notes: n } && u@ == url && n@ == update_message(v, major, minor, patch, body)
        } else {
            r is UpToDate
        },
    }
}

/// The conclusion for a release whose tag parsed to `parsed`.
pub fn update_from_version(
    parsed: Result<SemVer, String>,
    html_url: String,
    body: &str,
    major: u64,
    minor: u64,
    patch: u64,
) -> (r: Update)
    ensures
        update_outcome(
            match parsed {
                Ok(v) => Ok(v.parts()),
                Err(e) => Err(e@),
            },
            html_url@,
            body@,
            major,
            minor,
            patch,
            r,
        ),
{
    match parsed {
        Err(e) => Update::Error(e),
        Ok(v) => {
            if is_newer(&v, major, minor, patch) {
                let mut notes = String::new();
                push_str(&mut notes, "A new version of the practice tool is available!\n\nLatest version:    ");
                push_version(&mut notes, v.major, v.minor, v.patch, v.pre.as_str(), v.build.as_str());
                push_str(&mut notes, "\nInstalled version: ");
                push_version(&mut notes, major, minor, patch, "", "");
                push_str(&mut notes, "\n\nRelease notes:\n");
                let rn = release_notes(body);
                push_str(&mut notes, rn.as_str());
                push_str(&mut notes, "\n");
                proof {
                    reveal_strlit("");
                }
                Update::Available { url: html_url, notes }
            } else {
                Update::UpToDate
            }
        },
    }
}

/// The conclusion for the latest release, given its tag, page address and
/// body, against the installed `major.minor.patch`.
pub fn check_release(tag_name: &str, html_url: String, body: &str, major: u64, minor: u64, patch: u64) -> (r: Update)
    ensures
        update_outcome(semver_parse(tag_name@), html_url@, body@, major, minor, patch, r),
{
    let parsed = parse_semver(tag_name);
    update_from_version(parsed, html_url, body, major, minor, patch)
}

/// What the launcher shows for an update check before it injects the tool.
#[derive(Debug)]
pub enum UpdatePrompt {
    /// Nothing to show.
    Nothing,
    /// An error box with this title and text.
    Error { title: String, text: String },
    /// A box offering the download at `url`, with this title and text.
    Offer { title: String, text: String, url: String },
}

/// The prompt for an update check's outcome: an error box for a failed
/// check, an offer to download a newer release, nothing when up to date.
pub open spec fn prompt_spec(u: Update, p: UpdatePrompt) -> bool {
    match u {
        Update::UpToDate => p is Nothing,
        Update::Error(e) => p matches UpdatePrompt::Error { title, text }
            && title@ == "Elden Ring Practice Tool - Error"@ && text@ == "Could not check for updates: "@ + e@,
        Update::Available { url, notes } => p matches UpdatePrompt::Offer { title, text, url: u2 }
            && title@ == "Elden Ring Practice Tool - Update available"@
            && text@ == notes@ + "\n\nDo you want to download it?"@ && u2@ == url@,
    }
}

/// The launcher's prompt for an update check's outcome.
pub fn update_prompt(u: &Update) -> (p: UpdatePrompt)
    ensures
        prompt_spec(*u, p),
{
    match u {
        Update::UpToDate => UpdatePrompt::Nothing,
        Update::Error(e) => {
            let mut title = String::new();
            push_str(&mut title, "Elden Ring Practice Tool - Error");
            let mut text = String::new();
            push_str(&mut text, "Could not check for updates: ");
            push_str(&mut text, e.as_str());
            UpdatePrompt::Error { title, text }
        },
        Update::Available { url, notes } => {
            let mut title = String::new();
            push_str(&mut title, "Elden Ring Practice Tool - Update available");
            let mut text = String::new();
            push_str(&mut text, notes.as_str());
            push_str(&mut text, "\n\nDo you want to download it?");
            let mut link = String::new();
            push_str(&mut link, url.as_str());
            UpdatePrompt::Offer { title, text, url: link }
        },
    }
}

} // verus!
