//! The parameter-layout code generator: field definitions of a PARAMDEF XML
//! document, the names the generated Rust code gives them, and the generated
//! source text.

use vstd::prelude::*;
use regex::Regex;
use quick_xml::events::attributes::Attribute;
use quick_xml::events::{BytesStart, Event};
use quick_xml::name::QName;
use quick_xml::{Reader, XmlVersion};
use std::borrow::Cow;
use crate::numfmt::{chars_of, push_char, push_chars, push_decimal, push_str, radix_digits};
use crate::config::{digits_value, str_eq};

verus! {

// ---------------------------------------------------------------------------
// Names
// ---------------------------------------------------------------------------

/// Whether `c` is an ASCII decimal digit.
pub open spec fn is_ascii_digit(c: char) -> bool {
    '0' <= c && c <= '9'
}

/// Whether `c` is an ASCII letter.
pub open spec fn is_ascii_alpha(c: char) -> bool {
    ('A' <= c && c <= 'Z') || ('a' <= c && c <= 'z')
}

/// `c` with an ASCII uppercase letter lowered.
pub open spec fn ascii_lower(c: char) -> char {
    if 'A' <= c && c <= 'Z' {
        ((c as u32) + 32) as char
    } else {
        c
    }
}

/// The identifier used for a field name: names that start with a digit get a
/// `field` prefix, and the keyword `type` becomes `ty`.
pub open spec fn fix_name_spec(s: Seq<char>) -> Seq<char> {
    if s.len() > 0 && is_ascii_digit(s[0]) {
        "field"@ + s
    } else if s == "type"@ {
        "ty"@
    } else {
        s
    }
}

/// Makes a field name usable as a Rust identifier.
pub fn fix_name(name: &str) -> (r: String)
    ensures
        r@ == fix_name_spec(name@),
{
    let cs = chars_of(name);
    let mut r = String::new();
    if cs.len() > 0 && '0' <= cs[0] && cs[0] <= '9' {
        push_str(&mut r, "field");
        push_str(&mut r, name);
    } else if str_eq(name, "type") {
        push_str(&mut r, "ty");
    } else {
        push_str(&mut r, name);
    }
    r
}

/// The ASCII letters of `s`, lowered.
pub open spec fn slug_spec(s: Seq<char>) -> Seq<char>
    decreases s.len(),
{
    if s.len() == 0 {
        Seq::empty()
    } else if is_ascii_alpha(s.last()) {
        slug_spec(s.drop_last()).push(ascii_lower(s.last()))
    } else {
        slug_spec(s.drop_last())
    }
}

/// The key a parameter is known by: its ASCII letters, lowercase.
pub fn slug(name: &str) -> (r: String)
    ensures
        r@ == slug_spec(name@),
{
    let cs = chars_of(name);
    let mut r = String::new();
    let mut i: usize = 0;
    while i < cs.len()
        invariant
            cs@ == name@,
            0 <= i <= cs@.len(),
            r@ == slug_spec(cs@.subrange(0, i as int)),
        decreases cs@.len() - i,
    {
        let c = cs[i];
        proof {
            assert(cs@.subrange(0, i + 1).drop_last() =~= cs@.subrange(0, i as int));
        }
        if 'A' <= c && c <= 'Z' {
            let b: u32 = (c as u32) + 32;
            let l: char = (b as u8) as char;
            push_char(&mut r, l);
        } else if 'a' <= c && c <= 'z' {
            push_char(&mut r, c);
        }
        i = i + 1;
    }
    assert(cs@.subrange(0, cs@.len() as int) =~= cs@);
    r
}

/// Whether `c` is an ASCII capital letter.
pub open spec fn is_ascii_capital(c: char) -> bool {
    'A' <= c && c <= 'Z'
}

/// `s` with an underscore put before each run of ASCII capitals, where the
/// character before `s` was a capital when `in_run` holds.
pub open spec fn mark_runs(s: Seq<char>, in_run: bool) -> Seq<char>
    decreases s.len(),
{
    if s.len() == 0 {
        s
    } else if is_ascii_capital(s[0]) {
        (if in_run {
            seq![s[0]]
        } else {
            seq!['_', s[0]]
        }) + mark_runs(s.drop_first(), true)
    } else {
        seq![s[0]] + mark_runs(s.drop_first(), false)
    }
}

/// What `Regex::new("[A-Z]+").replace_all(s, "_$0")` gives for `s`: each
/// longest run of ASCII capitals with an underscore before it.
pub open spec fn marked_capitals(s: Seq<char>) -> Seq<char> {
    mark_runs(s, false)
}

/// `regex::Regex::replace_all` with the pattern `[A-Z]+` and the replacement
/// `_$0`. Claimed: every leftmost longest run of ASCII capitals gets an
/// underscore before it, and nothing else changes.
#[verifier::external_body]
fn mark_capitals(s: &str) -> (r: String)
    ensures
        r@ == marked_capitals(s@),
{
    Regex::new(r"[A-Z]+").unwrap().replace_all(s, "_$0").into_owned()
}

/// `s` with every run of underscores made one underscore, where the
/// character before `s` was an underscore when `in_run` holds.
pub open spec fn collapse_runs(s: Seq<char>, in_run: bool) -> Seq<char>
    decreases s.len(),
{
    if s.len() == 0 {
        s
    } else if s[0] == '_' {
        (if in_run {
            Seq::empty()
        } else {
            seq!['_']
        }) + collapse_runs(s.drop_first(), true)
    } else {
        seq![s[0]] + collapse_runs(s.drop_first(), false)
    }
}

/// What `Regex::new("_+").replace_all(s, "_")` gives for `s`: every run of
/// underscores made one.
pub open spec fn collapsed_underscores(s: Seq<char>) -> Seq<char> {
    collapse_runs(s, false)
}

/// `regex::Regex::replace_all` with the pattern `_+` and the replacement `_`.
/// Claimed: every run of underscores becomes one underscore, and nothing
/// else changes.
#[verifier::external_body]
fn collapse_underscores(s: &str) -> (r: String)
    ensures
        r@ == collapsed_underscores(s@),
{
    Regex::new(r"_+").unwrap().replace_all(s, "_").into_owned()
}

/// What `str::to_lowercase` gives for a text that is not all ASCII.
pub uninterp spec fn str_lowercase(s: Seq<char>) -> Seq<char>;

/// `s` with each ASCII capital made small.
pub open spec fn ascii_lowered(s: Seq<char>) -> Seq<char> {
    Seq::new(s.len(), |i: int| ascii_lower(s[i]))
}

/// What `str::to_lowercase` gives for `s`: on ASCII text each capital made
/// small and everything else kept; otherwise the named result.
pub open spec fn lowercased(s: Seq<char>) -> Seq<char> {
    if all_ascii(s) {
        ascii_lowered(s)
    } else {
        str_lowercase(s)
    }
}

/// `str::to_lowercase`. Claimed: on ASCII text, `A`..`Z` become `a`..`z`
/// and every other character stays; on other text the result is the named
/// one for `s`. Not claimed: the Unicode lowercase mapping.
#[verifier::external_body]
pub(crate) fn to_lowercase(s: &str) -> (r: String)
    ensures
        all_ascii(s@) ==> r@ == ascii_lowered(s@),
        !all_ascii(s@) ==> r@ == str_lowercase(s@),
{
    s.to_lowercase()
}

/// The snake-case form of a name: the first character kept, an underscore
/// put before each later run of capitals, everything lowered, and runs of
/// underscores collapsed to one.
pub open spec fn snake_spec(s: Seq<char>) -> Seq<char> {
    let marked = if s.len() > 0 {
        seq![s[0]] + marked_capitals(s.drop_first())
    } else {
        Seq::empty()
    };
    collapsed_underscores(lowercased(marked))
}

/// The snake-case form of a name.
pub fn snake_case(name: &str) -> (r: String)
    ensures
        r@ == snake_spec(name@),
{
    let cs = chars_of(name);
    let mut result = String::new();
    if cs.len() > 0 {
        push_char(&mut result, cs[0]);
        let mut rest = String::new();
        push_chars(&mut rest, &cs, 1, cs.len());
        assert(rest@ =~= name@.drop_first());
        let marked = mark_capitals(rest.as_str());
        push_str(&mut result, marked.as_str());
        assert(result@ =~= seq![name@[0]] + marked_capitals(name@.drop_first()));
    }
    let lowered = to_lowercase(result.as_str());
    collapse_underscores(lowered.as_str())
}

// ---------------------------------------------------------------------------
// Field definitions
// ---------------------------------------------------------------------------

/// A field of a parameter layout: its name, its Rust type, the width of the
/// bitfield it belongs to (for a one-bit flag), and, for a bitfield, its flags.
#[derive(Debug)]
pub struct Field {
    pub name: String,
    pub ty: String,
    pub bitfield_size: Option<usize>,
    pub flags: Vec<Field>,
}

/// The value of a field.
pub struct FieldView {
    pub name: Seq<char>,
    pub ty: Seq<char>,
    pub bitfield_size: Option<usize>,
    pub flags: Seq<FieldView>,
}

impl Field {
    /// The field's value.
    pub open spec fn model(self) -> FieldView
        decreases self, 1int,
    {
        FieldView { name: self.name@, ty: self.ty@, bitfield_size: self.bitfield_size, flags: field_models(self.flags@) }
    }
}

/// The values of a list of fields.
pub open spec fn field_models(s: Seq<Field>) -> Seq<FieldView>
    decreases s, 0int,
{
    if s.len() == 0 {
        Seq::empty()
    } else {
        field_models(s.drop_last()).push(s.last().model())
    }
}

/// The model of a list has one value per field, in order.
pub proof fn lemma_field_models(s: Seq<Field>)
    ensures
        field_models(s).len() == s.len(),
        forall|i: int| 0 <= i < s.len() ==> #[trigger] field_models(s)[i] == s[i].model(),
    decreases s.len(),
{
    if s.len() > 0 {
        lemma_field_models(s.drop_last());
        assert forall|i: int| 0 <= i < s.len() implies #[trigger] field_models(s)[i] == s[i].model() by {
            if i < s.len() - 1 {
                assert(s.drop_last()[i] == s[i]);
            }
        }
    }
}

/// What the field-definition pattern `^(\w+)\s+(\w+)(?:\[(\d+)\]|:(\d+))?`
/// captures in `s`: the type, the name, an array length and a bit count.
pub uninterp spec fn definition_captures(s: Seq<char>) -> Option<(Seq<char>, Seq<char>, Option<Seq<char>>, Option<Seq<char>>)>;

/// The text of an optional string.
pub open spec fn opt_text(o: Option<String>) -> Option<Seq<char>> {
    match o {
        Some(t) => Some(t@),
        None => None,
    }
}

/// The text of optional captures.
pub open spec fn captures_text(c: Option<(String, String, Option<String>, Option<String>)>) -> Option<(Seq<char>, Seq<char>, Option<Seq<char>>, Option<Seq<char>>)> {
    match c {
        Some((a, b, n, w)) => Some((a@, b@, opt_text(n), opt_text(w))),
        None => None,
    }
}

/// Whether every character of `s` is ASCII.
pub open spec fn all_ascii(s: Seq<char>) -> bool {
    forall|i: int| 0 <= i < s.len() ==> (#[trigger] s[i] as u32) < 128
}

/// Whether `c` is an ASCII word character (`\w` on ASCII).
pub open spec fn is_word_char(c: char) -> bool {
    is_ascii_alpha(c) || is_ascii_digit(c) || c == '_'
}

/// Whether `c` is ASCII white space (`\s` on ASCII).
pub open spec fn is_space_char(c: char) -> bool {
    c == ' ' || ('\t' <= c && c <= '\r')
}

/// The end of the run of word characters of `s` that starts at `i`.
pub open spec fn word_end(s: Seq<char>, i: int) -> int
    decreases s.len() - i,
{
    if 0 <= i < s.len() && is_word_char(s[i]) {
        word_end(s, i + 1)
    } else {
        i
    }
}

/// The end of the run of white space of `s` that starts at `i`.
pub open spec fn space_end(s: Seq<char>, i: int) -> int
    decreases s.len() - i,
{
    if 0 <= i < s.len() && is_space_char(s[i]) {
        space_end(s, i + 1)
    } else {
        i
    }
}

/// The end of the run of decimal digits of `s` that starts at `i`.
pub open spec fn digit_end(s: Seq<char>, i: int) -> int
    decreases s.len() - i,
{
    if 0 <= i < s.len() && is_ascii_digit(s[i]) {
        digit_end(s, i + 1)
    } else {
        i
    }
}

/// What the field-definition pattern captures in an ASCII definition: a
/// word (the type), white space, a word (the name), then either a bracketed
/// number (the array length) or a colon and a number (the bit count), or
/// neither; each run as long as it goes.
pub open spec fn ascii_definition_captures(s: Seq<char>) -> Option<(Seq<char>, Seq<char>, Option<Seq<char>>, Option<Seq<char>>)> {
    let a = word_end(s, 0);
    let b = space_end(s, a);
    let c = word_end(s, b);
    let d = digit_end(s, c + 1);
    if a == 0 || b == a || c == b {
        None
    } else if c < s.len() && s[c] == '[' && d > c + 1 && d < s.len() && s[d] == ']' {
        Some((s.subrange(0, a), s.subrange(b, c), Some(s.subrange(c + 1, d)), None))
    } else if c < s.len() && s[c] == ':' && d > c + 1 {
        Some((s.subrange(0, a), s.subrange(b, c), None, Some(s.subrange(c + 1, d))))
    } else {
        Some((s.subrange(0, a), s.subrange(b, c), None, None))
    }
}

/// `regex::Regex::captures` with the field-definition pattern, the groups
/// copied out. Claimed: the result is the named one for `definition`, and on
/// an ASCII definition it is what `ascii_definition_captures` says (the
/// pattern's `\w`, `\s` and `\d` are Unicode classes, which on ASCII are the
/// word characters, white space and digits above; each `+` takes the longest
/// run, and the optional group is taken where it matches), and that an array
/// length and a bit count are never both captured (they are the two branches
/// of one alternation). Not claimed: the captures of a definition with other
/// characters.
#[verifier::external_body]
fn capture_definition(definition: &str) -> (r: Option<(String, String, Option<String>, Option<String>)>)
    ensures
        captures_text(r) == definition_captures(definition@),
        all_ascii(definition@) ==> captures_text(r) == ascii_definition_captures(definition@),
        r matches Some(c) ==> c.2 is None || c.3 is None,
{
    let re = Regex::new(r"^(\w+)\s+(\w+)(?:\[(\d+)\]|:(\d+))?").unwrap();
    match re.captures(definition) {
        Some(c) => Some((
            c[1].to_string(),
            c[2].to_string(),
            c.get(3).map(|m| m.as_str().to_string()),
            c.get(4).map(|m| m.as_str().to_string()),
        )),
        None => None,
    }
}

/// The Rust type of a field type of the definition language.
pub open spec fn base_type(t: Seq<char>) -> Option<Seq<char>> {
    if t == "s8"@ {
        Some("i8"@)
    } else if t == "s16"@ {
        Some("i16"@)
    } else if t == "s32"@ {
        Some("i32"@)
    } else if t == "u8"@ || t == "dummy8"@ || t == "fixstr"@ {
        Some("u8"@)
    } else if t == "u16"@ || t == "fixstrW"@ {
        Some("u16"@)
    } else if t == "u32"@ {
        Some("u32"@)
    } else if t == "f32"@ {
        Some("f32"@)
    } else {
        None
    }
}

/// The width in bits of the types a bitfield can have.
pub open spec fn bitfield_width(ty: Seq<char>) -> Option<usize> {
    if ty == "u8"@ {
        Some(8usize)
    } else if ty == "u16"@ {
        Some(16usize)
    } else if ty == "u32"@ {
        Some(32usize)
    } else {
        None
    }
}

fn rust_base_type(t: &str) -> (r: Option<String>)
    ensures
        opt_text(r) == base_type(t@),
{
    let mut s = String::new();
    if str_eq(t, "s8") {
        push_str(&mut s, "i8");
    } else if str_eq(t, "s16") {
        push_str(&mut s, "i16");
    } else if str_eq(t, "s32") {
        push_str(&mut s, "i32");
    } else if str_eq(t, "u8") || str_eq(t, "dummy8") || str_eq(t, "fixstr") {
        push_str(&mut s, "u8");
    } else if str_eq(t, "u16") || str_eq(t, "fixstrW") {
        push_str(&mut s, "u16");
    } else if str_eq(t, "u32") {
        push_str(&mut s, "u32");
    } else if str_eq(t, "f32") {
        push_str(&mut s, "f32");
    } else {
        return None;
    }
    Some(s)
}

fn width_of(ty: &str) -> (r: Option<usize>)
    ensures
        r == bitfield_width(ty@),
{
    if str_eq(ty, "u8") {
        Some(8)
    } else if str_eq(ty, "u16") {
        Some(16)
    } else if str_eq(ty, "u32") {
        Some(32)
    } else {
        None
    }
}

/// The message of an integer parse of empty text.
pub open spec fn empty_number_text() -> Seq<char> {
    "cannot parse integer from empty string"@
}

/// The message of an integer parse that meets a character that is no digit.
pub open spec fn invalid_digit_text() -> Seq<char> {
    "invalid digit found in string"@
}

/// The message of an integer parse whose value does not fit.
pub open spec fn overflow_text() -> Seq<char> {
    "number too large to fit in target type"@
}

/// Reading the digits of `s` from index `i` on, with `acc` read so far: the
/// first character that is no digit, or the first digit that takes the value
/// past `usize::MAX`, ends the scan with the matching message.
pub open spec fn scan_decimal(s: Seq<char>, i: int, acc: nat) -> Result<nat, Seq<char>>
    decreases s.len() - i,
{
    if i >= s.len() || i < 0 {
        Ok(acc)
    } else if !is_ascii_digit(s[i]) {
        Err(invalid_digit_text())
    } else if acc * 10 + (s[i] as int - 48) > usize::MAX {
        Err(overflow_text())
    } else {
        scan_decimal(s, i + 1, (acc * 10 + (s[i] as int - 48)) as nat)
    }
}

/// What `usize::from_str` gives for `s`: an optional `+`, then decimal digits.
pub open spec fn parse_count_spec(s: Seq<char>) -> Result<nat, Seq<char>> {
    if s.len() == 0 {
        Err(empty_number_text())
    } else if s[0] == '+' {
        if s.len() == 1 {
            Err(invalid_digit_text())
        } else {
            scan_decimal(s, 1, 0)
        }
    } else {
        scan_decimal(s, 0, 0)
    }
}

/// Parses a decimal `usize` as `usize::from_str` does, with its error messages.
pub fn parse_count(s: &str) -> (r: Result<usize, String>)
    ensures
        match parse_count_spec(s@) {
            Ok(n) => r matches Ok(v) && v == n,
            Err(m) => r matches Err(e) && e@ == m,
        },
{
    let cs = chars_of(s);
    let mut e = String::new();
    if cs.len() == 0 {
        push_str(&mut e, "cannot parse integer from empty string");
        return Err(e);
    }
    let mut i: usize = 0;
    if cs[0] == '+' {
        if cs.len() == 1 {
            push_str(&mut e, "invalid digit found in string");
            return Err(e);
        }
        i = 1;
    }
    let ghost start = i as int;
    let mut acc: usize = 0;
    while i < cs.len()
        invariant
            cs@ == s@,
            start <= i <= cs@.len(),
            parse_count_spec(s@) == scan_decimal(s@, start, 0),
            scan_decimal(s@, start, 0) == scan_decimal(s@, i as int, acc as nat),
        decreases cs@.len() - i,
    {
        let c = cs[i];
        if !('0' <= c && c <= '9') {
            let mut e = String::new();
            push_str(&mut e, "invalid digit found in string");
            return Err(e);
        }
        let d: usize = ((c as u32) - 48) as usize;
        if acc > (usize::MAX - d) / 10 {
            proof {
                assert(acc * 10 + d > usize::MAX) by (nonlinear_arith)
                    requires
                        acc > (usize::MAX - d) / 10,
                        d <= 9,
                ;
            }
            let mut e = String::new();
            push_str(&mut e, "number too large to fit in target type");
            return Err(e);
        }
        proof {
            assert(acc * 10 + d <= usize::MAX) by (nonlinear_arith)
                requires
                    acc <= (usize::MAX - d) / 10,
                    d <= 9,
            ;
        }
        acc = acc * 10 + d;
        i = i + 1;
    }
    Ok(acc)
}

/// The error for a definition the pattern does not match.
pub open spec fn unparsable_text(definition: Seq<char>) -> Seq<char> {
    "Couldn't parse field: "@ + definition
}

/// The error for a field type the generator does not know.
pub open spec fn unsupported_type_text(ty: Seq<char>, definition: Seq<char>) -> Seq<char> {
    "Unsupported field type "@ + ty + " in "@ + definition
}

/// The error for a bit count on a type that cannot hold bits.
pub open spec fn unsupported_bitfield_text(definition: Seq<char>) -> Seq<char> {
    "Unsupported bitfield type in "@ + definition
}

/// The type of an array of `n` elements of `ty`.
pub open spec fn array_type(ty: Seq<char>, n: nat) -> Seq<char> {
    "["@ + ty + "; "@ + radix_digits(n, 10) + "]"@
}

/// The field a definition describes, given what the pattern captured in it.
pub open spec fn field_from_captures_spec(
    definition: Seq<char>,
    caps: Option<(Seq<char>, Seq<char>, Option<Seq<char>>, Option<Seq<char>>)>,
) -> Result<FieldView, Seq<char>> {
    match caps {
        None => Err(unparsable_text(definition)),
        Some((t, name, count, bits)) => match base_type(t) {
            None => Err(unsupported_type_text(t, definition)),
            Some(ty) => {
                if bits is Some && bitfield_width(ty) is None {
                    Err(unsupported_bitfield_text(definition))
                } else {
                    let size = if bits is Some {
                        bitfield_width(ty)
                    } else {
                        None
                    };
                    match count {
                        None => Ok(FieldView { name, ty, bitfield_size: size, flags: Seq::empty() }),
                        Some(c) => match parse_count_spec(c) {
                            Err(m) => Err(m),
                            Ok(n) => Ok(FieldView { name, ty: array_type(ty, n), bitfield_size: size, flags: Seq::empty() }),
                        },
                    }
                }
            },
        },
    }
}

/// The field a definition describes.
pub open spec fn field_parse_spec(definition: Seq<char>) -> Result<FieldView, Seq<char>> {
    field_from_captures_spec(definition, definition_captures(definition))
}

/// The outcome of a field parse, as values.
pub open spec fn field_result_model(r: Result<Field, String>) -> Result<FieldView, Seq<char>> {
    match r {
        Ok(f) => Ok(f.model()),
        Err(e) => Err(e@),
    }
}

impl Field {
    /// The field that `definition` describes, given what the definition
    /// pattern captured in it.
    pub fn from_captures(definition: &str, caps: Option<(String, String, Option<String>, Option<String>)>) -> (r: Result<Field, String>)
        ensures
            field_result_model(r) == field_from_captures_spec(definition@, captures_text(caps)),
    {
        let mut e = String::new();
        match caps {
            None => {
                push_str(&mut e, "Couldn't parse field: ");
                push_str(&mut e, definition);
                Err(e)
            },
            Some((t, name, count, bits)) => {
                let ty = match rust_base_type(t.as_str()) {
                    None => {
                        push_str(&mut e, "Unsupported field type ");
                        push_str(&mut e, t.as_str());
                        push_str(&mut e, " in ");
                        push_str(&mut e, definition);
                        return Err(e);
                    },
                    Some(ty) => ty,
                };
                let size = match bits {
                    Some(_) => match width_of(ty.as_str()) {
                        None => {
                            push_str(&mut e, "Unsupported bitfield type in ");
                            push_str(&mut e, definition);
                            return Err(e);
                        },
                        Some(w) => Some(w),
                    },
                    None => None,
                };
                let full = match count {
                    None => ty,
                    Some(c) => match parse_count(c.as_str()) {
                        Err(m) => {
                            return Err(m);
                        },
                        Ok(n) => {
                            let mut a = String::new();
                            push_char(&mut a, '[');
                            push_str(&mut a, ty.as_str());
                            push_str(&mut a, "; ");
                            assert((n as u64) as nat == n as nat);
                            push_decimal(&mut a, n as u64);
                            push_char(&mut a, ']');
                            proof {
                                reveal_strlit("[");
                                reveal_strlit("]");
                            }
                            assert(a@ =~= array_type(ty@, n as nat));
                            a
                        },
                    },
                };
                let f = Field { name, ty: full, bitfield_size: size, flags: Vec::new() };
                proof {
                    assert(f.flags@ =~= Seq::<Field>::empty());
                    assert(field_models(f.flags@) =~= Seq::<FieldView>::empty());
                }
                Ok(f)
            },
        }
    }

    /// The field that a definition such as `u8 flag:1` or `fixstrW title[16]`
    /// describes, or why it cannot be read.
    pub fn parse(definition: &str) -> (r: Result<Field, String>)
        ensures
            field_result_model(r) == field_parse_spec(definition@),
            all_ascii(definition@) ==> field_result_model(r) == field_from_captures_spec(
                definition@,
                ascii_definition_captures(definition@),
            ),
            r matches Ok(f) ==> f.model().flags.len() == 0 && (f.bitfield_size is Some ==> bitfield_width(f.ty@)
                == f.bitfield_size),
    {
        let caps = capture_definition(definition);
        Field::from_captures(definition, caps)
    }
}

// ---------------------------------------------------------------------------
// Duplicate names
// ---------------------------------------------------------------------------

/// Whether a field before index `i` has the same snake-case name as field `i`.
pub open spec fn dup_before(s: Seq<FieldView>, i: int) -> bool {
    exists|j: int| 0 <= j < i && #[trigger] snake_spec(s[j].name) == snake_spec(s[i].name)
}

/// How many fields before index `i` repeat an earlier snake-case name.
pub open spec fn dup_count(s: Seq<FieldView>, i: int) -> nat
    decreases i,
{
    if i <= 0 {
        0
    } else {
        dup_count(s, i - 1) + if dup_before(s, i - 1) {
            1nat
        } else {
            0nat
        }
    }
}

/// `f` renamed to `name_k`.
pub open spec fn suffixed(f: FieldView, k: nat) -> FieldView {
    FieldView { name: f.name + "_"@ + radix_digits(k, 10), ty: f.ty, bitfield_size: f.bitfield_size, flags: f.flags }
}

/// The fields with each repeated snake-case name made unique: the `k`-th
/// field (counting from 0) whose snake-case name an earlier field already
/// had gets `_k` appended to its name.
pub open spec fn dedup_spec(s: Seq<FieldView>) -> Seq<FieldView> {
    Seq::new(s.len(), |i: int| if dup_before(s, i) {
        suffixed(s[i], dup_count(s, i))
    } else {
        s[i]
    })
}

/// Replacing one field replaces its value.
pub proof fn lemma_field_models_update(s: Seq<Field>, i: int, f: Field)
    requires
        0 <= i < s.len(),
    ensures
        field_models(s.update(i, f)) == field_models(s).update(i, f.model()),
{
    lemma_field_models(s);
    lemma_field_models(s.update(i, f));
    assert(field_models(s.update(i, f)) =~= field_models(s).update(i, f.model()));
}

/// Appending a field appends its value.
pub proof fn lemma_field_models_push(s: Seq<Field>, f: Field)
    ensures
        field_models(s.push(f)) == field_models(s).push(f.model()),
{
    assert(s.push(f).drop_last() =~= s);
}

/// Whether `name` is one of `names`.
fn contains_name(names: &Vec<String>, name: &str) -> (r: bool)
    ensures
        r == exists|j: int| 0 <= j < names@.len() && #[trigger] names@[j]@ == name@,
{
    let mut j: usize = 0;
    while j < names.len()
        invariant
            0 <= j <= names@.len(),
            forall|k: int| 0 <= k < j ==> #[trigger] names@[k]@ != name@,
        decreases names@.len() - j,
    {
        if str_eq(names[j].as_str(), name) {
            return true;
        }
        j = j + 1;
    }
    false
}

/// Makes the snake-case names of `fields` unique by appending `_k` to the
/// `k`-th repeat.
pub fn dedup_fields(fields: &mut [Field])
    ensures
        field_models(final(fields)@) == dedup_spec(field_models(old(fields)@)),
{
    let ghost orig = field_models(fields@);
    proof {
        lemma_field_models(fields@);
    }
    let mut names: Vec<String> = Vec::new();
    let mut index: usize = 0;
    let mut i: usize = 0;
    while i < fields.len()
        invariant
            orig.len() == fields@.len(),
            0 <= i <= fields@.len(),
            index == dup_count(orig, i as int),
            index <= i,
            names@.len() == i,
            forall|j: int| 0 <= j < i ==> #[trigger] names@[j]@ == snake_spec(orig[j].name),
            forall|j: int| 0 <= j < i ==> #[trigger] field_models(fields@)[j] == dedup_spec(orig)[j],
            forall|j: int| i <= j < fields@.len() ==> #[trigger] field_models(fields@)[j] == orig[j],
            field_models(fields@).len() == fields@.len(),
        decreases fields@.len() - i,
    {
        proof {
            lemma_field_models(fields@);
        }
        let name = snake_case(fields[i].name.as_str());
        let seen = contains_name(&names, name.as_str());
        proof {
            assert(field_models(fields@)[i as int] == orig[i as int]);
            assert(fields@[i as int].model() == orig[i as int]);
            if seen {
                let j = choose|j: int| 0 <= j < names@.len() && #[trigger] names@[j]@ == name@;
                assert(snake_spec(orig[j].name) == snake_spec(orig[i as int].name));
                assert(dup_before(orig, i as int));
            } else {
                assert forall|j: int| 0 <= j < i implies #[trigger] snake_spec(orig[j].name) != snake_spec(orig[i as int].name) by {
                    assert(names@[j]@ == snake_spec(orig[j].name));
                }
                assert(!dup_before(orig, i as int));
            }
        }
        if seen {
            let mut renamed = String::new();
            push_str(&mut renamed, fields[i].name.as_str());
            push_char(&mut renamed, '_');
            push_decimal(&mut renamed, index as u64);
            proof {
                reveal_strlit("_");
                assert((index as u64) as nat == index as nat);
            }
            let ghost before = fields@;
            assert(renamed@ == orig[i as int].name + "_"@ + radix_digits(dup_count(orig, i as int), 10));
            fields[i].name = renamed;
            proof {
                assert(fields@[i as int].flags == before[i as int].flags);
                assert(fields@[i as int].ty == before[i as int].ty);
                assert(fields@ == before.update(i as int, fields@[i as int]));
                lemma_field_models_update(before, i as int, fields@[i as int]);
                assert(fields@[i as int].model() == suffixed(orig[i as int], dup_count(orig, i as int)));
            }
            index = index + 1;
        }
        names.push(name);
        i = i + 1;
    }
    proof {
        lemma_field_models(fields@);
        assert(field_models(fields@) =~= dedup_spec(orig));
    }
}

// ---------------------------------------------------------------------------
// XML events
// ---------------------------------------------------------------------------

/// An event of an XML document, as far as the layout reader looks at it:
/// start and empty tags with their name and their whole content (name and
/// attributes), end tags, and everything else.
#[derive(Debug)]
pub enum XmlEvent {
    Start { name: String, content: String },
    Empty { name: String, content: String },
    End,
    Other,
}

/// The value of an XML event.
pub enum XmlEventView {
    Start(Seq<char>, Seq<char>),
    Empty(Seq<char>, Seq<char>),
    End,
    Other,
}

impl XmlEvent {
    /// The event's value.
    pub open spec fn model(self) -> XmlEventView {
        match self {
            XmlEvent::Start { name, content } => XmlEventView::Start(name@, content@),
            XmlEvent::Empty { name, content } => XmlEventView::Empty(name@, content@),
            XmlEvent::End => XmlEventView::End,
            XmlEvent::Other => XmlEventView::Other,
        }
    }
}

/// The values of a list of events.
pub open spec fn event_models(s: Seq<XmlEvent>) -> Seq<XmlEventView> {
    Seq::new(s.len(), |i: int| s[i].model())
}

/// What `quick_xml::Reader::from_str(src)` yields through `read_event`: the
/// events before the end of the document, and the message of the error that
/// stopped the reading, if one did.
pub uninterp spec fn xml_events(src: Seq<char>) -> (Seq<XmlEventView>, Option<Seq<char>>);

/// Reads `xml` with `quick_xml::Reader::from_str` and `read_event` until the
/// end of the document or the first error, each event copied out. Claimed:
/// the events and the error are the named ones for `xml`. Not claimed: what
/// XML is well-formed.
#[verifier::external_body]
fn read_xml_events(xml: &str) -> (r: (Vec<XmlEvent>, Option<String>))
    ensures
        xml_events(xml@) == (event_models(r.0@), opt_text(r.1)),
{
    let mut reader = Reader::from_str(xml);
    let mut events = Vec::new();
    loop {
        let event = match reader.read_event() {
            Ok(Event::Start(e)) => XmlEvent::Start { name: e.name().0.to_string(), content: e.to_string() },
            Ok(Event::Empty(e)) => XmlEvent::Empty { name: e.name().0.to_string(), content: e.to_string() },
            Ok(Event::End(_)) => XmlEvent::End,
            Ok(Event::Eof) => return (events, None),
            Ok(_) => XmlEvent::Other,
            Err(e) => return (events, Some(e.to_string())),
        };
        events.push(event);
    }
}

/// What `BytesStart::try_get_attribute(key)` gives on the tag whose content
/// is `content` and whose name is `name`: the raw value, none, or the error.
pub uninterp spec fn xml_attribute(name: Seq<char>, content: Seq<char>, key: Seq<char>) -> Result<Option<Seq<char>>, Seq<char>>;

/// Whether the text of a tag begins with the tag's name.
pub open spec fn tag_starts_with_name(name: Seq<char>, content: Seq<char>) -> bool {
    name.len() <= content.len() && content.subrange(0, name.len() as int) == name
}

/// Whether `s` begins with `prefix`.
fn starts_with(s: &str, prefix: &str) -> (r: bool)
    ensures
        r == tag_starts_with_name(prefix@, s@),
{
    let n = s.unicode_len();
    let m = prefix.unicode_len();
    if m > n {
        return false;
    }
    let mut i: usize = 0;
    while i < m
        invariant
            n == s@.len(),
            m == prefix@.len(),
            m <= n,
            0 <= i <= m,
            forall|k: int| 0 <= k < i ==> s@[k] == prefix@[k],
        decreases m - i,
    {
        if s.get_char(i) != prefix.get_char(i) {
            assert(s@.subrange(0, m as int)[i as int] != prefix@[i as int]);
            return false;
        }
        i = i + 1;
    }
    assert(s@.subrange(0, m as int) =~= prefix@);
    true
}

/// `quick_xml::events::BytesStart::try_get_attribute` on the tag rebuilt with
/// `BytesStart::from_content(content, name.len())`. Claimed: the result is the
/// named one for these arguments. `content` must begin with `name`: the
/// attribute reader slices `content` from byte `name.len()` on, which panics
/// unless that byte starts a character.
#[verifier::external_body]
fn find_attribute(name: &str, content: &str, key: &str) -> (r: Result<Option<String>, String>)
    requires
        tag_starts_with_name(name@, content@),
    ensures
        xml_attribute(name@, content@, key@) == match r {
            Ok(v) => Ok(opt_text(v)),
            Err(e) => Err(e@),
        },
{
    match BytesStart::from_content(content, name.len()).try_get_attribute(key) {
        Ok(Some(a)) => Ok(Some(a.value.to_string())),
        Ok(None) => Ok(None),
        Err(e) => Err(e.to_string()),
    }
}

/// What `Attribute::normalized_value(XmlVersion::Implicit1_0)` gives for the
/// attribute `key` with raw value `raw`: the normalized value or the error.
pub uninterp spec fn xml_normalized(key: Seq<char>, raw: Seq<char>) -> Result<Seq<char>, Seq<char>>;

/// `quick_xml::events::attributes::Attribute::normalized_value` under XML 1.0
/// rules (entities replaced, line breaks and tabs turned into spaces).
/// Claimed: the result is the named one for these arguments.
#[verifier::external_body]
fn normalize_attribute(key: &str, raw: &str) -> (r: Result<String, String>)
    ensures
        xml_normalized(key@, raw@) == match r {
            Ok(v) => Ok(v@),
            Err(e) => Err(e@),
        },
{
    let attribute = Attribute { key: QName(key), value: Cow::Borrowed(raw) };
    match attribute.normalized_value(XmlVersion::Implicit1_0) {
        Ok(v) => Ok(v.into_owned()),
        Err(e) => Err(e.to_string()),
    }
}

// ---------------------------------------------------------------------------
// Layouts
// ---------------------------------------------------------------------------

/// Where the layout reader stands: the fields read, the one-bit flags of the
/// bitfield being gathered, how many bitfields were made, the element depth,
/// and the depth of the `Field` elements once inside `Fields`.
pub struct LayoutState {
    pub fields: Seq<FieldView>,
    pub bits: Seq<FieldView>,
    pub bitfield_index: nat,
    pub depth: int,
    pub fields_depth: Option<int>,
}

/// The reader's state before the first event.
pub open spec fn initial_layout() -> LayoutState {
    LayoutState { fields: Seq::empty(), bits: Seq::empty(), bitfield_index: 0, depth: 0, fields_depth: None }
}

/// The message for a `Field` element without a `Def` attribute.
pub open spec fn missing_def_text() -> Seq<char> {
    "Field is missing its Def attribute"@
}

/// The message for a `Field` tag whose text does not begin with its name.
pub open spec fn malformed_field_text() -> Seq<char> {
    "Malformed Field element"@
}

/// The message for a document that ends inside an element.
pub open spec fn unexpected_end_text() -> Seq<char> {
    "Unexpected end of XML document"@
}

/// The name of the `k`-th bitfield.
pub open spec fn bitfield_name(k: nat) -> Seq<char> {
    "bitfield"@ + radix_digits(k, 10)
}

/// The state after a parsed field: a flag joins the bitfield being gathered,
/// which becomes a field of its own once it has as many flags as its type has
/// bits; any other field is added as it is.
pub open spec fn add_field(st: LayoutState, f: FieldView) -> LayoutState {
    match f.bitfield_size {
        Some(size) => {
            let bits = st.bits.push(f);
            if bits.len() == size {
                LayoutState {
                    fields: st.fields.push(
                        FieldView { name: bitfield_name(st.bitfield_index), ty: f.ty, bitfield_size: None, flags: dedup_spec(bits) },
                    ),
                    bits: Seq::empty(),
                    bitfield_index: st.bitfield_index + 1,
                    depth: st.depth,
                    fields_depth: st.fields_depth,
                }
            } else {
                LayoutState { fields: st.fields, bits, bitfield_index: st.bitfield_index, depth: st.depth, fields_depth: st.fields_depth }
            }
        },
        None => LayoutState {
            fields: st.fields.push(f),
            bits: st.bits,
            bitfield_index: st.bitfield_index,
            depth: st.depth,
            fields_depth: st.fields_depth,
        },
    }
}

/// The state after a start tag (`empty` false) or an empty tag (`empty`
/// true): `Fields` at depth 1 opens the field list, a `Field` in it adds
/// the field its `Def` attribute describes (a `Field` tag whose text does not
/// begin with its name is an error); a start tag goes one level down.
pub open spec fn element_step(st: LayoutState, name: Seq<char>, content: Seq<char>, empty: bool) -> Result<LayoutState, Seq<char>> {
    let opened = if st.depth == 1 && name == "Fields"@ && !empty {
        Ok(LayoutState { fields: st.fields, bits: st.bits, bitfield_index: st.bitfield_index, depth: st.depth, fields_depth: Some(st.depth + 1) })
    } else if st.fields_depth == Some(st.depth) && name == "Field"@ {
        if !tag_starts_with_name(name, content) {
            Err(malformed_field_text())
        } else {
        match xml_attribute(name, content, "Def"@) {
            Err(e) => Err(e),
            Ok(None) => Err(missing_def_text()),
            Ok(Some(raw)) => match xml_normalized("Def"@, raw) {
                Err(e) => Err(e),
                Ok(def) => match field_parse_spec(def) {
                    Err(e) => Err(e),
                    Ok(f) => Ok(add_field(st, f)),
                },
            },
        }
        }
    } else {
        Ok(st)
    };
    match opened {
        Err(e) => Err(e),
        Ok(s2) => if empty {
            Ok(s2)
        } else {
            Ok(LayoutState { fields: s2.fields, bits: s2.bits, bitfield_index: s2.bitfield_index, depth: s2.depth + 1, fields_depth: s2.fields_depth })
        },
    }
}

/// The state after an end tag: one level up, leaving the field list when it
/// ends.
pub open spec fn end_step(st: LayoutState) -> LayoutState {
    LayoutState {
        fields: st.fields,
        bits: st.bits,
        bitfield_index: st.bitfield_index,
        depth: st.depth - 1,
        fields_depth: if st.fields_depth == Some(st.depth) {
            None
        } else {
            st.fields_depth
        },
    }
}

/// The state after one event.
pub open spec fn layout_step(st: LayoutState, ev: XmlEventView) -> Result<LayoutState, Seq<char>> {
    match ev {
        XmlEventView::Start(name, content) => element_step(st, name, content, false),
        XmlEventView::Empty(name, content) => element_step(st, name, content, true),
        XmlEventView::End => Ok(end_step(st)),
        XmlEventView::Other => Ok(st),
    }
}

/// The state after the first `n` events, or the first error among them.
pub open spec fn layout_run(evs: Seq<XmlEventView>, n: nat) -> Result<LayoutState, Seq<char>>
    decreases n,
{
    if n == 0 {
        Ok(initial_layout())
    } else {
        match layout_run(evs, (n - 1) as nat) {
            Err(e) => Err(e),
            Ok(st) => layout_step(st, evs[n - 1]),
        }
    }
}

/// The layout the events of a document give, where `read_error` is what
/// stopped the reading early: the first error in handling an event, else the
/// reading error, else an error for a document that ends inside an element,
/// else the fields with repeated names made unique.
pub open spec fn layout_outcome(evs: Seq<XmlEventView>, read_error: Option<Seq<char>>) -> Result<Seq<FieldView>, Seq<char>> {
    match layout_run(evs, evs.len()) {
        Err(e) => Err(e),
        Ok(st) => match read_error {
            Some(e) => Err(e),
            None => if st.depth != 0 {
                Err(unexpected_end_text())
            } else {
                Ok(dedup_spec(st.fields))
            },
        },
    }
}

/// The layout a PARAMDEF document describes.
pub open spec fn layout_spec(xml: Seq<char>) -> Result<Seq<FieldView>, Seq<char>> {
    layout_outcome(xml_events(xml).0, xml_events(xml).1)
}

/// The outcome of a layout parse, as values.
pub open spec fn layout_result_model(r: Result<Vec<Field>, String>) -> Result<Seq<FieldView>, Seq<char>> {
    match r {
        Ok(v) => Ok(field_models(v@)),
        Err(e) => Err(e@),
    }
}

/// Every flag being gathered has its type's width, and every bitfield made
/// holds as many flags as its type has bits.
pub open spec fn widths_tied(st: LayoutState) -> bool {
    &&& forall|j: int| 0 <= j < st.bits.len() ==> bitfield_width((#[trigger] st.bits[j]).ty) == st.bits[j].bitfield_size
    &&& forall|i: int|
        0 <= i < st.fields.len() && (#[trigger] st.fields[i]).flags.len() > 0 ==> bitfield_width(st.fields[i].ty) == Some(
            st.fields[i].flags.len() as usize,
        )
}

/// Adding a field without flags, whose bit width (if any) is its type's,
/// keeps the widths tied.
proof fn lemma_add_field_widths(st: LayoutState, f: FieldView)
    requires
        widths_tied(st),
        f.flags.len() == 0,
        f.bitfield_size is Some ==> bitfield_width(f.ty) == f.bitfield_size,
    ensures
        widths_tied(add_field(st, f)),
{
    let st2 = add_field(st, f);
    match f.bitfield_size {
        Some(size) => {
            let bits = st.bits.push(f);
            if bits.len() == size {
                lemma_dedup_preserves(bits, 0);
                assert forall|i: int| 0 <= i < st2.fields.len() && (#[trigger] st2.fields[i]).flags.len() > 0 implies bitfield_width(
                    st2.fields[i].ty,
                ) == Some(st2.fields[i].flags.len() as usize) by {
                    if i < st.fields.len() {
                        assert(st2.fields[i] == st.fields[i]);
                    }
                }
            } else {
                assert forall|j: int| 0 <= j < st2.bits.len() implies bitfield_width((#[trigger] st2.bits[j]).ty) == st2.bits[j].bitfield_size by {
                    if j < st.bits.len() {
                        assert(st2.bits[j] == st.bits[j]);
                    }
                }
            }
        },
        None => {
            assert forall|i: int| 0 <= i < st2.fields.len() && (#[trigger] st2.fields[i]).flags.len() > 0 implies bitfield_width(
                st2.fields[i].ty,
            ) == Some(st2.fields[i].flags.len() as usize) by {
                if i < st.fields.len() {
                    assert(st2.fields[i] == st.fields[i]);
                }
            }
        },
    }
}

/// Every bitfield of a layout holds as many flags as its type has bits.
pub open spec fn bitfields_full(fields: Seq<FieldView>) -> bool {
    forall|i: int|
        0 <= i < fields.len() && (#[trigger] fields[i]).flags.len() > 0 ==> bitfield_width(fields[i].ty) == Some(
            fields[i].flags.len() as usize,
        )
}

/// The layout reader's state as it runs.
struct LayoutBuilder {
    fields: Vec<Field>,
    bits: Vec<Field>,
    bitfield_index: usize,
    depth: i128,
    fields_depth: Option<i128>,
}

impl LayoutBuilder {
    spec fn model(self) -> LayoutState {
        LayoutState {
            fields: field_models(self.fields@),
            bits: field_models(self.bits@),
            bitfield_index: self.bitfield_index as nat,
            depth: self.depth as int,
            fields_depth: match self.fields_depth {
                Some(d) => Some(d as int),
                None => None,
            },
        }
    }

    /// Adds a parsed field.
    fn add(&mut self, f: Field)
        requires
            old(self).bitfield_index < usize::MAX,
        ensures
            final(self).model() == add_field(old(self).model(), f.model()),
            final(self).bitfield_index <= old(self).bitfield_index + 1,
    {
        proof {
            lemma_field_models_push(self.bits@, f);
            lemma_field_models_push(self.fields@, f);
            lemma_field_models(self.bits@);
        }
        match f.bitfield_size {
            Some(size) => {
                let ty = copy_text(f.ty.as_str());
                self.bits.push(f);
                if self.bits.len() == size {
                    let mut bits: Vec<Field> = Vec::new();
                    std::mem::swap(&mut bits, &mut self.bits);
                    let ghost gathered = field_models(bits@);
                    dedup_fields(bits.as_mut_slice());
                    let mut name = String::new();
                    push_str(&mut name, "bitfield");
                    push_decimal(&mut name, self.bitfield_index as u64);
                    proof {
                        assert((self.bitfield_index as u64) as nat == self.bitfield_index as nat);
                        lemma_field_models_push(self.fields@, Field { name, ty, bitfield_size: None, flags: bits });
                        assert(field_models(self.bits@) =~= Seq::<FieldView>::empty());
                    }
                    self.fields.push(Field { name, ty, bitfield_size: None, flags: bits });
                    self.bitfield_index = self.bitfield_index + 1;
                }
            },
            None => {
                self.fields.push(f);
            },
        }
    }

    /// Handles a start tag (`empty` false) or an empty tag (`empty` true).
    fn element(&mut self, name: &str, content: &str, empty: bool) -> (r: Result<(), String>)
        requires
            old(self).bitfield_index < usize::MAX,
            i128::MIN < old(self).depth < i128::MAX,
        ensures
            match element_step(old(self).model(), name@, content@, empty) {
                Ok(st) => r is Ok && final(self).model() == st,
                Err(e) => r matches Err(m) && m@ == e,
            },
            r is Ok ==> final(self).bitfield_index <= old(self).bitfield_index + 1,
            r is Ok ==> final(self).depth == old(self).depth + if empty { 0int } else { 1int },
            widths_tied(old(self).model()) && r is Ok ==> widths_tied(final(self).model()),
    {
        if self.depth == 1 && str_eq(name, "Fields") && !empty {
            self.fields_depth = Some(self.depth + 1);
        } else if self.fields_depth == Some(self.depth) && str_eq(name, "Field") {
            if !starts_with(content, name) {
                let mut m = String::new();
                push_str(&mut m, "Malformed Field element");
                return Err(m);
            }
            let raw = match find_attribute(name, content, "Def") {
                Err(e) => {
                    return Err(e);
                },
                Ok(None) => {
                    let mut m = String::new();
                    push_str(&mut m, "Field is missing its Def attribute");
                    return Err(m);
                },
                Ok(Some(raw)) => raw,
            };
            let definition = match normalize_attribute("Def", raw.as_str()) {
                Err(e) => {
                    return Err(e);
                },
                Ok(d) => d,
            };
            let field = match Field::parse(definition.as_str()) {
                Err(e) => {
                    return Err(e);
                },
                Ok(f) => f,
            };
            proof {
                if widths_tied(self.model()) {
                    lemma_add_field_widths(self.model(), field.model());
                }
            }
            self.add(field);
        }
        if !empty {
            self.depth = self.depth + 1;
        }
        Ok(())
    }

    /// Handles an end tag.
    fn end(&mut self)
        requires
            i128::MIN < old(self).depth,
        ensures
            final(self).model() == end_step(old(self).model()),
            final(self).depth == old(self).depth - 1,
            final(self).bitfield_index == old(self).bitfield_index,
    {
        if self.fields_depth == Some(self.depth) {
            self.fields_depth = None;
        }
        self.depth = self.depth - 1;
    }
}

/// A copy of a string.
fn copy_text(s: &str) -> (r: String)
    ensures
        r@ == s@,
{
    let mut r = String::new();
    push_str(&mut r, s);
    r
}

/// The layout that the events of a document give, where `read_error` is the
/// message of the error that stopped the reading, if one did.
pub fn layout_from_events(events: &Vec<XmlEvent>, read_error: Option<String>) -> (r: Result<Vec<Field>, String>)
    ensures
        layout_result_model(r) == layout_outcome(event_models(events@), opt_text(read_error)),
        layout_result_model(r) matches Ok(fs) ==> bitfields_full(fs),
{
    let ghost evs = event_models(events@);
    let mut b = LayoutBuilder { fields: Vec::new(), bits: Vec::new(), bitfield_index: 0, depth: 0, fields_depth: None };
    proof {
        assert(b.fields@ =~= Seq::<Field>::empty());
        assert(b.bits@ =~= Seq::<Field>::empty());
        assert(b.model() =~= initial_layout());
    }
    let mut i: usize = 0;
    while i < events.len()
        invariant
            evs == event_models(events@),
            0 <= i <= events@.len(),
            layout_run(evs, i as nat) == Ok::<LayoutState, Seq<char>>(b.model()),
            widths_tied(b.model()),
            b.bitfield_index <= i,
            -(i as int) <= b.depth <= i,
        decreases events@.len() - i,
    {
        let ghost before = b.model();
        proof {
            assert(layout_run(evs, (i + 1) as nat) == layout_step(before, evs[i as int]));
        }
        match &events[i] {
            XmlEvent::Start { name, content } => {
                match b.element(name.as_str(), content.as_str(), false) {
                    Err(e) => {
                        proof {
                            lemma_layout_run_error(evs, (i + 1) as nat, evs.len());
                        }
                        return Err(e);
                    },
                    Ok(()) => {},
                }
            },
            XmlEvent::Empty { name, content } => {
                match b.element(name.as_str(), content.as_str(), true) {
                    Err(e) => {
                        proof {
                            lemma_layout_run_error(evs, (i + 1) as nat, evs.len());
                        }
                        return Err(e);
                    },
                    Ok(()) => {},
                }
            },
            XmlEvent::End => {
                b.end();
            },
            XmlEvent::Other => {},
        }
        i = i + 1;
    }
    match read_error {
        Some(e) => Err(e),
        None => {
            if b.depth != 0 {
                let mut m = String::new();
                push_str(&mut m, "Unexpected end of XML document");
                Err(m)
            } else {
                let ghost before = field_models(b.fields@);
                let mut fields = b.fields;
                dedup_fields(fields.as_mut_slice());
                proof {
                    assert forall|k: int| 0 <= k < dedup_spec(before).len() && (#[trigger] dedup_spec(before)[k]).flags.len() > 0
                        implies bitfield_width(dedup_spec(before)[k].ty) == Some(dedup_spec(before)[k].flags.len() as usize) by {
                        lemma_dedup_preserves(before, k);
                    }
                }
                Ok(fields)
            }
        },
    }
}

/// How many of the first `n` fields are gathered bitfields (fields with
/// flags).
pub open spec fn groups_before(fields: Seq<FieldView>, n: int) -> nat
    decreases n,
{
    if n <= 0 {
        0
    } else {
        groups_before(fields, n - 1) + if fields[n - 1].flags.len() > 0 {
            1nat
        } else {
            0nat
        }
    }
}

/// A one-bit flag as a bitfield holds it: with a bit width, without flags.
pub open spec fn is_flag(g: FieldView) -> bool {
    g.bitfield_size is Some && g.flags.len() == 0
}

/// A gathered bitfield: no bit width of its own, flags only, as many of them
/// as the last one's type holds bits, and of that type.
pub open spec fn is_bitfield_group(f: FieldView) -> bool {
    &&& f.bitfield_size is None
    &&& f.flags.len() > 0
    &&& f.flags.last().bitfield_size == Some(f.flags.len() as usize)
    &&& f.ty == f.flags.last().ty
    &&& forall|j: int| 0 <= j < f.flags.len() ==> is_flag(#[trigger] f.flags[j])
}

/// Whether some definition describes `f`.
pub open spec fn from_definition(f: FieldView) -> bool {
    exists|d: Seq<char>| #[trigger] field_parse_spec(d) == Ok::<FieldView, Seq<char>>(f)
}

/// The fields of a layout before repeated names are made unique: each is
/// either a field as a definition describes it, without a bit width, or the
/// `k`-th gathered bitfield, named `bitfield{k}`.
pub open spec fn layout_shape(fields: Seq<FieldView>) -> bool {
    forall|i: int|
        0 <= i < fields.len() ==> if (#[trigger] fields[i]).flags.len() == 0 {
            fields[i].bitfield_size is None && from_definition(fields[i])
        } else {
            is_bitfield_group(fields[i]) && fields[i].name == bitfield_name(groups_before(fields, i))
        }
}

/// The reader's state keeps the layout's shape: the bitfields made so far are
/// counted by the index, and the flags being gathered are flags.
pub open spec fn state_shape(st: LayoutState) -> bool {
    &&& layout_shape(st.fields)
    &&& groups_before(st.fields, st.fields.len() as int) == st.bitfield_index
    &&& forall|j: int| 0 <= j < st.bits.len() ==> is_flag(#[trigger] st.bits[j])
}

/// Adding a field at the end leaves the count before every earlier position.
proof fn lemma_groups_push(s: Seq<FieldView>, x: FieldView, n: int)
    requires
        0 <= n <= s.len(),
    ensures
        groups_before(s.push(x), n) == groups_before(s, n),
    decreases n,
{
    if n > 0 {
        lemma_groups_push(s, x, n - 1);
        assert(s.push(x)[n - 1] == s[n - 1]);
    }
}

/// A parsed field has no flags.
proof fn lemma_parsed_no_flags(d: Seq<char>)
    requires
        field_parse_spec(d) is Ok,
    ensures
        field_parse_spec(d)->Ok_0.flags.len() == 0,
{
}

/// Adding a parsed field keeps the shape.
proof fn lemma_add_field_shape(st: LayoutState, d: Seq<char>)
    requires
        state_shape(st),
        field_parse_spec(d) is Ok,
    ensures
        state_shape(add_field(st, field_parse_spec(d)->Ok_0)),
{
    let f = field_parse_spec(d)->Ok_0;
    lemma_parsed_no_flags(d);
    assert(from_definition(f));
    let st2 = add_field(st, f);
    let n = st.fields.len() as int;
    match f.bitfield_size {
        Some(size) => {
            let bits = st.bits.push(f);
            assert forall|j: int| 0 <= j < bits.len() implies is_flag(#[trigger] bits[j]) by {
                if j < st.bits.len() {
                    assert(bits[j] == st.bits[j]);
                }
            }
            if bits.len() == size {
                let g = FieldView { name: bitfield_name(st.bitfield_index), ty: f.ty, bitfield_size: None, flags: dedup_spec(bits) };
                let last = bits.len() - 1;
                lemma_dedup_preserves(bits, last);
                assert forall|j: int| 0 <= j < g.flags.len() implies is_flag(#[trigger] g.flags[j]) by {
                    lemma_dedup_preserves(bits, j);
                }
                assert(is_bitfield_group(g));
                lemma_groups_push(st.fields, g, n);
                assert(st2.fields == st.fields.push(g));
                assert forall|i: int| 0 <= i < st2.fields.len() implies (if (#[trigger] st2.fields[i]).flags.len() == 0 {
                    st2.fields[i].bitfield_size is None && from_definition(st2.fields[i])
                } else {
                    is_bitfield_group(st2.fields[i]) && st2.fields[i].name == bitfield_name(groups_before(st2.fields, i))
                }) by {
                    lemma_groups_push(st.fields, g, i);
                    if i < n {
                        assert(st2.fields[i] == st.fields[i]);
                    }
                }
                assert(groups_before(st2.fields, n + 1) == groups_before(st.fields, n) + 1);
                assert(st2.bits.len() == 0);
            }
        },
        None => {
            lemma_groups_push(st.fields, f, n);
            assert forall|i: int| 0 <= i < st2.fields.len() implies (if (#[trigger] st2.fields[i]).flags.len() == 0 {
                st2.fields[i].bitfield_size is None && from_definition(st2.fields[i])
            } else {
                is_bitfield_group(st2.fields[i]) && st2.fields[i].name == bitfield_name(groups_before(st2.fields, i))
            }) by {
                lemma_groups_push(st.fields, f, i);
                if i < n {
                    assert(st2.fields[i] == st.fields[i]);
                }
            }
            assert(groups_before(st2.fields, n + 1) == groups_before(st.fields, n));
        },
    }
}

/// Every step that succeeds keeps the shape.
proof fn lemma_step_shape(st: LayoutState, ev: XmlEventView)
    requires
        state_shape(st),
        layout_step(st, ev) is Ok,
    ensures
        state_shape(layout_step(st, ev)->Ok_0),
{
    match ev {
        XmlEventView::Start(name, content) => lemma_element_shape(st, name, content, false),
        XmlEventView::Empty(name, content) => lemma_element_shape(st, name, content, true),
        _ => {},
    }
}

/// A start or empty tag that is handled keeps the shape.
proof fn lemma_element_shape(st: LayoutState, name: Seq<char>, content: Seq<char>, empty: bool)
    requires
        state_shape(st),
        element_step(st, name, content, empty) is Ok,
    ensures
        state_shape(element_step(st, name, content, empty)->Ok_0),
{
    if !(st.depth == 1 && name == "Fields"@ && !empty) && st.fields_depth == Some(st.depth) && name == "Field"@
        && tag_starts_with_name(name, content) {
        match xml_attribute(name, content, "Def"@) {
            Ok(Some(raw)) => match xml_normalized("Def"@, raw) {
                Ok(def) => {
                    if field_parse_spec(def) is Ok {
                        lemma_add_field_shape(st, def);
                    }
                },
                _ => {},
            },
            _ => {},
        }
    }
}

/// Every state the reader reaches keeps the shape.
proof fn lemma_run_shape(evs: Seq<XmlEventView>, n: nat)
    requires
        n <= evs.len(),
        layout_run(evs, n) is Ok,
    ensures
        state_shape(layout_run(evs, n)->Ok_0),
    decreases n,
{
    if n == 0 {
        assert(groups_before(Seq::<FieldView>::empty(), 0) == 0);
    } else {
        lemma_run_shape(evs, (n - 1) as nat);
        lemma_step_shape(layout_run(evs, (n - 1) as nat)->Ok_0, evs[n - 1]);
    }
}

/// The decimal digits of `n` are digits, at least one, and read back as `n`.
proof fn lemma_decimal_digits(n: nat)
    ensures
        radix_digits(n, 10).len() >= 1,
        forall|i: int| 0 <= i < radix_digits(n, 10).len() ==> is_ascii_digit(#[trigger] radix_digits(n, 10)[i]),
        digits_value(radix_digits(n, 10)) == n,
    decreases n,
{
    if n < 10 {
        let c = crate::numfmt::digit_char(n);
        assert(c as int == 48 + n);
        assert(seq![c].drop_last() =~= Seq::<char>::empty());
        assert(digits_value(seq![c]) == digits_value(Seq::<char>::empty()) * 10 + (c as int - 48));
    } else {
        lemma_decimal_digits(n / 10);
        let p = radix_digits(n / 10, 10);
        let c = crate::numfmt::digit_char(n % 10);
        assert(c as int == 48 + n % 10);
        assert(radix_digits(n, 10) == p.push(c));
        assert(p.push(c).drop_last() =~= p);
        assert(digits_value(p.push(c)) == digits_value(p) * 10 + (c as int - 48));
        vstd::arithmetic::div_mod::lemma_fundamental_div_mod(n as int, 10);
        assert forall|i: int| 0 <= i < p.push(c).len() implies is_ascii_digit(#[trigger] p.push(c)[i]) by {
            if i < p.len() {
                assert(p.push(c)[i] == p[i]);
            }
        }
    }
}

/// Different bitfields have different names.
proof fn lemma_bitfield_name_injective(a: nat, b: nat)
    requires
        bitfield_name(a) == bitfield_name(b),
    ensures
        a == b,
{
    reveal_strlit("bitfield");
    let x = bitfield_name(a);
    assert(x.subrange(8, x.len() as int) =~= radix_digits(a, 10));
    assert(bitfield_name(b).subrange(8, x.len() as int) =~= radix_digits(b, 10));
    lemma_decimal_digits(a);
    lemma_decimal_digits(b);
}

/// Whether `s` holds only small ASCII letters and digits.
pub open spec fn plain_name(s: Seq<char>) -> bool {
    forall|i: int| 0 <= i < s.len() ==> ('a' <= #[trigger] s[i] && s[i] <= 'z') || is_ascii_digit(s[i])
}

/// Marking capitals changes nothing in a plain name.
proof fn lemma_mark_runs_plain(s: Seq<char>, in_run: bool)
    requires
        plain_name(s),
    ensures
        mark_runs(s, in_run) == s,
    decreases s.len(),
{
    if s.len() > 0 {
        assert(plain_name(s.drop_first())) by {
            assert forall|i: int| 0 <= i < s.drop_first().len() implies ('a' <= #[trigger] s.drop_first()[i] && s.drop_first()[i] <= 'z')
                || is_ascii_digit(s.drop_first()[i]) by {
                assert(s.drop_first()[i] == s[i + 1]);
            }
        }
        lemma_mark_runs_plain(s.drop_first(), false);
        assert(seq![s[0]] + s.drop_first() =~= s);
    }
}

/// Collapsing underscores changes nothing in a plain name.
proof fn lemma_collapse_runs_plain(s: Seq<char>, in_run: bool)
    requires
        plain_name(s),
    ensures
        collapse_runs(s, in_run) == s,
    decreases s.len(),
{
    if s.len() > 0 {
        assert(plain_name(s.drop_first())) by {
            assert forall|i: int| 0 <= i < s.drop_first().len() implies ('a' <= #[trigger] s.drop_first()[i] && s.drop_first()[i] <= 'z')
                || is_ascii_digit(s.drop_first()[i]) by {
                assert(s.drop_first()[i] == s[i + 1]);
            }
        }
        lemma_collapse_runs_plain(s.drop_first(), false);
        assert(seq![s[0]] + s.drop_first() =~= s);
    }
}

/// A plain name is its own snake-case form.
proof fn lemma_snake_plain(s: Seq<char>)
    requires
        plain_name(s),
    ensures
        snake_spec(s) == s,
{
    if s.len() > 0 {
        assert(plain_name(s.drop_first())) by {
            assert forall|i: int| 0 <= i < s.drop_first().len() implies ('a' <= #[trigger] s.drop_first()[i] && s.drop_first()[i] <= 'z')
                || is_ascii_digit(s.drop_first()[i]) by {
                assert(s.drop_first()[i] == s[i + 1]);
            }
        }
        lemma_mark_runs_plain(s.drop_first(), false);
        assert(seq![s[0]] + s.drop_first() =~= s);
    }
    let m = if s.len() > 0 {
        seq![s[0]] + marked_capitals(s.drop_first())
    } else {
        Seq::<char>::empty()
    };
    assert(m =~= s);
    assert(all_ascii(s)) by {
        assert forall|i: int| 0 <= i < s.len() implies (#[trigger] s[i] as u32) < 128 by {
            assert(('a' <= s[i] && s[i] <= 'z') || is_ascii_digit(s[i]));
        }
    }
    assert(ascii_lowered(s) =~= s) by {
        assert forall|i: int| 0 <= i < s.len() implies #[trigger] ascii_lowered(s)[i] == s[i] by {
            assert(('a' <= s[i] && s[i] <= 'z') || is_ascii_digit(s[i]));
        }
    }
    lemma_collapse_runs_plain(s, false);
}

/// A bitfield's name is its own snake-case form.
proof fn lemma_bitfield_name_snake(k: nat)
    ensures
        snake_spec(bitfield_name(k)) == bitfield_name(k),
{
    reveal_strlit("bitfield");
    lemma_decimal_digits(k);
    let s = bitfield_name(k);
    assert forall|i: int| 0 <= i < s.len() implies ('a' <= #[trigger] s[i] && s[i] <= 'z') || is_ascii_digit(s[i]) by {
        if i >= 8 {
            assert(s[i] == radix_digits(k, 10)[i - 8]);
        }
    }
    lemma_snake_plain(s);
}

/// The shape of every layout read: its fields are those of a layout in shape
/// (each field as its definition describes it, or the `k`-th gathered
/// bitfield named `bitfield{k}`) with repeated names made unique; so no field
/// keeps a bit width, and every bitfield holds as many flags as the last one's
/// type has bits, is of that type, and holds flags only.
pub proof fn lemma_layout_shape(evs: Seq<XmlEventView>, read_error: Option<Seq<char>>)
    requires
        layout_outcome(evs, read_error) is Ok,
    ensures
        exists|raw: Seq<FieldView>| layout_shape(raw) && layout_outcome(evs, read_error)->Ok_0 == dedup_spec(raw),
        forall|i: int|
            0 <= i < layout_outcome(evs, read_error)->Ok_0.len() ==> (#[trigger] layout_outcome(evs, read_error)->Ok_0[i]).bitfield_size is None,
        forall|i: int|
            0 <= i < layout_outcome(evs, read_error)->Ok_0.len() && (#[trigger] layout_outcome(evs, read_error)->Ok_0[i]).flags.len() > 0
                ==> is_bitfield_group(layout_outcome(evs, read_error)->Ok_0[i]),
{
    lemma_run_shape(evs, evs.len());
    let raw = layout_run(evs, evs.len())->Ok_0.fields;
    let fs = layout_outcome(evs, read_error)->Ok_0;
    assert(fs == dedup_spec(raw));
    assert forall|i: int| 0 <= i < fs.len() implies (#[trigger] fs[i]).bitfield_size is None
        && (fs[i].flags.len() > 0 ==> is_bitfield_group(fs[i])) by {
        lemma_dedup_preserves(raw, i);
        assert(raw[i].flags.len() == 0 ==> raw[i].bitfield_size is None);
    }
}

/// A bitfield at `j` is counted before every later position.
proof fn lemma_groups_grow(s: Seq<FieldView>, j: int, i: int)
    requires
        0 <= j < i <= s.len(),
        s[j].flags.len() > 0,
    ensures
        groups_before(s, i) > groups_before(s, j),
    decreases i,
{
    if i > j + 1 {
        lemma_groups_grow(s, j, i - 1);
    }
}

/// Two lists whose fields hold flags at the same places count the same
/// bitfields.
proof fn lemma_groups_same(a: Seq<FieldView>, b: Seq<FieldView>, n: int)
    requires
        a.len() == b.len(),
        0 <= n <= a.len(),
        forall|i: int| 0 <= i < a.len() ==> (#[trigger] a[i].flags.len() > 0) == (b[i].flags.len() > 0),
    ensures
        groups_before(a, n) == groups_before(b, n),
    decreases n,
{
    if n > 0 {
        lemma_groups_same(a, b, n - 1);
    }
}

/// The first of the fields before `i` whose snake-case name is `t`.
proof fn lemma_first_with_snake(s: Seq<FieldView>, i: int, t: Seq<char>) -> (j0: int)
    requires
        i <= s.len(),
        exists|j: int| 0 <= j < i && #[trigger] snake_spec(s[j].name) == t,
    ensures
        0 <= j0 < i,
        snake_spec(s[j0].name) == t,
        forall|j: int| 0 <= j < j0 ==> #[trigger] snake_spec(s[j].name) != t,
    decreases i,
{
    if exists|j: int| 0 <= j < i - 1 && #[trigger] snake_spec(s[j].name) == t {
        lemma_first_with_snake(s, i - 1, t)
    } else {
        i - 1
    }
}

/// Bitfields keep their names: in a layout read where no field other than
/// a bitfield has a snake-case name of the form `bitfield{k}`, the bitfields
/// are named `bitfield0`, `bitfield1`, ... in their order.
pub proof fn lemma_bitfield_names(evs: Seq<XmlEventView>, read_error: Option<Seq<char>>)
    requires
        layout_outcome(evs, read_error) is Ok,
        forall|i: int, k: nat|
            0 <= i < layout_outcome(evs, read_error)->Ok_0.len() && (#[trigger] layout_outcome(evs, read_error)->Ok_0[i]).flags.len()
                == 0 ==> snake_spec(layout_outcome(evs, read_error)->Ok_0[i].name) != #[trigger] bitfield_name(k),
    ensures
        forall|i: int|
            0 <= i < layout_outcome(evs, read_error)->Ok_0.len() && (#[trigger] layout_outcome(evs, read_error)->Ok_0[i]).flags.len() > 0
                ==> layout_outcome(evs, read_error)->Ok_0[i].name == bitfield_name(
                groups_before(layout_outcome(evs, read_error)->Ok_0, i),
            ),
{
    lemma_run_shape(evs, evs.len());
    let raw = layout_run(evs, evs.len())->Ok_0.fields;
    let fs = layout_outcome(evs, read_error)->Ok_0;
    assert(fs == dedup_spec(raw));
    assert forall|i: int| 0 <= i < raw.len() implies (#[trigger] raw[i].flags.len() > 0) == (fs[i].flags.len() > 0) by {
        lemma_dedup_preserves(raw, i);
    }
    assert forall|i: int| 0 <= i < fs.len() && (#[trigger] fs[i]).flags.len() > 0 implies fs[i].name == bitfield_name(
        groups_before(fs, i),
    ) by {
        lemma_dedup_preserves(raw, i);
        lemma_groups_same(raw, fs, i);
        assert(raw[i].flags.len() > 0);
        let g = groups_before(raw, i);
        assert(raw[i].name == bitfield_name(g));
        lemma_bitfield_name_snake(g);
        if dup_before(raw, i) {
            let t = bitfield_name(g);
            let j0 = lemma_first_with_snake(raw, i, t);
            lemma_dedup_preserves(raw, j0);
            if dup_before(raw, j0) {
                let j1 = choose|j: int| 0 <= j < j0 && #[trigger] snake_spec(raw[j].name) == snake_spec(raw[j0].name);
                assert(snake_spec(raw[j1].name) != t);
            }
            assert(fs[j0] == raw[j0]);
            if raw[j0].flags.len() == 0 {
                assert(fs[j0].flags.len() == 0);
                assert(snake_spec(fs[j0].name) != bitfield_name(g));
            } else {
                let g0 = groups_before(raw, j0);
                assert(raw[j0].name == bitfield_name(g0));
                lemma_bitfield_name_snake(g0);
                lemma_bitfield_name_injective(g0, g);
                lemma_groups_grow(raw, j0, i);
            }
        }
        assert(fs[i] == raw[i]);
    }
}

/// Once the run fails, it stays failed with the same error.
pub proof fn lemma_layout_run_error(evs: Seq<XmlEventView>, n: nat, m: nat)
    requires
        n <= m,
        layout_run(evs, n) is Err,
    ensures
        layout_run(evs, m) == layout_run(evs, n),
    decreases m - n,
{
    if n < m {
        lemma_layout_run_error(evs, n, (m - 1) as nat);
    }
}

/// The fields of a PARAMDEF document: the `Field` elements of its `Fields`
/// element, with runs of one-bit flags gathered into bitfields and repeated
/// names made unique, or the first error met.
pub fn parse_layout(xml: &str) -> (r: Result<Vec<Field>, String>)
    ensures
        layout_result_model(r) == layout_spec(xml@),
        layout_result_model(r) matches Ok(fs) ==> bitfields_full(fs),
{
    let (events, read_error) = read_xml_events(xml);
    layout_from_events(&events, read_error)
}

// ---------------------------------------------------------------------------
// Definition files
// ---------------------------------------------------------------------------

/// `s` with every occurrence of `pat` (taken left to right, without overlap)
/// removed.
pub open spec fn remove_all(s: Seq<char>, pat: Seq<char>) -> Seq<char>
    decreases s.len(),
{
    if pat.len() == 0 || s.len() < pat.len() {
        s
    } else if s.subrange(0, pat.len() as int) == pat {
        remove_all(s.subrange(pat.len() as int, s.len() as int), pat)
    } else {
        seq![s[0]] + remove_all(s.drop_first(), pat)
    }
}

/// `s` with every `_ST` removed (`str::replace(s, "_ST", "")`).
pub fn strip_st(s: &str) -> (r: String)
    ensures
        r@ == remove_all(s@, "_ST"@),
{
    proof {
        reveal_strlit("_ST");
    }
    let cs = chars_of(s);
    let n = cs.len();
    let mut r = String::new();
    let mut i: usize = 0;
    assert(cs@.subrange(0, n as int) =~= cs@);
    assert(r@ + cs@ =~= cs@);
    while i < n
        invariant
            n == cs@.len(),
            cs@ == s@,
            "_ST"@ == seq!['_', 'S', 'T'],
            0 <= i <= n,
            r@ + remove_all(cs@.subrange(i as int, n as int), "_ST"@) == remove_all(s@, "_ST"@),
        decreases n - i,
    {
        let ghost rest = cs@.subrange(i as int, n as int);
        if n - i >= 3 && cs[i] == '_' && cs[i + 1] == 'S' && cs[i + 2] == 'T' {
            proof {
                assert(rest.subrange(0, 3) =~= "_ST"@);
                assert(rest.subrange(3, rest.len() as int) =~= cs@.subrange(i + 3, n as int));
            }
            i = i + 3;
        } else {
            proof {
                if rest.len() >= 3 {
                    assert(rest.subrange(0, 3) != "_ST"@) by {
                        if rest.subrange(0, 3) == "_ST"@ {
                            assert(rest.subrange(0, 3)[0] == cs@[i as int]);
                            assert(rest.subrange(0, 3)[1] == cs@[i + 1]);
                            assert(rest.subrange(0, 3)[2] == cs@[i + 2]);
                        }
                    }
                }
                assert(rest.drop_first() =~= cs@.subrange(i + 1, n as int));
                assert(r@.push(cs@[i as int]) + remove_all(rest.drop_first(), "_ST"@) =~= r@ + (seq![rest[0]] + remove_all(rest.drop_first(), "_ST"@)));
            }
            push_char(&mut r, cs[i]);
            i = i + 1;
        }
    }
    proof {
        assert(cs@.subrange(n as int, n as int) =~= Seq::<char>::empty());
        assert(r@ + Seq::<char>::empty() =~= r@);
    }
    r
}

/// What to do with an entry of the definitions directory.
#[derive(Debug)]
pub enum EntryPlan {
    /// Not a parameter definition to generate.
    Skip,
    /// Parse the file, and file its layout under `key` as the struct `name`.
    Parse { key: String, name: String },
    /// The entry cannot be used.
    Fail(String),
}

/// The plan for an entry with the given extension and file stem (each as
/// text, where it is valid Unicode): only `.xml` files count; the struct is
/// named after the stem without `_ST`, filed under its slug, and the
/// `DefaultKeyAssign` definition is left out.
pub open spec fn entry_plan_spec(extension: Option<Seq<char>>, stem: Option<Seq<char>>, r: EntryPlan) -> bool {
    if extension != Some("xml"@) {
        r is Skip
    } else {
        match stem {
            None => r matches EntryPlan::Fail(m) && m@ == "Invalid XML filename"@,
            Some(st) => {
                let name = remove_all(st, "_ST"@);
                let key = slug_spec(name);
                if key == "defaultkeyassign"@ {
                    r is Skip
                } else {
                    r matches EntryPlan::Parse { key: k, name: n } && k@ == key && n@ == name
                }
            },
        }
    }
}

/// The text of an optional string slice.
pub open spec fn opt_str(o: Option<&str>) -> Option<Seq<char>> {
    match o {
        Some(t) => Some(t@),
        None => None,
    }
}

/// What to do with a directory entry, given its extension and file stem.
pub fn plan_entry(extension: Option<&str>, stem: Option<&str>) -> (r: EntryPlan)
    ensures
        entry_plan_spec(opt_str(extension), opt_str(stem), r),
{
    let is_xml = match extension {
        Some(e) => str_eq(e, "xml"),
        None => false,
    };
    if !is_xml {
        return EntryPlan::Skip;
    }
    match stem {
        None => {
            let mut m = String::new();
            push_str(&mut m, "Invalid XML filename");
            EntryPlan::Fail(m)
        },
        Some(st) => {
            let name = strip_st(st);
            let key = slug(name.as_str());
            if str_eq(key.as_str(), "defaultkeyassign") {
                EntryPlan::Skip
            } else {
                EntryPlan::Parse { key, name }
            }
        },
    }
}

// ---------------------------------------------------------------------------
// Layouts by key
// ---------------------------------------------------------------------------

/// Lexicographic order of texts by character.
pub open spec fn text_less(a: Seq<char>, b: Seq<char>) -> bool
    decreases a.len(),
{
    if a.len() == 0 {
        b.len() > 0
    } else if b.len() == 0 {
        false
    } else if a[0] != b[0] {
        a[0] < b[0]
    } else {
        text_less(a.drop_first(), b.drop_first())
    }
}

/// The order is transitive.
pub proof fn lemma_text_less_trans(a: Seq<char>, b: Seq<char>, c: Seq<char>)
    requires
        text_less(a, b),
        text_less(b, c),
    ensures
        text_less(a, c),
    decreases a.len(),
{
    if a.len() > 0 && b.len() > 0 && c.len() > 0 && a[0] == b[0] && b[0] == c[0] {
        lemma_text_less_trans(a.drop_first(), b.drop_first(), c.drop_first());
    }
}

/// No text comes before itself.
pub proof fn lemma_text_less_irreflexive(a: Seq<char>)
    ensures
        !text_less(a, a),
    decreases a.len(),
{
    if a.len() > 0 {
        lemma_text_less_irreflexive(a.drop_first());
    }
}

/// Two different texts are ordered one way or the other, never both ways.
pub proof fn lemma_text_less_total(a: Seq<char>, b: Seq<char>)
    ensures
        a != b ==> text_less(a, b) || text_less(b, a),
        !(text_less(a, b) && text_less(b, a)),
    decreases a.len(),
{
    if a.len() > 0 && b.len() > 0 {
        lemma_text_less_total(a.drop_first(), b.drop_first());
        if a[0] == b[0] && a.drop_first() == b.drop_first() {
            assert(a =~= seq![a[0]] + a.drop_first());
            assert(b =~= seq![b[0]] + b.drop_first());
        }
    } else if a.len() == 0 && b.len() == 0 {
        assert(a =~= b);
    }
}

/// Whether `a` comes before `b`.
pub fn text_lt(a: &str, b: &str) -> (r: bool)
    ensures
        r == text_less(a@, b@),
{
    let n = a.unicode_len();
    let m = b.unicode_len();
    let mut i: usize = 0;
    assert(a@.subrange(0, n as int) =~= a@);
    assert(b@.subrange(0, m as int) =~= b@);
    while i < n && i < m
        invariant
            n == a@.len(),
            m == b@.len(),
            0 <= i <= n,
            i <= m,
            text_less(a@, b@) == text_less(a@.subrange(i as int, n as int), b@.subrange(i as int, m as int)),
        decreases n - i,
    {
        let x = a.get_char(i);
        let y = b.get_char(i);
        let ghost sa = a@.subrange(i as int, n as int);
        let ghost sb = b@.subrange(i as int, m as int);
        if x != y {
            assert(sa[0] == x && sb[0] == y);
            return x < y;
        }
        proof {
            assert(sa.drop_first() =~= a@.subrange(i + 1, n as int));
            assert(sb.drop_first() =~= b@.subrange(i + 1, m as int));
        }
        i = i + 1;
    }
    i < m
}

/// A parameter layout: the key it is filed under, the struct name and the
/// fields.
#[derive(Debug)]
pub struct ParamLayout {
    pub key: String,
    pub name: String,
    pub fields: Vec<Field>,
}

/// The value of a parameter layout.
pub struct ParamLayoutView {
    pub key: Seq<char>,
    pub name: Seq<char>,
    pub fields: Seq<FieldView>,
}

impl ParamLayout {
    /// The layout's value.
    pub open spec fn model(self) -> ParamLayoutView {
        ParamLayoutView { key: self.key@, name: self.name@, fields: field_models(self.fields@) }
    }
}

/// The values of a list of layouts.
pub open spec fn layout_models(s: Seq<ParamLayout>) -> Seq<ParamLayoutView> {
    Seq::new(s.len(), |i: int| s[i].model())
}

/// Whether the keys are in strictly increasing order.
pub open spec fn keys_sorted(s: Seq<ParamLayoutView>) -> bool {
    forall|i: int, j: int| 0 <= i < j < s.len() ==> text_less(#[trigger] s[i].key, #[trigger] s[j].key)
}

/// How many layouts have a key before `k`.
pub open spec fn count_before(s: Seq<ParamLayoutView>, k: Seq<char>) -> nat
    decreases s.len(),
{
    if s.len() == 0 {
        0
    } else {
        count_before(s.drop_last(), k) + if text_less(s.last().key, k) {
            1nat
        } else {
            0nat
        }
    }
}

/// The layouts after filing `e` under its key: it replaces the layout with
/// the same key, or goes in key order.
pub open spec fn file_layout(s: Seq<ParamLayoutView>, e: ParamLayoutView) -> Seq<ParamLayoutView> {
    let p = count_before(s, e.key);
    if p < s.len() && s[p as int].key == e.key {
        s.update(p as int, e)
    } else {
        s.insert(p as int, e)
    }
}

/// In sorted layouts, the keys before `k` are the first ones.
pub proof fn lemma_count_before_sorted(s: Seq<ParamLayoutView>, k: Seq<char>, p: int)
    requires
        keys_sorted(s),
        0 <= p <= s.len(),
        forall|i: int| 0 <= i < p ==> text_less(#[trigger] s[i].key, k),
        p < s.len() ==> !text_less(s[p].key, k),
    ensures
        count_before(s, k) == p,
    decreases s.len(),
{
    if s.len() > 0 {
        if p == s.len() {
            assert forall|i: int| 0 <= i < p - 1 implies text_less(#[trigger] s.drop_last()[i].key, k) by {
                assert(s.drop_last()[i] == s[i]);
            }
            assert forall|i: int, j: int| 0 <= i < j < s.drop_last().len() implies text_less(#[trigger] s.drop_last()[i].key, #[trigger] s.drop_last()[j].key) by {
                assert(s.drop_last()[i] == s[i]);
                assert(s.drop_last()[j] == s[j]);
            }
            lemma_count_before_sorted(s.drop_last(), k, p - 1);
        } else {
            let last = s.len() - 1;
            lemma_text_less_total(s[p].key, k);
            if p < last {
                assert(text_less(s[p].key, s[last].key));
                if text_less(s[last].key, k) {
                    lemma_text_less_trans(s[p].key, s[last].key, k);
                }
            }
            assert(!text_less(s[last].key, k));
            assert forall|i: int| 0 <= i < p implies text_less(#[trigger] s.drop_last()[i].key, k) by {
                assert(s.drop_last()[i] == s[i]);
            }
            assert forall|i: int, j: int| 0 <= i < j < s.drop_last().len() implies text_less(#[trigger] s.drop_last()[i].key, #[trigger] s.drop_last()[j].key) by {
                assert(s.drop_last()[i] == s[i]);
                assert(s.drop_last()[j] == s[j]);
            }
            if p < last {
                assert(s.drop_last()[p] == s[p]);
            }
            lemma_count_before_sorted(s.drop_last(), k, p);
        }
    }
}

/// Filing a layout makes it the one under its key, and keeps every layout
/// filed under another key.
pub proof fn lemma_file_layout(s: Seq<ParamLayoutView>, e: ParamLayoutView)
    requires
        keys_sorted(s),
    ensures
        exists|i: int| 0 <= i < file_layout(s, e).len() && #[trigger] file_layout(s, e)[i] == e,
        forall|j: int| 0 <= j < s.len() && s[j].key != e.key ==> exists|i: int|
            0 <= i < file_layout(s, e).len() && #[trigger] file_layout(s, e)[i] == #[trigger] s[j],
        forall|i: int| 0 <= i < file_layout(s, e).len() ==> #[trigger] file_layout(s, e)[i] == e
            || exists|j: int| 0 <= j < s.len() && #[trigger] s[j] == file_layout(s, e)[i],
{
    let p = count_before(s, e.key) as int;
    lemma_count_before_le(s, e.key);
    let r = file_layout(s, e);
    if p < s.len() && s[p].key == e.key {
        assert(r[p] == e);
        assert forall|j: int| 0 <= j < s.len() && s[j].key != e.key implies exists|i: int|
            0 <= i < r.len() && #[trigger] r[i] == #[trigger] s[j] by {
            assert(j != p);
            assert(r[j] == s[j]);
        }
        assert forall|i: int| 0 <= i < r.len() implies #[trigger] r[i] == e
            || exists|j: int| 0 <= j < s.len() && #[trigger] s[j] == r[i] by {
            if i != p {
                assert(s[i] == r[i]);
            }
        }
    } else {
        assert(r[p] == e);
        assert forall|j: int| 0 <= j < s.len() && s[j].key != e.key implies exists|i: int|
            0 <= i < r.len() && #[trigger] r[i] == #[trigger] s[j] by {
            if j < p {
                assert(r[j] == s[j]);
            } else {
                assert(r[j + 1] == s[j]);
            }
        }
        assert forall|i: int| 0 <= i < r.len() implies #[trigger] r[i] == e
            || exists|j: int| 0 <= j < s.len() && #[trigger] s[j] == r[i] by {
            if i < p {
                assert(s[i] == r[i]);
            } else if i > p {
                assert(s[i - 1] == r[i]);
            }
        }
    }
}

/// At most all the layouts come before a key.
proof fn lemma_count_before_le(s: Seq<ParamLayoutView>, k: Seq<char>)
    ensures
        count_before(s, k) <= s.len(),
    decreases s.len(),
{
    if s.len() > 0 {
        lemma_count_before_le(s.drop_last(), k);
    }
}

/// Deduplication keeps every field's type, bit width and flags, keeps its
/// name as the start of the new one, and keeps the name whole where no
/// earlier field has the same snake-case name.
pub proof fn lemma_dedup_preserves(s: Seq<FieldView>, i: int)
    requires
        0 <= i < s.len(),
    ensures
        dedup_spec(s).len() == s.len(),
        dedup_spec(s)[i].ty == s[i].ty,
        dedup_spec(s)[i].bitfield_size == s[i].bitfield_size,
        dedup_spec(s)[i].flags == s[i].flags,
        dedup_spec(s)[i].name.len() >= s[i].name.len(),
        dedup_spec(s)[i].name.subrange(0, s[i].name.len() as int) == s[i].name,
        !dup_before(s, i) ==> dedup_spec(s)[i] == s[i],
{
    if dup_before(s, i) {
        let n = s[i].name + "_"@ + radix_digits(dup_count(s, i), 10);
        assert(n.subrange(0, s[i].name.len() as int) =~= s[i].name);
    } else {
        assert(s[i].name.subrange(0, s[i].name.len() as int) =~= s[i].name);
    }
}

/// The layouts of a set of definition files, filed by key in key order.
pub struct ParamLayouts {
    entries: Vec<ParamLayout>,
}

impl ParamLayouts {
    /// The layouts, in key order.
    pub closed spec fn model(self) -> Seq<ParamLayoutView> {
        layout_models(self.entries@)
    }

    /// The keys are in strictly increasing order.
    pub closed spec fn wf(self) -> bool {
        keys_sorted(self.model())
    }

    /// No layouts.
    pub fn new() -> (r: ParamLayouts)
        ensures
            r.wf(),
            r.model() == Seq::<ParamLayoutView>::empty(),
    {
        let r = ParamLayouts { entries: Vec::new() };
        assert(r.model() =~= Seq::<ParamLayoutView>::empty());
        r
    }

    /// How many layouts there are.
    pub fn len(&self) -> (r: usize)
        ensures
            r == self.model().len(),
    {
        self.entries.len()
    }

    /// The layout at `i` in key order.
    pub fn get(&self, i: usize) -> (r: &ParamLayout)
        requires
            i < self.model().len(),
        ensures
            r.model() == self.model()[i as int],
    {
        &self.entries[i]
    }

    /// Files `layout` under its key, replacing any layout with that key.
    pub fn insert(&mut self, layout: ParamLayout)
        requires
            old(self).wf(),
        ensures
            final(self).wf(),
            final(self).model() == file_layout(old(self).model(), layout.model()),
    {
        let ghost s = self.model();
        let ghost e = layout.model();
        let n = self.entries.len();
        let mut p: usize = 0;
        while p < n && text_lt(self.entries[p].key.as_str(), layout.key.as_str())
            invariant
                n == self.entries@.len(),
                s == layout_models(self.entries@),
                keys_sorted(s),
                e == layout.model(),
                0 <= p <= n,
                forall|i: int| 0 <= i < p ==> text_less(#[trigger] s[i].key, e.key),
            decreases n - p,
        {
            p = p + 1;
        }
        proof {
            lemma_count_before_sorted(s, e.key, p as int);
        }
        if p < n && str_eq(self.entries[p].key.as_str(), layout.key.as_str()) {
            let ghost before = self.entries@;
            self.entries.set(p, layout);
            proof {
                assert(layout_models(self.entries@) =~= s.update(p as int, e));
                assert forall|i: int, j: int| 0 <= i < j < self.model().len() implies text_less(#[trigger] self.model()[i].key, #[trigger] self.model()[j].key) by {
                    assert(s[i].key == self.model()[i].key);
                    assert(s[j].key == self.model()[j].key);
                }
            }
        } else {
            self.entries.insert(p, layout);
            proof {
                assert(layout_models(self.entries@) =~= s.insert(p as int, e));
                if p < n {
                    lemma_text_less_total(s[p as int].key, e.key);
                    assert(s[p as int].key != e.key);
                    assert(text_less(e.key, s[p as int].key));
                }
                assert forall|i: int, j: int| 0 <= i < j < self.model().len() implies text_less(#[trigger] self.model()[i].key, #[trigger] self.model()[j].key) by {
                    let m = self.model();
                    if j < p {
                        assert(m[i] == s[i] && m[j] == s[j]);
                    } else if j == p {
                        assert(m[i] == s[i]);
                    } else if i == p {
                        assert(m[j] == s[j - 1]);
                        if j - 1 > p {
                            lemma_text_less_trans(e.key, s[p as int].key, s[j - 1].key);
                        }
                    } else if i < p {
                        assert(m[i] == s[i] && m[j] == s[j - 1]);
                    } else {
                        assert(m[i] == s[i - 1] && m[j] == s[j - 1]);
                    }
                }
            }
        }
    }
}

// ---------------------------------------------------------------------------
// Generated source
// ---------------------------------------------------------------------------

/// The attribute line of flag `index` of a bitfield.
pub open spec fn flag_line(name: Seq<char>, index: nat) -> Seq<char> {
    "    #[bitflag("@ + fix_name_spec(name) + ", "@ + radix_digits(index, 10) + ")]\n"@
}

/// The attribute lines of the first `n` flags.
pub open spec fn flag_lines(flags: Seq<FieldView>, n: nat) -> Seq<char>
    decreases n,
{
    if n == 0 {
        Seq::empty()
    } else {
        flag_lines(flags, (n - 1) as nat) + flag_line(flags[n - 1].name, (n - 1) as nat)
    }
}

/// The lines of a struct member: its flags' attributes, then the member.
pub open spec fn member_text(f: FieldView) -> Seq<char> {
    flag_lines(f.flags, f.flags.len()) + "    pub "@ + fix_name_spec(snake_spec(f.name)) + ": "@ + f.ty + ",\n"@
}

/// The members of the first `n` fields.
pub open spec fn members_text(fs: Seq<FieldView>, n: nat) -> Seq<char>
    decreases n,
{
    if n == 0 {
        Seq::empty()
    } else {
        members_text(fs, (n - 1) as nat) + member_text(fs[n - 1])
    }
}

/// The struct of a layout.
pub open spec fn struct_text(l: ParamLayoutView) -> Seq<char> {
    "\n#[derive(ParamStruct, Debug)]\n#[repr(C)]\npub struct "@ + l.name + " {\n"@ + members_text(l.fields, l.fields.len()) + "}\n"@
}

/// The entry of a layout in the table of visitors.
pub open spec fn registration_line(name: Seq<char>) -> Seq<char> {
    "        (\""@ + name + "\".to_string(), unsafe { get_lambda::<"@ + name + ">() }),\n"@
}

/// The table entries of the first `n` layouts.
pub open spec fn registrations(ls: Seq<ParamLayoutView>, n: nat) -> Seq<char>
    decreases n,
{
    if n == 0 {
        Seq::empty()
    } else {
        registrations(ls, (n - 1) as nat) + registration_line(ls[n - 1].name)
    }
}

/// The structs of the first `n` layouts.
pub open spec fn structs(ls: Seq<ParamLayoutView>, n: nat) -> Seq<char>
    decreases n,
{
    if n == 0 {
        Seq::empty()
    } else {
        structs(ls, (n - 1) as nat) + struct_text(ls[n - 1])
    }
}

/// The text that closes the table of visitors.
pub open spec fn table_end() -> Seq<char> {
    "    ].into_iter().collect()\n});"@
}

/// The generated module: the preamble, the table entry of each layout, the
/// end of the table, and the struct of each layout, in key order.
pub open spec fn param_source_spec(preamble: Seq<char>, ls: Seq<ParamLayoutView>) -> Seq<char> {
    preamble + registrations(ls, ls.len()) + table_end() + structs(ls, ls.len())
}

/// Appends the member lines of `f`.
fn push_member(out: &mut String, f: &Field)
    ensures
        final(out)@ == old(out)@ + member_text(f.model()),
{
    proof {
        lemma_field_models(f.flags@);
    }
    let ghost fv = f.model();
    let ghost start = out@;
    let mut i: usize = 0;
    while i < f.flags.len()
        invariant
            fv == f.model(),
            fv.flags.len() == f.flags@.len(),
            forall|k: int| 0 <= k < f.flags@.len() ==> #[trigger] fv.flags[k] == f.flags@[k].model(),
            0 <= i <= f.flags@.len(),
            out@ == start + flag_lines(fv.flags, i as nat),
        decreases f.flags@.len() - i,
    {
        let flag = &f.flags[i];
        push_str(out, "    #[bitflag(");
        let fixed = fix_name(flag.name.as_str());
        push_str(out, fixed.as_str());
        push_str(out, ", ");
        push_decimal(out, i as u64);
        push_str(out, ")]\n");
        proof {
            assert((i as u64) as nat == i as nat);
            assert(fv.flags[i as int] == flag.model());
            assert(out@ =~= start + flag_lines(fv.flags, (i + 1) as nat));
        }
        i = i + 1;
    }
    push_str(out, "    pub ");
    let snake = snake_case(f.name.as_str());
    let fixed = fix_name(snake.as_str());
    push_str(out, fixed.as_str());
    push_str(out, ": ");
    push_str(out, f.ty.as_str());
    push_str(out, ",\n");
    assert(out@ =~= start + member_text(fv));
}

/// Appends the struct of a layout.
fn push_struct(out: &mut String, l: &ParamLayout)
    ensures
        final(out)@ == old(out)@ + struct_text(l.model()),
{
    proof {
        lemma_field_models(l.fields@);
    }
    let ghost lv = l.model();
    let ghost start = out@;
    push_str(out, "\n#[derive(ParamStruct, Debug)]\n#[repr(C)]\npub struct ");
    push_str(out, l.name.as_str());
    push_str(out, " {\n");
    let ghost head = out@;
    let mut i: usize = 0;
    while i < l.fields.len()
        invariant
            lv == l.model(),
            lv.fields.len() == l.fields@.len(),
            forall|k: int| 0 <= k < l.fields@.len() ==> #[trigger] lv.fields[k] == l.fields@[k].model(),
            0 <= i <= l.fields@.len(),
            out@ == head + members_text(lv.fields, i as nat),
        decreases l.fields@.len() - i,
    {
        push_member(out, &l.fields[i]);
        proof {
            assert(lv.fields[i as int] == l.fields@[i as int].model());
            assert(out@ =~= head + members_text(lv.fields, (i + 1) as nat));
        }
        i = i + 1;
    }
    push_str(out, "}\n");
    assert(out@ =~= start + struct_text(lv));
}

/// The message of a definition file that cannot be read or parsed, with the
/// cause after it.
pub open spec fn parsing_error_text(path: Seq<char>, cause: Seq<char>) -> Seq<char> {
    "Parsing "@ + path + ": "@ + cause
}

/// The message when no definition was found.
pub open spec fn no_definitions_text(dir: Seq<char>) -> Seq<char> {
    "No parameter definitions in "@ + dir
}

impl ParamLayouts {
    /// Parses the definition file at `path`, given its text or the error
    /// reading it, and files its layout under `key` as the struct `name`. A
    /// failure names the file, then gives the reading or parsing error.
    pub fn add_definition(&mut self, key: String, name: String, path: &str, text: Result<String, String>) -> (r: Result<(), String>)
        requires
            old(self).wf(),
        ensures
            final(self).wf(),
            match text {
                Err(e) => r matches Err(m) && m@ == parsing_error_text(path@, e@) && final(self).model() == old(self).model(),
                Ok(xml) => match layout_spec(xml@) {
                    Err(e) => r matches Err(m) && m@ == parsing_error_text(path@, e) && final(self).model() == old(self).model(),
                    Ok(fields) => r is Ok && final(self).model() == file_layout(
                        old(self).model(),
                        ParamLayoutView { key: key@, name: name@, fields },
                    ),
                },
            },
    {
        let parsed = match text {
            Err(e) => Err(e),
            Ok(xml) => parse_layout(xml.as_str()),
        };
        match parsed {
            Err(e) => {
                let mut m = String::new();
                push_str(&mut m, "Parsing ");
                push_str(&mut m, path);
                push_str(&mut m, ": ");
                push_str(&mut m, e.as_str());
                Err(m)
            },
            Ok(fields) => {
                self.insert(ParamLayout { key, name, fields });
                Ok(())
            },
        }
    }

    /// The generated module for the layouts, after `preamble`, or an error
    /// naming the definitions directory `definitions` when there are none.
    pub fn render(&self, preamble: &str, definitions: &str) -> (r: Result<String, String>)
        ensures
            self.model().len() == 0 ==> (r matches Err(m) && m@ == no_definitions_text(definitions@)),
            self.model().len() > 0 ==> (r matches Ok(s) && s@ == param_source_spec(preamble@, self.model())),
    {
        let ghost ls = self.model();
        let n = self.entries.len();
        if n == 0 {
            let mut m = String::new();
            push_str(&mut m, "No parameter definitions in ");
            push_str(&mut m, definitions);
            return Err(m);
        }
        let mut out = String::new();
        push_str(&mut out, preamble);
        let mut i: usize = 0;
        while i < n
            invariant
                n == self.entries@.len(),
                ls == self.model(),
                0 <= i <= n,
                out@ == preamble@ + registrations(ls, i as nat),
            decreases n - i,
        {
            let l = &self.entries[i];
            push_str(&mut out, "        (\"");
            push_str(&mut out, l.name.as_str());
            push_str(&mut out, "\".to_string(), unsafe { get_lambda::<");
            push_str(&mut out, l.name.as_str());
            push_str(&mut out, ">() }),\n");
            proof {
                assert(ls[i as int] == l.model());
                assert(out@ =~= preamble@ + registrations(ls, (i + 1) as nat));
            }
            i = i + 1;
        }
        push_str(&mut out, "    ].into_iter().collect()\n});");
        let ghost head = out@;
        let mut j: usize = 0;
        while j < n
            invariant
                n == self.entries@.len(),
                ls == self.model(),
                0 <= j <= n,
                out@ == head + structs(ls, j as nat),
            decreases n - j,
        {
            push_struct(&mut out, &self.entries[j]);
            proof {
                assert(ls[j as int] == self.entries@[j as int].model());
                assert(out@ =~= head + structs(ls, (j + 1) as nat));
            }
            j = j + 1;
        }
        assert(out@ =~= param_source_spec(preamble@, ls));
        Ok(out)
    }
}

} // verus!
