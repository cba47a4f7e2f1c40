//! Decisions of the small widgets: the mesh-color cycle, the rune gift and
//! where the savefile lives.

use vstd::prelude::*;
use regex::Regex;
use crate::numfmt::{push_decimal, push_str, radix_digits};

verus! {

/// Whether `s` is sorted in non-decreasing order.
pub open spec fn sorted(s: Seq<i32>) -> bool {
    forall|i: int, j: int| 0 <= i <= j < s.len() ==> s[i] <= s[j]
}

/// `v` sorted in non-decreasing order.
pub fn sort_values(v: &[i32]) -> (r: Vec<i32>)
    ensures
        sorted(r@),
        r@.to_multiset() == v@.to_multiset(),
{
    broadcast use vstd::seq_lib::group_to_multiset_ensures;

    let mut r: Vec<i32> = Vec::new();
    let mut i: usize = 0;
    while i < v.len()
        invariant
            0 <= i <= v@.len(),
            sorted(r@),
            r@.to_multiset() == v@.subrange(0, i as int).to_multiset(),
        decreases v@.len() - i,
    {
        let x = v[i];
        let mut p: usize = 0;
        while p < r.len() && r[p] <= x
            invariant
                0 <= p <= r@.len(),
                forall|k: int| 0 <= k < p ==> r@[k] <= x,
            decreases r@.len() - p,
        {
            p = p + 1;
        }
        let ghost before = r@;
        r.insert(p, x);
        proof {
            assert(r@ == before.insert(p as int, x));
            assert forall|a: int, b: int| 0 <= a <= b < r@.len() implies r@[a] <= r@[b] by {
                if a < p && b > p {
                    assert(r@[a] == before[a]);
                    assert(r@[b] == before[b - 1]);
                } else if a < p && b == p {
                } else if a == p && b > p {
                    assert(r@[b] == before[b - 1]);
                    assert(before[p as int] > x);
                } else if a < p {
                    assert(r@[a] == before[a] && r@[b] == before[b]);
                } else if a > p {
                    assert(r@[a] == before[a - 1] && r@[b] == before[b - 1]);
                }
            }
            vstd::seq_lib::to_multiset_insert(before, p as int, x);
            assert(v@.subrange(0, i + 1) =~= v@.subrange(0, i as int).push(x));
            vstd::seq_lib::to_multiset_build(v@.subrange(0, i as int), x);
        }
        i = i + 1;
    }
    assert(v@.subrange(0, v@.len() as int) =~= v@);
    r
}

/// The mesh-color widget: the values it cycles through, in order.
pub struct CycleColor {
    values: Vec<i32>,
}

/// The value after `current` in the cycle: the first value above it, or the
/// first value when there is none above it or no current value (0 when there
/// are no values).
pub open spec fn next_color_spec(values: Seq<i32>, current: Option<i32>) -> i32 {
    let first = if values.len() > 0 {
        values[0]
    } else {
        0
    };
    match current {
        Some(c) => if exists|i: int| 0 <= i < values.len() && values[i] > c {
            values[first_above(values, c)]
        } else {
            first
        },
        None => first,
    }
}

/// The index of the first value above `c`.
pub open spec fn first_above(values: Seq<i32>, c: i32) -> int {
    choose|i: int| 0 <= i < values.len() && values[i] > c && forall|j: int| 0 <= j < i ==> values[j] <= c
}

/// The label of the mesh-color widget.
pub open spec fn color_label_spec(current: Option<i32>) -> Seq<char> {
    match current {
        Some(c) => "Mesh Color ["@ + signed_text(c as int) + "]"@,
        None => "Mesh Color"@,
    }
}

/// A signed number as `{}` prints it.
pub open spec fn signed_text(n: int) -> Seq<char> {
    if n < 0 {
        seq!['-'] + radix_digits((-n) as nat, 10)
    } else {
        radix_digits(n as nat, 10)
    }
}

/// Appends a signed number.
fn push_signed(s: &mut String, n: i32)
    ensures
        final(s)@ == old(s)@ + signed_text(n as int),
{
    if n < 0 {
        crate::numfmt::push_char(s, '-');
        let m: u64 = ((-(n as i64)) as u64);
        push_decimal(s, m);
    } else {
        push_decimal(s, n as u64);
    }
}

impl CycleColor {
    /// The values, in order.
    pub closed spec fn values_spec(&self) -> Seq<i32> {
        self.values@
    }

    /// The widget for `values`, which it keeps sorted.
    pub fn new(values: &[i32]) -> (r: CycleColor)
        ensures
            sorted(r.values_spec()),
            r.values_spec().to_multiset() == values@.to_multiset(),
    {
        CycleColor { values: sort_values(values) }
    }

    /// The value to write after reading `current`.
    pub fn next(&self, current: Option<i32>) -> (r: i32)
        ensures
            r == next_color_spec(self.values_spec(), current),
    {
        if let Some(c) = current {
            let mut i: usize = 0;
            while i < self.values.len()
                invariant
                    current == Some(c),
                    0 <= i <= self.values@.len(),
                    forall|j: int| 0 <= j < i ==> self.values@[j] <= c,
                decreases self.values@.len() - i,
            {
                if self.values[i] > c {
                    let ghost k = first_above(self.values_spec(), c);
                    proof {
                        assert(0 <= i < self.values@.len() && self.values@[i as int] > c && forall|j: int| 0 <= j < i ==> self.values@[j] <= c);
                        if k < i {
                            assert(self.values@[k] <= c);
                        }
                        if k > i {
                            assert(self.values@[i as int] <= c);
                        }
                        assert(k == i);
                    }
                    return self.values[i];
                }
                i = i + 1;
            }
        }
        if self.values.len() > 0 {
            self.values[0]
        } else {
            0
        }
    }

    /// The label shown for the value read.
    pub fn label(current: Option<i32>) -> (r: String)
        ensures
            r@ == color_label_spec(current),
    {
        let mut s = String::new();
        match current {
            Some(c) => {
                push_str(&mut s, "Mesh Color [");
                push_signed(&mut s, c);
                push_str(&mut s, "]");
            },
            None => push_str(&mut s, "Mesh Color"),
        }
        s
    }
}

/// The label of the rune gift.
pub open spec fn runes_label_spec(amount: u32) -> Seq<char> {
    "Add "@ + radix_digits(amount as nat, 10) + " runes"@
}

/// The label of the widget that adds `amount` runes.
pub fn runes_label(amount: u32) -> (r: String)
    ensures
        r@ == runes_label_spec(amount),
{
    let mut s = String::new();
    push_str(&mut s, "Add ");
    push_decimal(&mut s, amount as u64);
    push_str(&mut s, " runes");
    s
}

/// The rune count to write: the one read plus the gift.
pub fn runes_after(current: u32, amount: u32) -> (r: u32)
    requires
        current + amount <= u32::MAX,
    ensures
        r == current + amount,
{
    current + amount
}

/// Whether `c` is a lowercase hexadecimal digit.
pub open spec fn is_lower_hex(c: char) -> bool {
    ('0' <= c && c <= '9') || ('a' <= c && c <= 'f')
}

/// Whether `s` names a save directory: one or more lowercase hexadecimal
/// digits.
pub open spec fn is_save_dir_name(s: Seq<char>) -> bool {
    s.len() > 0 && forall|i: int| 0 <= i < s.len() ==> is_lower_hex(#[trigger] s[i])
}

/// `regex::Regex::is_match` with the pattern `^[a-f0-9]+$`. Claimed, as the
/// pattern reads: the text is one or more characters, each of `a`..`f` or
/// `0`..`9`.
#[verifier::external_body]
fn matches_save_dir(name: &str) -> (r: bool)
    ensures
        r == is_save_dir_name(name@),
{
    Regex::new(r"^[a-f0-9]+$").unwrap().is_match(name)
}

/// The file of the first save slot inside a save directory.
pub open spec fn savefile_name() -> Seq<char> {
    "ER0000.sl2"@
}

/// The message when no save directory is found.
pub open spec fn no_savefile_text() -> Seq<char> {
    "Couldn't find savefile path"@
}

/// Among the entries of the game's data directory (each by its name and
/// whether it is a directory), the first save directory.
pub fn find_save_dir(names: &Vec<String>, is_dir: &Vec<bool>) -> (r: Result<usize, String>)
    requires
        names@.len() == is_dir@.len(),
    ensures
        match r {
            Ok(i) => i < names@.len() && is_save_dir_name(names@[i as int]@) && is_dir@[i as int]
                && forall|j: int| 0 <= j < i ==> !(is_save_dir_name(#[trigger] names@[j]@) && is_dir@[j]),
            Err(m) => m@ == no_savefile_text() && forall|j: int| 0 <= j < names@.len() ==> !(is_save_dir_name(#[trigger] names@[j]@) && is_dir@[j]),
        },
{
    let mut i: usize = 0;
    while i < names.len()
        invariant
            names@.len() == is_dir@.len(),
            0 <= i <= names@.len(),
            forall|j: int| 0 <= j < i ==> !(is_save_dir_name(#[trigger] names@[j]@) && is_dir@[j]),
        decreases names@.len() - i,
    {
        if matches_save_dir(names[i].as_str()) && is_dir[i] {
            return Ok(i);
        }
        i = i + 1;
    }
    let mut m = String::new();
    push_str(&mut m, "Couldn't find savefile path");
    Err(m)
}

/// A member of the character's stats, points or blessings.
#[derive(Clone, Copy, Debug, PartialEq, Eq)]
pub enum StatField {
    Level,
    Vigor,
    Mind,
    Endurance,
    Strength,
    Dexterity,
    Intelligence,
    Faith,
    Arcane,
    Runes,
    Hp,
    Fp,
    Stamina,
    MaxHp,
    MaxFp,
    MaxStamina,
    Scadutree,
    ReveredSpiritAsh,
}

/// A row of the stats editor: an editable number with its label and bounds
/// (a 32-bit integer, or a byte for the blessings), or a separator.
#[derive(Clone, Copy, Debug, PartialEq, Eq)]
pub enum StatRow {
    Int { label: &'static str, field: StatField, min: i32, max: i32 },
    Byte { label: &'static str, field: StatField, min: i8, max: i8 },
    Separator,
}

/// The field, bounds and kind of a row, without its label.
pub open spec fn row_shape(r: StatRow) -> (Option<StatField>, int, int, bool) {
    match r {
        StatRow::Int { field, min, max, .. } => (Some(field), min as int, max as int, false),
        StatRow::Byte { field, min, max, .. } => (Some(field), min as int, max as int, true),
        StatRow::Separator => (None, 0, 0, false),
    }
}

/// The label of a row (empty for a separator).
pub open spec fn row_label(r: StatRow) -> Seq<char> {
    match r {
        StatRow::Int { label, .. } => label@,
        StatRow::Byte { label, .. } => label@,
        StatRow::Separator => Seq::empty(),
    }
}

/// The rows for the stats: level 1 to 713, the attributes 1 to 99, runes
/// from 0.
pub open spec fn stat_rows_spec() -> Seq<(Seq<char>, (Option<StatField>, int, int, bool))> {
    seq![
        ("Level"@, (Some(StatField::Level), 1, 713, false)),
        ("Vigor"@, (Some(StatField::Vigor), 1, 99, false)),
        ("Mind"@, (Some(StatField::Mind), 1, 99, false)),
        ("Endurance"@, (Some(StatField::Endurance), 1, 99, false)),
        ("Strength"@, (Some(StatField::Strength), 1, 99, false)),
        ("Dexterity"@, (Some(StatField::Dexterity), 1, 99, false)),
        ("Intelligence"@, (Some(StatField::Intelligence), 1, 99, false)),
        ("Faith"@, (Some(StatField::Faith), 1, 99, false)),
        ("Arcane"@, (Some(StatField::Arcane), 1, 99, false)),
        ("Souls"@, (Some(StatField::Runes), 0, 0x7fff_ffff, false)),
    ]
}

/// The rows for the points, after a separator: current and maximum HP, FP
/// and stamina, from 0.
pub open spec fn point_rows_spec() -> Seq<(Seq<char>, (Option<StatField>, int, int, bool))> {
    seq![
        (Seq::empty(), (None, 0, 0, false)),
        ("HP"@, (Some(StatField::Hp), 0, 0x7fff_ffff, false)),
        ("FP"@, (Some(StatField::Fp), 0, 0x7fff_ffff, false)),
        ("SP"@, (Some(StatField::Stamina), 0, 0x7fff_ffff, false)),
        ("Max HP"@, (Some(StatField::MaxHp), 0, 0x7fff_ffff, false)),
        ("Max FP"@, (Some(StatField::MaxFp), 0, 0x7fff_ffff, false)),
        ("Max SP"@, (Some(StatField::MaxStamina), 0, 0x7fff_ffff, false)),
    ]
}

/// The rows for the blessings, after a separator.
pub open spec fn blessing_rows_spec() -> Seq<(Seq<char>, (Option<StatField>, int, int, bool))> {
    seq![
        (Seq::empty(), (None, 0, 0, false)),
        ("Scadutree Blessing"@, (Some(StatField::Scadutree), 0, 20, true)),
        ("Revered Spirit Ash"@, (Some(StatField::ReveredSpiritAsh), 0, 10, true)),
    ]
}

/// The rows of the stats editor when the stats were read, with the points
/// and the blessings where those were read too.
pub open spec fn editor_rows_spec(has_points: bool, has_blessings: bool) -> Seq<(Seq<char>, (Option<StatField>, int, int, bool))> {
    stat_rows_spec() + (if has_points {
        point_rows_spec()
    } else {
        Seq::empty()
    }) + (if has_blessings {
        blessing_rows_spec()
    } else {
        Seq::empty()
    })
}

/// The rows as label and shape.
pub open spec fn rows_view(v: Seq<StatRow>) -> Seq<(Seq<char>, (Option<StatField>, int, int, bool))> {
    Seq::new(v.len(), |i: int| (row_label(v[i]), row_shape(v[i])))
}

fn push_row(v: &mut Vec<StatRow>, r: StatRow)
    ensures
        rows_view(final(v)@) == rows_view(old(v)@).push((row_label(r), row_shape(r))),
{
    v.push(r);
    assert(rows_view(v@) =~= rows_view(old(v)@).push((row_label(r), row_shape(r))));
}

/// The rows of the stats editor.
pub fn editor_rows(has_points: bool, has_blessings: bool) -> (r: Vec<StatRow>)
    ensures
        rows_view(r@) == editor_rows_spec(has_points, has_blessings),
{
    let mut v: Vec<StatRow> = Vec::new();
    assert(rows_view(v@) =~= Seq::empty());
    push_row(&mut v, StatRow::Int { label: "Level", field: StatField::Level, min: 1, max: 713 });
    push_row(&mut v, StatRow::Int { label: "Vigor", field: StatField::Vigor, min: 1, max: 99 });
    push_row(&mut v, StatRow::Int { label: "Mind", field: StatField::Mind, min: 1, max: 99 });
    push_row(&mut v, StatRow::Int { label: "Endurance", field: StatField::Endurance, min: 1, max: 99 });
    push_row(&mut v, StatRow::Int { label: "Strength", field: StatField::Strength, min: 1, max: 99 });
    push_row(&mut v, StatRow::Int { label: "Dexterity", field: StatField::Dexterity, min: 1, max: 99 });
    push_row(&mut v, StatRow::Int { label: "Intelligence", field: StatField::Intelligence, min: 1, max: 99 });
    push_row(&mut v, StatRow::Int { label: "Faith", field: StatField::Faith, min: 1, max: 99 });
    push_row(&mut v, StatRow::Int { label: "Arcane", field: StatField::Arcane, min: 1, max: 99 });
    push_row(&mut v, StatRow::Int { label: "Souls", field: StatField::Runes, min: 0, max: i32::MAX });
    assert(rows_view(v@) =~= stat_rows_spec());
    if has_points {
        push_row(&mut v, StatRow::Separator);
        push_row(&mut v, StatRow::Int { label: "HP", field: StatField::Hp, min: 0, max: i32::MAX });
        push_row(&mut v, StatRow::Int { label: "FP", field: StatField::Fp, min: 0, max: i32::MAX });
        push_row(&mut v, StatRow::Int { label: "SP", field: StatField::Stamina, min: 0, max: i32::MAX });
        push_row(&mut v, StatRow::Int { label: "Max HP", field: StatField::MaxHp, min: 0, max: i32::MAX });
        push_row(&mut v, StatRow::Int { label: "Max FP", field: StatField::MaxFp, min: 0, max: i32::MAX });
        push_row(&mut v, StatRow::Int { label: "Max SP", field: StatField::MaxStamina, min: 0, max: i32::MAX });
        assert(rows_view(v@) =~= stat_rows_spec() + point_rows_spec());
    }
    let ghost head = rows_view(v@);
    if has_blessings {
        push_row(&mut v, StatRow::Separator);
        push_row(&mut v, StatRow::Byte { label: "Scadutree Blessing", field: StatField::Scadutree, min: 0, max: 20 });
        push_row(&mut v, StatRow::Byte { label: "Revered Spirit Ash", field: StatField::ReveredSpiritAsh, min: 0, max: 10 });
        assert(rows_view(v@) =~= head + blessing_rows_spec());
    }
    assert(rows_view(v@) =~= editor_rows_spec(has_points, has_blessings));
    v
}

/// The id that the warp function takes for the grace with id `grace`: the
/// grace's id less 1000.
pub fn warp_grace_id(grace: u32) -> (r: u32)
    requires
        grace >= 1000,
    ensures
        r == grace - 1000,
{
    grace - 0x3e8
}

} // verus!
