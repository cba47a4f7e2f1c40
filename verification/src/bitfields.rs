//! The accessors that the parameter structs get for their one-bit flags, and
//! how a parameter visitor walks their members.

use vstd::prelude::*;
use crate::config::str_eq;

verus! {

/// Whether bit `index` of `value` is set.
pub open spec fn bit_of(value: u32, index: u32) -> bool {
    value & (1u32 << index) != 0
}

/// `value` with bit `index` set (`state` true) or cleared.
pub open spec fn with_bit(value: u32, index: u32, state: bool) -> u32 {
    if state {
        value | (1u32 << index)
    } else {
        value & !(1u32 << index)
    }
}

/// Reads flag `index` of a bitfield.
pub fn flag_get(value: u32, index: u32) -> (r: bool)
    requires
        index < 32,
    ensures
        r == bit_of(value, index),
{
    value & (1u32 << index) != 0
}

/// Sets or clears flag `index` of a bitfield.
pub fn flag_set(value: u32, index: u32, state: bool) -> (r: u32)
    requires
        index < 32,
    ensures
        r == with_bit(value, index, state),
{
    if state {
        value | (1u32 << index)
    } else {
        value & !(1u32 << index)
    }
}

/// Reading a flag after setting it gives what was set.
pub proof fn lemma_flag_set_get(value: u32, index: u32, state: bool)
    requires
        index < 32,
    ensures
        bit_of(with_bit(value, index, state), index) == state,
{
    if state {
        assert((value | (1u32 << index)) & (1u32 << index) != 0) by (bit_vector)
            requires
                index < 32,
        ;
    } else {
        assert((value & !(1u32 << index)) & (1u32 << index) == 0) by (bit_vector)
            requires
                index < 32,
        ;
    }
}

/// Setting a flag leaves every other flag as it was.
pub proof fn lemma_flag_set_others(value: u32, index: u32, other: u32, state: bool)
    requires
        index < 32,
        other < 32,
        index != other,
    ensures
        bit_of(with_bit(value, index, state), other) == bit_of(value, other),
{
    if state {
        assert(((value | (1u32 << index)) & (1u32 << other) != 0) == (value & (1u32 << other) != 0)) by (bit_vector)
            requires
                index < 32,
                other < 32,
                index != other,
        ;
    } else {
        assert(((value & !(1u32 << index)) & (1u32 << other) != 0) == (value & (1u32 << other) != 0)) by (bit_vector)
            requires
                index < 32,
                other < 32,
                index != other,
        ;
    }
}

/// Setting a flag to the value it has changes nothing.
pub proof fn lemma_flag_set_same(value: u32, index: u32)
    requires
        index < 32,
    ensures
        with_bit(value, index, bit_of(value, index)) == value,
{
    assert((value & (1u32 << index) != 0) ==> (value | (1u32 << index)) == value) by (bit_vector)
        requires
            index < 32,
    ;
    assert((value & (1u32 << index) == 0) ==> (value & !(1u32 << index)) == value) by (bit_vector)
        requires
            index < 32,
    ;
}

/// A bitfield of `width` bits stays within them when one of its flags is
/// set or cleared.
pub proof fn lemma_flag_set_width(value: u32, index: u32, state: bool, width: u32)
    requires
        width == 8 || width == 16,
        index < width,
        value < (1u32 << width),
    ensures
        with_bit(value, index, state) < (1u32 << width),
{
    assert((value | (1u32 << index)) < (1u32 << width)) by (bit_vector)
        requires
            width == 8 || width == 16,
            index < width,
            value < (1u32 << width),
    ;
    assert((value & !(1u32 << index)) <= value) by (bit_vector);
}

/// How a parameter visitor walks a struct member.
#[derive(Debug, Clone, Copy, PartialEq, Eq)]
pub enum MemberVisit {
    /// Each one-bit flag is visited as a boolean.
    Flags,
    /// The member is visited as a number of its type.
    Scalar,
    /// Array members are left out.
    Skip,
    /// A type the visitor does not handle.
    Unrecognized,
}

/// Whether `ty` is a number type the visitor handles.
pub open spec fn visitable_scalar(ty: Seq<char>) -> bool {
    ty == "u8"@ || ty == "u16"@ || ty == "u32"@ || ty == "i8"@ || ty == "i16"@ || ty == "i32"@ || ty == "f32"@
}

/// How a member of type `ty` (an array when `is_array`) is visited: arrays
/// are skipped, a `u8` that holds flags is visited flag by flag, other
/// number types as numbers.
pub open spec fn member_visit_spec(ty: Seq<char>, is_array: bool, has_flags: bool) -> MemberVisit {
    if is_array {
        MemberVisit::Skip
    } else if ty == "u8"@ && has_flags {
        MemberVisit::Flags
    } else if visitable_scalar(ty) {
        MemberVisit::Scalar
    } else {
        MemberVisit::Unrecognized
    }
}

/// How a member is visited.
pub fn member_visit(ty: &str, is_array: bool, has_flags: bool) -> (r: MemberVisit)
    ensures
        r == member_visit_spec(ty@, is_array, has_flags),
{
    if is_array {
        MemberVisit::Skip
    } else if str_eq(ty, "u8") && has_flags {
        MemberVisit::Flags
    } else if str_eq(ty, "u8") || str_eq(ty, "u16") || str_eq(ty, "u32") || str_eq(ty, "i8") || str_eq(ty, "i16")
        || str_eq(ty, "i32") || str_eq(ty, "f32") {
        MemberVisit::Scalar
    } else {
        MemberVisit::Unrecognized
    }
}

/// A member's bits after a visitor has been handed its flags in turn: for
/// each flag (bit `indices[j]`) the visitor answered `answers[j]`, and that
/// answer was written back before the next flag was read.
pub open spec fn flags_after_visit(value: u32, indices: Seq<u32>, answers: Seq<bool>) -> u32
    decreases indices.len(),
{
    if indices.len() == 0 || answers.len() < indices.len() {
        value
    } else {
        with_bit(flags_after_visit(value, indices.drop_last(), answers.take(indices.len() - 1)), indices.last(), answers[indices.len() - 1])
    }
}

/// Writes back what a visitor answered for each flag of a member, in order:
/// flag `j` (bit `indices[j]`) is set to `answers[j]`.
pub fn write_back_flags(value: u32, indices: &Vec<u32>, answers: &Vec<bool>) -> (r: u32)
    requires
        indices@.len() == answers@.len(),
        forall|j: int| 0 <= j < indices@.len() ==> #[trigger] indices@[j] < 32,
    ensures
        r == flags_after_visit(value, indices@, answers@),
{
    let mut v = value;
    let mut i: usize = 0;
    while i < indices.len()
        invariant
            indices@.len() == answers@.len(),
            forall|j: int| 0 <= j < indices@.len() ==> #[trigger] indices@[j] < 32,
            0 <= i <= indices@.len(),
            v == flags_after_visit(value, indices@.take(i as int), answers@.take(i as int)),
        decreases indices@.len() - i,
    {
        proof {
            let t = indices@.take(i + 1);
            assert(t.drop_last() =~= indices@.take(i as int));
            assert(answers@.take(i + 1).take(i as int) =~= answers@.take(i as int));
            assert(t.last() == indices@[i as int]);
        }
        v = flag_set(v, indices[i], answers[i]);
        i = i + 1;
    }
    assert(indices@.take(indices@.len() as int) =~= indices@);
    assert(answers@.take(answers@.len() as int) =~= answers@);
    v
}

/// The visitor's answers are what the member holds afterwards: when every
/// flag has its own bit, each flag's bit is what the visitor answered for it,
/// and every bit that is no flag's is as it was.
pub proof fn lemma_visit_writes_back(value: u32, indices: Seq<u32>, answers: Seq<bool>)
    requires
        indices.len() == answers.len(),
        forall|j: int| 0 <= j < indices.len() ==> #[trigger] indices[j] < 32,
        forall|j: int, k: int| 0 <= j < k < indices.len() ==> indices[j] != indices[k],
    ensures
        forall|j: int| 0 <= j < indices.len() ==> bit_of(flags_after_visit(value, indices, answers), #[trigger] indices[j]) == answers[j],
        forall|o: u32| o < 32 && !indices.contains(o) ==> bit_of(flags_after_visit(value, indices, answers), o) == bit_of(value, o),
    decreases indices.len(),
{
    if indices.len() > 0 {
        let n = indices.len() - 1;
        let pi = indices.drop_last();
        let pa = answers.take(n);
        assert forall|j: int, k: int| 0 <= j < k < pi.len() implies pi[j] != pi[k] by {
            assert(pi[j] == indices[j] && pi[k] == indices[k]);
        }
        lemma_visit_writes_back(value, pi, pa);
        let before = flags_after_visit(value, pi, pa);
        lemma_flag_set_get(before, indices[n], answers[n]);
        assert forall|j: int| 0 <= j < indices.len() implies bit_of(flags_after_visit(value, indices, answers), #[trigger] indices[j]) == answers[j] by {
            if j < n {
                assert(pi[j] == indices[j]);
                assert(pa[j] == answers[j]);
                lemma_flag_set_others(before, indices[n], indices[j], answers[n]);
            }
        }
        assert forall|o: u32| o < 32 && !indices.contains(o) implies bit_of(flags_after_visit(value, indices, answers), o) == bit_of(value, o) by {
            assert(o != indices[n as int]);
            if pi.contains(o) {
                let j = choose|j: int| 0 <= j < pi.len() && pi[j] == o;
                assert(indices[j] == o);
            }
            lemma_flag_set_others(before, indices[n], o, answers[n]);
        }
    }
}

} // verus!
