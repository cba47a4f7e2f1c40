//! The parameter sets of the game's regulation data: which sets there are,
//! where each one's rows are, and where the data of a row is.

use vstd::prelude::*;
use crate::numfmt::push_str;
use crate::paramdef::{lemma_text_less_total, lemma_text_less_trans, text_less, text_lt};
use crate::config::str_eq;

verus! {

/// A row of a parameter set: its id, and the address of its data (none when
/// that address is null).
#[derive(Clone, Copy, Debug, PartialEq, Eq)]
pub struct Param {
    pub id: u64,
    pub param: Option<usize>,
}

/// A row at `address + offset` (a signed offset, wrapping around the address
/// space), with no address when that is null.
pub open spec fn param_spec(address: usize, id: u64, offset: isize) -> Param {
    let target = vstd::wrapping::usize_specs::wrapping_add_signed(address, offset);
    Param { id, param: if target == 0 { None } else { Some(target) } }
}

/// The row with id `id` whose data lies `offset` bytes from the set's address.
pub fn param_at(address: usize, id: u64, offset: isize) -> (r: Param)
    ensures
        r == param_spec(address, id, offset),
{
    let target = address.wrapping_add_signed(offset);
    Param { id, param: if target == 0 { None } else { Some(target) } }
}

/// A parameter set: its name, the address of its data and how many rows it
/// has.
#[derive(Debug)]
pub struct ParamSet {
    pub name: String,
    pub address: usize,
    pub count: isize,
}

/// The value of a parameter set.
pub struct ParamSetView {
    pub name: Seq<char>,
    pub address: usize,
    pub count: isize,
}

impl ParamSet {
    /// The set's value.
    pub open spec fn model(self) -> ParamSetView {
        ParamSetView { name: self.name@, address: self.address, count: self.count }
    }
}

/// The values of a list of sets.
pub open spec fn set_models(s: Seq<ParamSet>) -> Seq<ParamSetView> {
    Seq::new(s.len(), |i: int| s[i].model())
}

/// Whether the names are in strictly increasing order.
pub open spec fn names_sorted(s: Seq<ParamSetView>) -> bool {
    forall|i: int, j: int| 0 <= i < j < s.len() ==> text_less(#[trigger] s[i].name, #[trigger] s[j].name)
}

/// How many sets have a name before `k`.
pub open spec fn count_names_before(s: Seq<ParamSetView>, k: Seq<char>) -> nat
    decreases s.len(),
{
    if s.len() == 0 {
        0
    } else {
        count_names_before(s.drop_last(), k) + if text_less(s.last().name, k) {
            1nat
        } else {
            0nat
        }
    }
}

/// The sets after filing `e` under its name: it replaces the set with the
/// same name, or goes in name order.
pub open spec fn file_set(s: Seq<ParamSetView>, e: ParamSetView) -> Seq<ParamSetView> {
    let p = count_names_before(s, e.name);
    if p < s.len() && s[p as int].name == e.name {
        s.update(p as int, e)
    } else {
        s.insert(p as int, e)
    }
}

/// The sets filed one after the other from none.
pub open spec fn file_all(s: Seq<ParamSetView>) -> Seq<ParamSetView>
    decreases s.len(),
{
    if s.len() == 0 {
        Seq::empty()
    } else {
        file_set(file_all(s.drop_last()), s.last())
    }
}

/// The sets that were read without error, in order.
pub open spec fn read_sets(entries: Seq<Result<ParamSet, String>>) -> Seq<ParamSetView>
    decreases entries.len(),
{
    if entries.len() == 0 {
        Seq::empty()
    } else {
        match entries.last() {
            Ok(e) => read_sets(entries.drop_last()).push(e.model()),
            Err(_) => read_sets(entries.drop_last()),
        }
    }
}

/// The messages of the sets that could not be read, in order.
pub open spec fn read_errors(entries: Seq<Result<ParamSet, String>>) -> Seq<Seq<char>>
    decreases entries.len(),
{
    if entries.len() == 0 {
        Seq::empty()
    } else {
        match entries.last() {
            Ok(_) => read_errors(entries.drop_last()),
            Err(e) => read_errors(entries.drop_last()).push(e@),
        }
    }
}

/// At most all the sets come before a name.
proof fn lemma_count_names_le(s: Seq<ParamSetView>, k: Seq<char>)
    ensures
        count_names_before(s, k) <= s.len(),
    decreases s.len(),
{
    if s.len() > 0 {
        lemma_count_names_le(s.drop_last(), k);
    }
}

/// Filing a set makes it the one under its name, and keeps every set with
/// another name.
pub proof fn lemma_file_set(s: Seq<ParamSetView>, e: ParamSetView)
    ensures
        exists|i: int| 0 <= i < file_set(s, e).len() && #[trigger] file_set(s, e)[i] == e,
        forall|j: int| 0 <= j < s.len() && s[j].name != e.name ==> exists|i: int|
            0 <= i < file_set(s, e).len() && #[trigger] file_set(s, e)[i] == #[trigger] s[j],
{
    let p = count_names_before(s, e.name) as int;
    lemma_count_names_le(s, e.name);
    let r = file_set(s, e);
    if p < s.len() && s[p].name == e.name {
        assert(r[p] == e);
        assert forall|j: int| 0 <= j < s.len() && s[j].name != e.name implies exists|i: int|
            0 <= i < r.len() && #[trigger] r[i] == #[trigger] s[j] by {
            assert(r[j] == s[j]);
        }
    } else {
        assert(r[p] == e);
        assert forall|j: int| 0 <= j < s.len() && s[j].name != e.name implies exists|i: int|
            0 <= i < r.len() && #[trigger] r[i] == #[trigger] s[j] by {
            if j < p {
                assert(r[j] == s[j]);
            } else {
                assert(r[j + 1] == s[j]);
            }
        }
    }
}

/// In sorted sets, the names before `k` are the first ones.
proof fn lemma_count_names_sorted(s: Seq<ParamSetView>, k: Seq<char>, p: int)
    requires
        names_sorted(s),
        0 <= p <= s.len(),
        forall|i: int| 0 <= i < p ==> text_less(#[trigger] s[i].name, k),
        p < s.len() ==> !text_less(s[p].name, k),
    ensures
        count_names_before(s, k) == p,
    decreases s.len(),
{
    if s.len() > 0 {
        let d = s.drop_last();
        assert forall|i: int, j: int| 0 <= i < j < d.len() implies text_less(#[trigger] d[i].name, #[trigger] d[j].name) by {
            assert(d[i] == s[i] && d[j] == s[j]);
        }
        if p == s.len() {
            assert forall|i: int| 0 <= i < p - 1 implies text_less(#[trigger] d[i].name, k) by {
                assert(d[i] == s[i]);
            }
            lemma_count_names_sorted(d, k, p - 1);
        } else {
            let last = s.len() - 1;
            lemma_text_less_total(s[p].name, k);
            if p < last {
                assert(text_less(s[p].name, s[last].name));
                if text_less(s[last].name, k) {
                    lemma_text_less_trans(s[p].name, s[last].name, k);
                }
            }
            assert forall|i: int| 0 <= i < p implies text_less(#[trigger] d[i].name, k) by {
                assert(d[i] == s[i]);
            }
            if p < last {
                assert(d[p] == s[p]);
            }
            lemma_count_names_sorted(d, k, p);
        }
    }
}

/// The parameter sets found, by name in name order.
pub struct Params {
    sets: Vec<ParamSet>,
}

/// The message when the table of sets is too short to be the real one.
pub open spec fn invalid_count_text() -> Seq<char> {
    "Invalid entries count"@
}

impl Params {
    /// The sets, in name order.
    pub closed spec fn model(self) -> Seq<ParamSetView> {
        set_models(self.sets@)
    }

    /// The names are in strictly increasing order.
    pub closed spec fn wf(self) -> bool {
        names_sorted(self.model())
    }

    /// No sets yet.
    pub fn new() -> (r: Params)
        ensures
            r.wf(),
            r.model() == Seq::<ParamSetView>::empty(),
    {
        let r = Params { sets: Vec::new() };
        assert(r.model() =~= Seq::<ParamSetView>::empty());
        r
    }

    /// Files `set` under its name, replacing any set with that name.
    fn insert(&mut self, set: ParamSet)
        requires
            old(self).wf(),
        ensures
            final(self).wf(),
            final(self).model() == file_set(old(self).model(), set.model()),
    {
        let ghost s = self.model();
        let ghost e = set.model();
        let n = self.sets.len();
        let mut p: usize = 0;
        while p < n && text_lt(self.sets[p].name.as_str(), set.name.as_str())
            invariant
                n == self.sets@.len(),
                s == set_models(self.sets@),
                names_sorted(s),
                e == set.model(),
                0 <= p <= n,
                forall|i: int| 0 <= i < p ==> text_less(#[trigger] s[i].name, e.name),
            decreases n - p,
        {
            p = p + 1;
        }
        proof {
            lemma_count_names_sorted(s, e.name, p as int);
        }
        if p < n && str_eq(self.sets[p].name.as_str(), set.name.as_str()) {
            self.sets.set(p, set);
            proof {
                assert(set_models(self.sets@) =~= s.update(p as int, e));
                assert forall|i: int, j: int| 0 <= i < j < self.model().len() implies text_less(#[trigger] self.model()[i].name, #[trigger] self.model()[j].name) by {
                    assert(s[i].name == self.model()[i].name);
                    assert(s[j].name == self.model()[j].name);
                }
            }
        } else {
            self.sets.insert(p, set);
            proof {
                assert(set_models(self.sets@) =~= s.insert(p as int, e));
                if p < n {
                    lemma_text_less_total(s[p as int].name, e.name);
                    assert(s[p as int].name != e.name);
                }
                assert forall|i: int, j: int| 0 <= i < j < self.model().len() implies text_less(#[trigger] self.model()[i].name, #[trigger] self.model()[j].name) by {
                    let m = self.model();
                    if j < p {
                        assert(m[i] == s[i] && m[j] == s[j]);
                    } else if j == p {
                        assert(m[i] == s[i]);
                    } else if i == p {
                        assert(m[j] == s[j - 1]);
                        if j - 1 > p {
                            lemma_text_less_trans(e.name, s[p as int].name, s[j - 1].name);
                        }
                    } else if i < p {
                        assert(m[i] == s[i] && m[j] == s[j - 1]);
                    } else {
                        assert(m[i] == s[i - 1] && m[j] == s[j - 1]);
                    }
                }
            }
        }
    }

    /// Replaces the sets with those read from the game's table of `count`
    /// entries (each read as a set or as the message of why it could not be
    /// read), filed by name. A table of fewer than 100 entries is refused and
    /// the sets are left as they were. Returns the messages of the entries
    /// that could not be read, in order.
    pub fn refresh_from(&mut self, count: isize, entries: Vec<Result<ParamSet, String>>) -> (r: Result<Vec<String>, String>)
        ensures
            count < 100 ==> (r matches Err(m) && m@ == invalid_count_text() && final(self).model() == old(self).model()
                && final(self).wf() == old(self).wf()),
            count >= 100 ==> (r matches Ok(errs) && errs@.map_values(|e: String| e@) == read_errors(entries@)
                && final(self).wf() && final(self).model() == file_all(read_sets(entries@))),
    {
        if count < 100 {
            let mut m = String::new();
            push_str(&mut m, "Invalid entries count");
            return Err(m);
        }
        let ghost all = entries@;
        let n = entries.len();
        let mut fresh = Params::new();
        let mut errors: Vec<String> = Vec::new();
        let mut rest = entries;
        assert(all.subrange(0, 0) =~= Seq::<Result<ParamSet, String>>::empty());
        assert(all.subrange(0, all.len() as int) =~= all);
        let mut i: usize = 0;
        while rest.len() > 0
            invariant
                rest@ == all.subrange(i as int, all.len() as int),
                n == all.len(),
                0 <= i <= all.len(),
                fresh.wf(),
                fresh.model() == file_all(read_sets(all.subrange(0, i as int))),
                errors@.map_values(|e: String| e@) == read_errors(all.subrange(0, i as int)),
            decreases rest@.len(),
        {
            let entry = rest.remove(0);
            proof {
                assert(entry == all[i as int]);
                let p = all.subrange(0, i + 1);
                assert(p.drop_last() =~= all.subrange(0, i as int));
                assert(p.last() == entry);
                assert(rest@ =~= all.subrange(i + 1, all.len() as int));
            }
            match entry {
                Ok(set) => {
                    let ghost e = set.model();
                    fresh.insert(set);
                    proof {
                        let p = all.subrange(0, i + 1);
                        assert(read_sets(p) == read_sets(all.subrange(0, i as int)).push(e));
                        assert(read_sets(p).drop_last() =~= read_sets(all.subrange(0, i as int)));
                        assert(read_errors(p) == read_errors(all.subrange(0, i as int)));
                    }
                },
                Err(msg) => {
                    let ghost before_errors = errors@;
                    let ghost m = msg@;
                    errors.push(msg);
                    proof {
                        let p = all.subrange(0, i + 1);
                        assert(read_errors(p) == read_errors(all.subrange(0, i as int)).push(m));
                        assert(errors@.map_values(|e: String| e@) =~= before_errors.map_values(|e: String| e@).push(m));
                        assert(read_sets(p) == read_sets(all.subrange(0, i as int)));
                    }
                },
            }
            i = i + 1;
        }
        assert(all.subrange(0, all.len() as int) =~= all);
        *self = fresh;
        Ok(errors)
    }

    /// The names of the sets, in order.
    pub fn keys(&self) -> (r: Vec<String>)
        ensures
            r@.len() == self.model().len(),
            forall|i: int| 0 <= i < r@.len() ==> #[trigger] r@[i]@ == self.model()[i].name,
    {
        let mut r: Vec<String> = Vec::new();
        let mut i: usize = 0;
        while i < self.sets.len()
            invariant
                0 <= i <= self.sets@.len(),
                r@.len() == i,
                forall|k: int| 0 <= k < i ==> #[trigger] r@[k]@ == self.model()[k].name,
            decreases self.sets@.len() - i,
        {
            let mut name = String::new();
            push_str(&mut name, self.sets[i].name.as_str());
            r.push(name);
            i = i + 1;
        }
        r
    }

    /// The address and row count of the set named `name`, if there is one.
    pub fn get_param_ptr(&self, name: &str) -> (r: Option<(usize, isize)>)
        ensures
            match r {
                Some((a, c)) => exists|i: int| 0 <= i < self.model().len() && #[trigger] self.model()[i].name == name@
                    && self.model()[i].address == a && self.model()[i].count == c,
                None => forall|i: int| 0 <= i < self.model().len() ==> #[trigger] self.model()[i].name != name@,
            },
    {
        let mut i: usize = 0;
        while i < self.sets.len()
            invariant
                0 <= i <= self.sets@.len(),
                forall|k: int| 0 <= k < i ==> #[trigger] self.model()[k].name != name@,
            decreases self.sets@.len() - i,
        {
            if str_eq(self.sets[i].name.as_str(), name) {
                assert(self.model()[i as int].name == name@);
                return Some((self.sets[i].address, self.sets[i].count));
            }
            i = i + 1;
        }
        None
    }

    /// For row `i` of the set named `name`: the set's address and the address
    /// of the row's entry (id and data offset) in the set's row table, which
    /// starts 0x40 bytes in with 24 bytes per row. None when there is no such
    /// set or row.
    pub fn row_entry(&self, name: &str, i: usize) -> (r: Option<(usize, usize)>)
        requires
            self.wf(),
        ensures
            match r {
                Some((a, e)) => exists|k: int| 0 <= k < self.model().len() && #[trigger] self.model()[k].name == name@
                    && self.model()[k].address == a && (i as int) < (self.model()[k].count as int)
                    && e as int == (a as int + 0x40 + 24 * i) % ((usize::MAX as int) + 1),
                None => forall|k: int| 0 <= k < self.model().len() && #[trigger] self.model()[k].name == name@
                    ==> (self.model()[k].count as int) <= (i as int),
            },
    {
        match self.get_param_ptr(name) {
            None => None,
            Some((a, c)) => {
                if c < 0 || i >= (c as usize) {
                    proof {
                        let k = choose|k: int| 0 <= k < self.model().len() && #[trigger] self.model()[k].name == name@
                            && self.model()[k].address == a && self.model()[k].count == c;
                        lemma_unique_names(self.model());
                    }
                    None
                } else {
                    let e = row_entry_address(a, i);
                    proof {
                        let k = choose|k: int| 0 <= k < self.model().len() && #[trigger] self.model()[k].name == name@
                            && self.model()[k].address == a && self.model()[k].count == c;
                        assert((i as int) < (self.model()[k].count as int));
                    }
                    Some((a, e))
                }
            },
        }
    }
}

/// The address of entry `i` of the row table of the set at `a`, wrapping
/// around the address space.
fn row_entry_address(a: usize, i: usize) -> (e: usize)
    ensures
        e as int == (a as int + 0x40 + 24 * i) % ((usize::MAX as int) + 1),
{
    let x = a.wrapping_add(0x40);
    let y = i.wrapping_mul(24);
    let e = x.wrapping_add(y);
    proof {
        let m: int = (usize::MAX as int) + 1;
        let xa: int = a as int + 0x40;
        let ya: int = 24 * (i as int);
        assert(x as int == xa % m) by {
            if xa >= m {
                vstd::arithmetic::div_mod::lemma_fundamental_div_mod_converse(xa, m, 1, xa - m);
            } else {
                vstd::arithmetic::div_mod::lemma_small_mod(xa as nat, m as nat);
            }
        }
        assert(y as int == ya % m);
        assert(e as int == (x as int + y as int) % m) by {
            if x as int + y as int >= m {
                vstd::arithmetic::div_mod::lemma_fundamental_div_mod_converse(x as int + y as int, m, 1, x as int + y as int - m);
            } else {
                vstd::arithmetic::div_mod::lemma_small_mod((x as int + y as int) as nat, m as nat);
            }
        }
        vstd::arithmetic::div_mod::lemma_add_mod_noop(xa, ya, m);
    }
    e
}

/// Where a set's name is kept: inline in its entry for names of up to seven
/// units, or behind a pointer.
#[derive(Clone, Copy, Debug, PartialEq, Eq)]
pub enum NameSource {
    Inline,
    Pointer,
}

/// Where the name of an entry with name length `length` is kept.
pub fn name_source(length: u64) -> (r: NameSource)
    ensures
        r == if length <= 7 {
            NameSource::Inline
        } else {
            NameSource::Pointer
        },
{
    if length <= 7 {
        NameSource::Inline
    } else {
        NameSource::Pointer
    }
}

/// The text that the UTF-16 units `u` encode: each unit outside the
/// surrogate range is a character, a high surrogate followed by a low one is
/// the character they encode together; none when a surrogate is unpaired.
pub open spec fn utf16_text(u: Seq<u16>) -> Option<Seq<char>>
    decreases u.len(),
{
    if u.len() == 0 {
        Some(Seq::empty())
    } else if u[0] < 0xD800 || u[0] > 0xDFFF {
        match utf16_text(u.drop_first()) {
            Some(t) => Some(seq![u[0] as char] + t),
            None => None,
        }
    } else if u[0] <= 0xDBFF && u.len() >= 2 && 0xDC00 <= u[1] <= 0xDFFF {
        match utf16_text(u.subrange(2, u.len() as int)) {
            Some(t) => Some(seq![(0x10000 + (u[0] - 0xD800) * 0x400 + (u[1] - 0xDC00)) as char] + t),
            None => None,
        }
    } else {
        None
    }
}

/// The message of the error `String::from_utf16` gives for `units`.
pub uninterp spec fn utf16_error_text(units: Seq<u16>) -> Seq<char>;

/// What `String::from_utf16` gives for `units`: the text they encode, or the
/// error's message where a surrogate is unpaired.
pub open spec fn utf16_decoded(units: Seq<u16>) -> Result<Seq<char>, Seq<char>> {
    match utf16_text(units) {
        Some(t) => Ok(t),
        None => Err(utf16_error_text(units)),
    }
}

/// `String::from_utf16`. Claimed: valid UTF-16 decodes to the text it
/// encodes, and anything else is an error whose message is named. Not
/// claimed: the words of that message.
#[verifier::external_body]
fn decode_utf16(units: &[u16]) -> (r: Result<String, String>)
    ensures
        match utf16_text(units@) {
            Some(t) => r matches Ok(s) && s@ == t,
            None => r matches Err(e) && e@ == utf16_error_text(units@),
        },
{
    match String::from_utf16(units) {
        Ok(s) => Ok(s),
        Err(e) => Err(e.to_string()),
    }
}

/// The message for a name without a terminating zero unit.
pub open spec fn missing_nul_text() -> Seq<char> {
    "Missing NUL terminator"@
}

/// The name held by `units`: the units before the first zero, decoded from
/// UTF-16; an error when there is no zero unit or the units do not decode.
pub open spec fn entry_name_spec(units: Seq<u16>) -> Result<Seq<char>, Seq<char>> {
    if exists|i: int| 0 <= i < units.len() && units[i] == 0 {
        let z = choose|i: int| 0 <= i < units.len() && units[i] == 0 && forall|j: int| 0 <= j < i ==> units[j] != 0;
        utf16_decoded(units.subrange(0, z))
    } else {
        Err(missing_nul_text())
    }
}

/// The name held by `units`.
pub fn entry_name(units: &[u16]) -> (r: Result<String, String>)
    ensures
        match entry_name_spec(units@) {
            Ok(s) => r matches Ok(t) && t@ == s,
            Err(e) => r matches Err(m) && m@ == e,
        },
{
    let mut i: usize = 0;
    while i < units.len()
        invariant
            0 <= i <= units@.len(),
            forall|j: int| 0 <= j < i ==> units@[j] != 0,
        decreases units@.len() - i,
    {
        if units[i] == 0 {
            let ghost z = choose|k: int| 0 <= k < units@.len() && units@[k] == 0 && forall|j: int| 0 <= j < k ==> units@[j] != 0;
            proof {
                assert(0 <= i < units@.len() && units@[i as int] == 0 && forall|j: int| 0 <= j < i ==> units@[j] != 0);
                if z < i {
                    assert(units@[z] != 0);
                }
                if z > i {
                    assert(units@[i as int] != 0);
                }
            }
            let mut prefix: Vec<u16> = Vec::new();
            let mut k: usize = 0;
            while k < i
                invariant
                    i < units@.len(),
                    0 <= k <= i,
                    prefix@ =~= units@.subrange(0, k as int),
                decreases i - k,
            {
                prefix.push(units[k]);
                k = k + 1;
            }
            return decode_utf16(prefix.as_slice());
        }
        i = i + 1;
    }
    let mut m = String::new();
    push_str(&mut m, "Missing NUL terminator");
    Err(m)
}

/// In sets sorted by name, a name occurs once.
proof fn lemma_unique_names(s: Seq<ParamSetView>)
    requires
        names_sorted(s),
    ensures
        forall|i: int, j: int| 0 <= i < s.len() && 0 <= j < s.len() && #[trigger] s[i].name == #[trigger] s[j].name ==> i == j,
{
    assert forall|i: int, j: int| 0 <= i < s.len() && 0 <= j < s.len() && #[trigger] s[i].name == #[trigger] s[j].name implies i == j by {
        crate::paramdef::lemma_text_less_irreflexive(s[i].name);
        if i < j {
            assert(text_less(s[i].name, s[j].name));
        }
        if j < i {
            assert(text_less(s[j].name, s[i].name));
        }
    }
}

} // verus!
