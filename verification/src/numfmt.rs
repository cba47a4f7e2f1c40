//! Decimal and hexadecimal rendering of integers, as `{}`, `{:02}`, `{:x}` and
//! `{:08x}` print them.

use vstd::prelude::*;

verus! {

/// The character that stands for digit `d` (lowercase for `a..=f`).
pub open spec fn digit_char(d: nat) -> char {
    if d < 10 {
        (48 + d) as char
    } else {
        (87 + d) as char
    }
}

/// The digits of `n` in base `b`, most significant first, without leading zeros
/// (zero itself is the single digit `0`).
pub open spec fn radix_digits(n: nat, b: nat) -> Seq<char>
    recommends
        2 <= b <= 16,
    decreases n,
{
    if b < 2 || n < b {
        seq![digit_char(n)]
    } else {
        proof {
            assert(n / b < n) by (nonlinear_arith)
                requires
                    b >= 2,
                    n >= b,
            ;
        }
        radix_digits(n / b, b).push(digit_char(n % b))
    }
}

/// `d` padded on the left with `0` up to `width` characters.
pub open spec fn zero_pad(d: Seq<char>, width: nat) -> Seq<char> {
    if d.len() >= width {
        d
    } else {
        Seq::new((width - d.len()) as nat, |i: int| '0') + d
    }
}

/// Text of `n` in base `b`, padded with zeros to at least `width` characters.
pub open spec fn radix_text(n: nat, b: nat, width: nat) -> Seq<char> {
    zero_pad(radix_digits(n, b), width)
}

/// Appends `c` to `s` (`String::push`).
#[verifier::external_body]
pub(crate) fn push_char(s: &mut String, c: char)
    ensures
        final(s)@ == old(s)@.push(c),
{
    s.push(c);
}

/// The characters of `s` (`str::chars`, collected).
#[verifier::external_body]
pub(crate) fn chars_of(s: &str) -> (r: Vec<char>)
    ensures
        r@ == s@,
{
    s.chars().collect()
}

/// Appends the characters `cs[from..to]`.
pub fn push_chars(s: &mut String, cs: &Vec<char>, from: usize, to: usize)
    requires
        from <= to <= cs@.len(),
    ensures
        final(s)@ == old(s)@ + cs@.subrange(from as int, to as int),
{
    let ghost start = s@;
    let mut i: usize = from;
    while i < to
        invariant
            from <= i <= to <= cs@.len(),
            s@ =~= start + cs@.subrange(from as int, i as int),
        decreases to - i,
    {
        push_char(s, cs[i]);
        i = i + 1;
    }
}

fn digit(d: u64) -> (c: char)
    requires
        d < 16,
    ensures
        c == digit_char(d as nat),
{
    if d < 10 {
        let b: u8 = 48u8 + (d as u8);
        b as char
    } else {
        let b: u8 = 87u8 + (d as u8);
        b as char
    }
}

/// The digits of `n` in base `base`, most significant first.
pub fn digits_of(n: u64, base: u64) -> (v: Vec<char>)
    requires
        2 <= base <= 16,
    ensures
        v@ == radix_digits(n as nat, base as nat),
{
    let mut low: Vec<char> = Vec::new();
    let mut cur: u64 = n;
    while cur >= base
        invariant
            2 <= base <= 16,
            radix_digits(n as nat, base as nat) == radix_digits(cur as nat, base as nat) + low@,
        decreases cur,
    {
        let d = digit(cur % base);
        proof {
            let r = radix_digits((cur / base) as nat, base as nat);
            assert(radix_digits(cur as nat, base as nat) == r.push(d));
            assert(r.push(d) + low@ =~= r + low@.insert(0, d));
        }
        low.insert(0, d);
        cur = cur / base;
    }
    let d = digit(cur);
    proof {
        assert(radix_digits(cur as nat, base as nat) =~= seq![d]);
        assert(seq![d] + low@ =~= low@.insert(0, d));
    }
    low.insert(0, d);
    low
}

/// Appends the base-`base` text of `n`, zero-padded to `width` characters.
pub fn push_radix(s: &mut String, n: u64, base: u64, width: usize)
    requires
        2 <= base <= 16,
    ensures
        final(s)@ == old(s)@ + radix_text(n as nat, base as nat, width as nat),
{
    let ds = digits_of(n, base);
    let ghost start = s@;
    let ghost pad: Seq<char> = if ds.len() >= width {
        Seq::empty()
    } else {
        Seq::new((width - ds.len()) as nat, |i: int| '0')
    };
    let mut k: usize = ds.len();
    while k < width
        invariant
            ds.len() <= k <= width || (ds.len() >= width && k == ds.len()),
            ds.len() < width ==> s@ =~= start + Seq::new((k - ds.len()) as nat, |i: int| '0'),
            ds.len() >= width ==> s@ == start,
        decreases width - k,
    {
        push_char(s, '0');
        k = k + 1;
    }
    assert(s@ =~= start + pad);
    let mut i: usize = 0;
    while i < ds.len()
        invariant
            0 <= i <= ds.len(),
            s@ =~= start + pad + ds@.subrange(0, i as int),
        decreases ds.len() - i,
    {
        push_char(s, ds[i]);
        i = i + 1;
    }
    assert(ds@.subrange(0, ds.len() as int) =~= ds@);
    assert(zero_pad(ds@, width as nat) =~= pad + ds@);
}

/// Appends the decimal text of `n` (as `{}` prints it).
pub fn push_decimal(s: &mut String, n: u64)
    ensures
        final(s)@ == old(s)@ + radix_digits(n as nat, 10),
{
    push_radix(s, n, 10, 0);
}

/// Appends every character of `t`.
pub fn push_str(s: &mut String, t: &str)
    ensures
        final(s)@ == old(s)@ + t@,
{
    let ghost start = s@;
    let mut i: usize = 0;
    let n = t.unicode_len();
    while i < n
        invariant
            n == t@.len(),
            0 <= i <= n,
            s@ =~= start + t@.subrange(0, i as int),
        decreases n - i,
    {
        push_char(s, t.get_char(i));
        i = i + 1;
    }
    assert(t@.subrange(0, n as int) =~= t@);
}

} // verus!
