//! The hex dump of a block of memory: sixteen bytes a line, in hexadecimal
//! and as characters.

use vstd::prelude::*;
use crate::numfmt::{push_char, push_radix, radix_text};

verus! {

/// A byte as the dump shows it among the characters: itself when ASCII, a dot
/// otherwise.
pub open spec fn dump_char(b: u8) -> char {
    if b < 128 {
        b as char
    } else {
        '.'
    }
}

/// The hexadecimal column of a line: each byte as two digits and a space.
pub open spec fn hex_column(bs: Seq<u8>) -> Seq<char>
    decreases bs.len(),
{
    if bs.len() == 0 {
        Seq::empty()
    } else {
        hex_column(bs.drop_last()) + radix_text(bs.last() as nat, 16, 2) + seq![' ']
    }
}

/// The character column of a line.
pub open spec fn char_column(bs: Seq<u8>) -> Seq<char> {
    Seq::new(bs.len(), |i: int| dump_char(bs[i]))
}

/// A line of the dump for up to sixteen bytes: the hexadecimal column, two
/// spaces, two more spaces for each byte short of sixteen, the characters.
pub open spec fn dump_line(bs: Seq<u8>) -> Seq<char> {
    hex_column(bs) + seq![' ', ' '] + Seq::new((2 * (16 - bs.len())) as nat, |i: int| ' ') + char_column(bs)
}

/// The lines of the dump of `bytes`, sixteen bytes a line (the last line may
/// hold fewer).
pub open spec fn dump_lines(bytes: Seq<u8>) -> Seq<Seq<char>>
    decreases bytes.len(),
{
    if bytes.len() == 0 {
        Seq::empty()
    } else if bytes.len() <= 16 {
        seq![dump_line(bytes)]
    } else {
        seq![dump_line(bytes.take(16))] + dump_lines(bytes.skip(16))
    }
}

/// The line of the dump for `bytes[from..to]`.
fn line_for(bytes: &[u8], from: usize, to: usize) -> (r: String)
    requires
        from <= to <= bytes@.len(),
        to - from <= 16,
    ensures
        r@ == dump_line(bytes@.subrange(from as int, to as int)),
{
    let ghost bs = bytes@.subrange(from as int, to as int);
    let mut s = String::new();
    let mut i: usize = from;
    while i < to
        invariant
            from <= i <= to <= bytes@.len(),
            bs == bytes@.subrange(from as int, to as int),
            s@ == hex_column(bytes@.subrange(from as int, i as int)),
        decreases to - i,
    {
        push_radix(&mut s, bytes[i] as u64, 16, 2);
        push_char(&mut s, ' ');
        proof {
            let t = bytes@.subrange(from as int, i + 1);
            assert(t.drop_last() =~= bytes@.subrange(from as int, i as int));
            assert(t.last() == bytes@[i as int]);
        }
        i = i + 1;
    }
    push_char(&mut s, ' ');
    push_char(&mut s, ' ');
    let ghost head = s@;
    let mut k: usize = to - from;
    while k < 16
        invariant
            to - from <= k <= 16,
            s@ == head + Seq::new((2 * (k - (to - from))) as nat, |j: int| ' '),
        decreases 16 - k,
    {
        push_char(&mut s, ' ');
        push_char(&mut s, ' ');
        assert(s@ =~= head + Seq::new((2 * (k + 1 - (to - from))) as nat, |j: int| ' '));
        k = k + 1;
    }
    let ghost mid = s@;
    let mut j: usize = from;
    while j < to
        invariant
            from <= j <= to <= bytes@.len(),
            s@ == mid + char_column(bytes@.subrange(from as int, j as int)),
        decreases to - j,
    {
        let b = bytes[j];
        let c: char = if b < 128 { b as char } else { '.' };
        push_char(&mut s, c);
        assert(s@ =~= mid + char_column(bytes@.subrange(from as int, j + 1)));
        j = j + 1;
    }
    assert(s@ =~= dump_line(bs));
    s
}

/// The dump of `bytes`, line by line.
pub fn hex_dump(bytes: &[u8]) -> (r: Vec<String>)
    ensures
        r@.len() == dump_lines(bytes@).len(),
        forall|i: int| 0 <= i < r@.len() ==> #[trigger] r@[i]@ == dump_lines(bytes@)[i],
{
    let n = bytes.len();
    let mut out: Vec<String> = Vec::new();
    let mut from: usize = 0;
    proof {
        assert(bytes@.skip(0) =~= bytes@);
    }
    while from < n
        invariant
            n == bytes@.len(),
            from <= n,
            dump_lines(bytes@) == out@.map_values(|s: String| s@) + dump_lines(bytes@.skip(from as int)),
        decreases n - from,
    {
        let to = if n - from > 16 { from + 16 } else { n };
        let line = line_for(bytes, from, to);
        let ghost rest = bytes@.skip(from as int);
        proof {
            if rest.len() <= 16 {
                assert(rest =~= bytes@.subrange(from as int, to as int));
                assert(bytes@.skip(to as int).len() == 0);
                assert(dump_lines(bytes@.skip(to as int)) =~= Seq::<Seq<char>>::empty());
            } else {
                assert(rest.take(16) =~= bytes@.subrange(from as int, to as int));
                assert(rest.skip(16) =~= bytes@.skip(to as int));
            }
        }
        let ghost before = out@;
        out.push(line);
        proof {
            assert(out@.map_values(|s: String| s@) =~= before.map_values(|s: String| s@).push(line@));
        }
        from = to;
    }
    proof {
        assert(bytes@.skip(n as int).len() == 0);
        assert(dump_lines(bytes@.skip(n as int)) =~= Seq::<Seq<char>>::empty());
        assert(out@.map_values(|s: String| s@) =~= dump_lines(bytes@));
        assert forall|i: int| 0 <= i < out@.len() implies #[trigger] out@[i]@ == dump_lines(bytes@)[i] by {
            assert(out@.map_values(|s: String| s@)[i] == out@[i]@);
        }
    }
    out
}

} // verus!
