//! Small pieces of text that the generators share: decimal numbers and joined lists.

use vstd::prelude::*;

verus! {

/// The one-character text of a decimal digit.
pub open spec fn digit(d: nat) -> Seq<char> {
    seq![(('0' as u8) + d) as char]
}

/// The decimal text of `n`, without sign or leading zeros.
pub open spec fn decimal(n: nat) -> Seq<char>
    decreases n,
{
    if n < 10 {
        digit(n)
    } else {
        decimal(n / 10) + digit(n % 10)
    }
}

/// The texts of `items` in order, with `sep` between neighbours.
pub open spec fn joined(items: Seq<Seq<char>>, sep: Seq<char>) -> Seq<char>
    decreases items.len(),
{
    if items.len() == 0 {
        Seq::empty()
    } else if items.len() == 1 {
        items[0]
    } else {
        joined(items.drop_last(), sep) + sep + items.last()
    }
}

fn digit_char(d: u32) -> (c: char)
    requires
        d < 10,
    ensures
        seq![c] == digit(d as nat),
{
    (48u8 + d as u8) as char
}

/// Appends the decimal text of `n` to `out`.
pub fn push_decimal(out: &mut String, n: u32)
    ensures
        final(out)@ == old(out)@ + decimal(n as nat),
    decreases n,
{
    if n < 10 {
        out.push(digit_char(n));
    } else {
        push_decimal(out, n / 10);
        out.push(digit_char(n % 10));
        assert(out@ =~= old(out)@ + (decimal((n / 10) as nat) + digit((n % 10) as nat)));
    }
}

/// Appends `item` to `out` as the next entry of a list joined by `sep`: the separator comes
/// first unless the entry is the first.
pub(crate) fn push_joined(
    out: &mut String,
    first: bool,
    sep: &str,
    item: &str,
    Ghost(before): Ghost<Seq<Seq<char>>>,
)
    requires
        first <==> before.len() == 0,
        old(out)@ == joined(before, sep@),
    ensures
        final(out)@ == joined(before.push(item@), sep@),
{
    assert(before.push(item@).drop_last() =~= before);
    if !first {
        out.append(sep);
    }
    out.append(item);
    assert(out@ =~= joined(before.push(item@), sep@));
}

} // verus!
