//! UTF-16, the guest's string encoding: how a string becomes code units and bytes, and how
//! bytes become a string again.

use vstd::prelude::*;
use crate::bytes::le_bytes;

verus! {

/// The one or two code units of a character: itself below `0x10000`, else a high and a
/// low surrogate carrying ten bits each of the value above `0x10000`.
pub open spec fn char_units(c: char) -> Seq<u16> {
    let code = c as u32;
    if code < 0x10000 {
        seq![code as u16]
    } else {
        seq![(0xD800 + (code - 0x10000) / 0x400) as u16, (0xDC00 + (code - 0x10000) % 0x400) as u16]
    }
}

/// The code units of a string, character by character.
pub open spec fn utf16_units(s: Seq<char>) -> Seq<u16>
    decreases s.len(),
{
    if s.len() == 0 {
        Seq::empty()
    } else {
        utf16_units(s.drop_last()) + char_units(s.last())
    }
}

/// Code units as bytes, each unit least significant byte first.
pub open spec fn units_bytes(units: Seq<u16>) -> Seq<u8>
    decreases units.len(),
{
    if units.len() == 0 {
        Seq::empty()
    } else {
        units_bytes(units.drop_last()) + le_bytes(units.last() as int, 2)
    }
}

/// The bytes that stand for a string in guest memory.
pub open spec fn utf16_bytes(s: Seq<char>) -> Seq<u8> {
    units_bytes(utf16_units(s))
}

/// The code units of `s`.
pub fn encode_utf16(s: &str) -> (units: Vec<u16>)
    ensures
        units@ == utf16_units(s@),
{
    let mut units: Vec<u16> = Vec::new();
    for c in it: s.chars()
        invariant
            it.seq() == s@,
            units@ == utf16_units(s@.take(it.index() as int)),
    {
        proof {
            let next = s@.take(it.index() + 1);
            assert(next.drop_last() =~= s@.take(it.index() as int));
            assert(next.last() == c);
        }
        proof {
            vstd::utf8::char_is_scalar(c);
        }
        let code: u32 = c as u32;
        let ghost before = units@;
        assert(before == utf16_units(s@.take(it.index() as int)));
        if code < 0x10000 {
            units.push(code as u16);
            assert(units@ =~= before + char_units(c));
        } else {
            let high: u32 = 0xD800 + (code - 0x10000) / 0x400;
            let low: u32 = 0xDC00 + (code - 0x10000) % 0x400;
            units.push(high as u16);
            units.push(low as u16);
        }
        assert(units@ =~= utf16_units(s@.take(it.index() as int)) + char_units(c));
    }
    assert(s@.take(s@.len() as int) =~= s@);
    units
}

/// The bytes of `units`, each unit least significant byte first.
pub fn units_to_bytes(units: &[u16]) -> (bytes: Vec<u8>)
    ensures
        bytes@ == units_bytes(units@),
{
    let mut bytes: Vec<u8> = Vec::new();
    let mut i: usize = 0;
    while i < units.len()
        invariant
            i <= units.len(),
            bytes@ == units_bytes(units@.take(i as int)),
        decreases units.len() - i,
    {
        let unit = units[i];
        let ghost before = bytes@;
        bytes.push((unit % 256) as u8);
        bytes.push((unit / 256) as u8);
        proof {
            let next = units@.take(i as int + 1);
            assert(next.drop_last() =~= units@.take(i as int));
            assert(next.last() == unit);
            reveal_with_fuel(le_bytes, 3);
            assert(bytes@ =~= before + le_bytes(unit as int, 2));
        }
        i = i + 1;
    }
    assert(units@.take(units.len() as int) =~= units@);
    bytes
}

/// The bytes that stand for `s` in guest memory.
pub fn utf16_le_bytes(s: &str) -> (bytes: Vec<u8>)
    ensures
        bytes@ == utf16_bytes(s@),
{
    let units = encode_utf16(s);
    units_to_bytes(units.as_slice())
}

/// The number of bytes that stand for `s` in guest memory, where that number fits the
/// 32-bit address type.
pub fn utf16_size(s: &str) -> (size: Option<i32>)
    ensures
        size is Some <==> utf16_bytes(s@).len() <= i32::MAX,
        size matches Some(n) ==> n == utf16_bytes(s@).len(),
{
    let mut size: i32 = 0;
    for c in it: s.chars()
        invariant
            it.seq() == s@,
            size == utf16_bytes(s@.take(it.index() as int)).len(),
    {
        proof {
            vstd::utf8::char_is_scalar(c);
            let before = s@.take(it.index() as int);
            let next = s@.take(it.index() + 1);
            assert(next.drop_last() =~= before);
            assert(next.last() == c);
            lemma_bytes_round_trip(utf16_units(before));
            lemma_bytes_round_trip(utf16_units(next));
        }
        let width: i32 = if (c as u32) < 0x10000 {
            2
        } else {
            4
        };
        if size > i32::MAX - width {
            proof {
                let next = s@.take(it.index() + 1);
                assert(s@ =~= next + s@.skip(it.index() + 1));
                lemma_units_concat(next, s@.skip(it.index() + 1));
                lemma_bytes_round_trip(utf16_units(s@));
                lemma_bytes_round_trip(utf16_units(next));
            }
            return None;
        }
        size = size + width;
    }
    assert(s@.take(s@.len() as int) =~= s@);
    Some(size)
}

/// A character in front of a decoded rest, where there is one.
pub open spec fn prepend(c: char, rest: Option<Seq<char>>) -> Option<Seq<char>> {
    match rest {
        Some(rest) => Some(seq![c] + rest),
        None => None,
    }
}

/// The string that `units` spell, or `None` where they are not valid UTF-16: a high
/// surrogate must be followed by a low one, and a low one may not stand alone.
pub open spec fn decode_units(units: Seq<u16>) -> Option<Seq<char>>
    decreases units.len(),
{
    if units.len() == 0 {
        Some(Seq::empty())
    } else {
        let first = units[0] as int;
        if first < 0xD800 || 0xE000 <= first {
            prepend(first as char, decode_units(units.skip(1)))
        } else if first < 0xDC00 && units.len() >= 2 && 0xDC00 <= units[1] < 0xE000 {
            prepend(
                (0x10000 + (first - 0xD800) * 0x400 + (units[1] - 0xDC00)) as char,
                decode_units(units.skip(2)),
            )
        } else {
            None
        }
    }
}

/// The code units that `bytes` hold, two bytes each with the low byte first, or `None` for
/// an odd number of bytes.
pub open spec fn bytes_units(bytes: Seq<u8>) -> Option<Seq<u16>> {
    if bytes.len() % 2 == 0 {
        Some(Seq::new(bytes.len() / 2, |i: int| (bytes[2 * i] + 256 * bytes[2 * i + 1]) as u16))
    } else {
        None
    }
}

/// The string that `bytes` spell as little-endian UTF-16, or `None` where they spell none.
pub open spec fn decode_bytes(bytes: Seq<u8>) -> Option<Seq<char>> {
    match bytes_units(bytes) {
        Some(units) => decode_units(units),
        None => None,
    }
}

/// The code units of two strings in a row are the units of the first, then of the second.
pub proof fn lemma_units_concat(a: Seq<char>, b: Seq<char>)
    ensures
        utf16_units(a + b) == utf16_units(a) + utf16_units(b),
    decreases b.len(),
{
    if b.len() == 0 {
        assert(a + b =~= a);
        assert(utf16_units(a) + utf16_units(b) =~= utf16_units(a));
    } else {
        assert((a + b).drop_last() =~= a + b.drop_last());
        assert((a + b).last() == b.last());
        lemma_units_concat(a, b.drop_last());
        assert(utf16_units(a + b) =~= utf16_units(a) + utf16_units(b));
    }
}

/// Decoding the units of a character, followed by anything, gives the character first.
proof fn lemma_decode_first(c: char, rest: Seq<u16>)
    ensures
        decode_units(char_units(c) + rest) == prepend(c, decode_units(rest)),
{
    let units = char_units(c) + rest;
    let code = c as u32;
    if code < 0x10000 {
        assert(units.skip(1) =~= rest);
        assert(units[0] == code as u16);
    } else {
        assert(units.skip(2) =~= rest);
        let high = 0xD800 + (code - 0x10000) / 0x400;
        let low = 0xDC00 + (code - 0x10000) % 0x400;
        assert(units[0] == high as u16);
        assert(units[1] == low as u16);
        assert(0x10000 + (high - 0xD800) * 0x400 + (low - 0xDC00) == code);
    }
}

/// Every string is what its own code units spell.
pub proof fn lemma_units_round_trip(s: Seq<char>)
    ensures
        decode_units(utf16_units(s)) == Some(s),
    decreases s.len(),
{
    if s.len() == 0 {
    } else {
        let head = seq![s[0]];
        let tail = s.skip(1);
        assert(s =~= head + tail);
        lemma_units_concat(head, tail);
        assert(head.drop_last() =~= Seq::<char>::empty());
        assert(utf16_units(head.drop_last()) =~= Seq::<u16>::empty());
        assert(utf16_units(head) =~= char_units(s[0]));
        lemma_decode_first(s[0], utf16_units(tail));
        lemma_units_round_trip(tail);
    }
}

/// Code units written as bytes are read back as the same units.
pub proof fn lemma_bytes_round_trip(units: Seq<u16>)
    ensures
        units_bytes(units).len() == 2 * units.len(),
        bytes_units(units_bytes(units)) == Some(units),
    decreases units.len(),
{
    if units.len() == 0 {
        assert(bytes_units(units_bytes(units))->0 =~= units);
    } else {
        lemma_bytes_round_trip(units.drop_last());
        let front = units_bytes(units.drop_last());
        let all = units_bytes(units);
        reveal_with_fuel(le_bytes, 3);
        let unit = units.last();
        assert(all =~= front + seq![(unit % 256) as u8, (unit / 256) as u8]);
        let back = bytes_units(all)->0;
        assert forall|i: int| 0 <= i < units.len() implies back[i] == units[i] by {
            if i < units.len() - 1 {
                assert(all[2 * i] == front[2 * i]);
                assert(all[2 * i + 1] == front[2 * i + 1]);
                assert(bytes_units(front)->0[i] == units.drop_last()[i]);
            }
        }
        assert(back =~= units);
    }
}

/// A string written to guest memory and read back is itself: whatever the string, its
/// bytes spell exactly that string.
pub proof fn lemma_utf16_round_trip(s: Seq<char>)
    ensures
        decode_bytes(utf16_bytes(s)) == Some(s),
{
    lemma_bytes_round_trip(utf16_units(s));
    lemma_units_round_trip(s);
}

/// The string that `bytes` spell as little-endian UTF-16; `None` exactly where they spell
/// none.
pub fn decode_utf16_le(bytes: &[u8]) -> (r: Option<String>)
    ensures
        r is Some <==> decode_bytes(bytes@) is Some,
        r matches Some(text) ==> Some(text@) == decode_bytes(bytes@),
{
    if bytes.len() % 2 != 0 {
        return None;
    }
    let count: usize = bytes.len() / 2;
    let ghost units = bytes_units(bytes@)->0;
    let mut text = String::new();
    let mut i: usize = 0;
    proof {
        assert(units.skip(0) =~= units);
        if decode_units(units) is Some {
            assert(text@ + decode_units(units)->0 =~= decode_units(units)->0);
        }
    }
    while i < count
        invariant
            bytes.len() == 2 * count,
            units == bytes_units(bytes@)->0,
            units.len() == count,
            i <= count,
            decode_units(units) == match decode_units(units.skip(i as int)) {
                Some(rest) => Some(text@ + rest),
                None => None,
            },
        decreases count - i,
    {
        let ghost rest = units.skip(i as int);
        let ghost done = text@;
        let first: u32 = bytes[2 * i] as u32 + 256 * (bytes[2 * i + 1] as u32);
        assert(rest[0] == first);
        let code: u32;
        let used: usize;
        if first < 0xD800 || 0xE000 <= first {
            code = first;
            used = 1;
        } else if first < 0xDC00 && i + 1 < count {
            let second: u32 = bytes[2 * i + 2] as u32 + 256 * (bytes[2 * i + 3] as u32);
            assert(rest[1] == second);
            if second < 0xDC00 || 0xE000 <= second {
                return None;
            }
            code = 0x10000 + (first - 0xD800) * 0x400 + (second - 0xDC00);
            used = 2;
        } else {
            return None;
        }
        match char::from_u32(code) {
            Some(c) => {
                text.push(c);
            },
            None => {
                return None;
            },
        }
        proof {
            assert(rest.skip(used as int) =~= units.skip(i + used));
            let tail = decode_units(units.skip(i + used));
            if tail is Some {
                assert(done + (seq![code as char] + tail->0) =~= done.push(code as char) + tail->0);
            }
        }
        i = i + used;
    }
    assert(text@ + Seq::<char>::empty() =~= text@);
    Some(text)
}

} // verus!
