//! Little-endian integers, as the guest's linear memory holds them.

use vstd::prelude::*;

verus! {

/// The `width` low-order bytes of `value`, least significant first. A negative value is
/// taken in two's complement.
pub open spec fn le_bytes(value: int, width: nat) -> Seq<u8>
    decreases width,
{
    if width == 0 {
        Seq::empty()
    } else {
        seq![(value % 256) as u8] + le_bytes(value / 256, (width - 1) as nat)
    }
}

/// The unsigned number that `bytes` spell, least significant byte first.
pub open spec fn le_value(bytes: Seq<u8>) -> int
    decreases bytes.len(),
{
    if bytes.len() == 0 {
        0
    } else {
        bytes[0] as int + 256 * le_value(bytes.skip(1))
    }
}

/// The signed 32-bit number that four bytes spell.
pub open spec fn le_i32(bytes: Seq<u8>) -> int {
    let value = le_value(bytes);
    if value >= 0x8000_0000 {
        value - 0x1_0000_0000
    } else {
        value
    }
}

/// The signed 64-bit number that eight bytes spell.
pub open spec fn le_i64(bytes: Seq<u8>) -> int {
    let value = le_value(bytes);
    if value >= 0x8000_0000_0000_0000 {
        value - 0x1_0000_0000_0000_0000
    } else {
        value
    }
}

/// `256` to the power `width`.
pub open spec fn pow256(width: nat) -> int
    decreases width,
{
    if width == 0 {
        1
    } else {
        256 * pow256((width - 1) as nat)
    }
}

/// `count` zero bytes; none for a count that is not positive.
pub open spec fn zeros(count: int) -> Seq<u8> {
    Seq::new(if count > 0 { count as nat } else { 0 }, |i: int| 0u8)
}

/// `le_bytes` yields exactly `width` bytes.
pub proof fn lemma_le_bytes_len(value: int, width: nat)
    ensures
        le_bytes(value, width).len() == width,
    decreases width,
{
    if width > 0 {
        lemma_le_bytes_len(value / 256, (width - 1) as nat);
    }
}

/// Shifting a value by a multiple of `256^width` leaves its `width` low bytes alone.
proof fn lemma_le_bytes_wrap(value: int, width: nat, high: int)
    ensures
        le_bytes(value + high * pow256(width), width) == le_bytes(value, width),
    decreases width,
{
    if width > 0 {
        let rest = (width - 1) as nat;
        let unit = pow256(rest);
        let shift = high * unit;
        assert(high * (256 * unit) == 256 * shift) by (nonlinear_arith)
            requires
                shift == high * unit,
        ;
        assert((value + 256 * shift) % 256 == value % 256 && (value + 256 * shift) / 256 == value
            / 256 + shift) by (nonlinear_arith);
        lemma_le_bytes_wrap(value / 256, rest, high);
    }
}

/// Reading back the bytes of a number that is not negative gives the number, reduced to
/// `width` bytes.
pub proof fn lemma_le_value_of_bytes(value: int, width: nat)
    requires
        0 <= value,
    ensures
        le_value(le_bytes(value, width)) == value % pow256(width),
    decreases width,
{
    if width == 0 {
        assert(value % 1 == 0);
    } else {
        let rest = (width - 1) as nat;
        let tail = le_bytes(value / 256, rest);
        let all = le_bytes(value, width);
        assert(all.skip(1) =~= tail);
        assert(all[0] == (value % 256) as u8);
        lemma_le_value_of_bytes(value / 256, rest);
        lemma_pow256_positive(rest);
        vstd::arithmetic::div_mod::lemma_mod_breakdown(value, 256, pow256(rest));
    }
}

proof fn lemma_pow256_positive(width: nat)
    ensures
        pow256(width) > 0,
    decreases width,
{
    if width > 0 {
        lemma_pow256_positive((width - 1) as nat);
    }
}

/// A 32-bit integer written as four bytes and read back is itself.
pub proof fn lemma_i32_round_trip(x: i32)
    ensures
        le_bytes(x as int, 4).len() == 4,
        le_i32(le_bytes(x as int, 4)) == x,
{
    lemma_le_bytes_len(x as int, 4);
    assert(pow256(4) == 0x1_0000_0000) by {
        reveal_with_fuel(pow256, 5);
    }
    if x < 0 {
        lemma_le_bytes_wrap(x as int, 4, 1);
        lemma_le_value_of_bytes(x + 0x1_0000_0000, 4);
    } else {
        lemma_le_value_of_bytes(x as int, 4);
    }
}

/// A 64-bit integer written as eight bytes and read back is itself.
pub proof fn lemma_i64_round_trip(x: i64)
    ensures
        le_bytes(x as int, 8).len() == 8,
        le_i64(le_bytes(x as int, 8)) == x,
{
    lemma_le_bytes_len(x as int, 8);
    assert(pow256(8) == 0x1_0000_0000_0000_0000) by {
        reveal_with_fuel(pow256, 9);
    }
    if x < 0 {
        lemma_le_bytes_wrap(x as int, 8, 1);
        lemma_le_value_of_bytes(x + 0x1_0000_0000_0000_0000, 8);
    } else {
        lemma_le_value_of_bytes(x as int, 8);
    }
}

/// The bytes of `value`, which must be below `256^width`, least significant first.
fn unsigned_le_bytes(value: u64, width: usize) -> (bytes: Vec<u8>)
    requires
        width <= 8,
    ensures
        bytes@ == le_bytes(value as int, width as nat),
{
    let mut bytes: Vec<u8> = Vec::new();
    let mut rest: u64 = value;
    let mut i: usize = 0;
    while i < width
        invariant
            i <= width,
            bytes@ + le_bytes(rest as int, (width - i) as nat) == le_bytes(
                value as int,
                width as nat,
            ),
        decreases width - i,
    {
        let ghost before = bytes@;
        bytes.push((rest % 256) as u8);
        assert(bytes@ + le_bytes((rest / 256) as int, (width - i - 1) as nat) =~= before
            + le_bytes(rest as int, (width - i) as nat));
        rest = rest / 256;
        i = i + 1;
    }
    assert(bytes@ + le_bytes(rest as int, 0) =~= bytes@);
    bytes
}

/// The four little-endian bytes of `x`.
pub fn i32_le_bytes(x: i32) -> (bytes: Vec<u8>)
    ensures
        bytes@ == le_bytes(x as int, 4),
{
    let unsigned: u64 = if x < 0 {
        (x as i64 + 0x1_0000_0000) as u64
    } else {
        x as u64
    };
    proof {
        if x < 0 {
            assert(pow256(4) == 0x1_0000_0000) by {
                reveal_with_fuel(pow256, 5);
            }
            lemma_le_bytes_wrap(x as int, 4, 1);
        }
    }
    unsigned_le_bytes(unsigned, 4)
}

/// The eight little-endian bytes of `x`.
pub fn i64_le_bytes(x: i64) -> (bytes: Vec<u8>)
    ensures
        bytes@ == le_bytes(x as int, 8),
{
    let unsigned: u64 = if x < 0 {
        (x as i128 + 0x1_0000_0000_0000_0000) as u64
    } else {
        x as u64
    };
    proof {
        if x < 0 {
            assert(pow256(8) == 0x1_0000_0000_0000_0000) by {
                reveal_with_fuel(pow256, 9);
            }
            lemma_le_bytes_wrap(x as int, 8, 1);
        }
    }
    unsigned_le_bytes(unsigned, 8)
}

} // verus!
