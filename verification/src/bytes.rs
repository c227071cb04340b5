//! Numbers in byte buffers.

use vstd::prelude::*;

verus! {

/// Which byte of a number comes first.
#[derive(Debug, Clone, Copy, PartialEq, Eq, Structural)]
pub enum ByteOrder {
    /// The lowest.
    Little,
    /// The highest.
    Big,
}

/// The two bytes of `b` from `at` on, as a number, lowest byte first.
pub open spec fn le16(b: Seq<u8>, at: int) -> int {
    b[at] + 0x100 * b[at + 1]
}

/// The four bytes of `b` from `at` on, as a number, lowest byte first.
pub open spec fn le32(b: Seq<u8>, at: int) -> int {
    le16(b, at) + 0x1_0000 * le16(b, at + 2)
}

/// The two bytes of `b` from `at` on, as a number.
pub open spec fn num16(b: Seq<u8>, at: int, order: ByteOrder) -> int {
    match order {
        ByteOrder::Little => le16(b, at),
        ByteOrder::Big => 0x100 * b[at] + b[at + 1],
    }
}

/// The four bytes of `b` from `at` on, as a number.
pub open spec fn num32(b: Seq<u8>, at: int, order: ByteOrder) -> int {
    match order {
        ByteOrder::Little => num16(b, at, order) + 0x1_0000 * num16(b, at + 2, order),
        ByteOrder::Big => 0x1_0000 * num16(b, at, order) + num16(b, at + 2, order),
    }
}

/// The eight bytes of `b` from `at` on, as a number.
pub open spec fn num64(b: Seq<u8>, at: int, order: ByteOrder) -> int {
    match order {
        ByteOrder::Little => num32(b, at, order) + 0x1_0000_0000 * num32(b, at + 4, order),
        ByteOrder::Big => 0x1_0000_0000 * num32(b, at, order) + num32(b, at + 4, order),
    }
}

/// The number that the sixteen bits of `n` stand for with a sign.
pub open spec fn signed16(n: int) -> int {
    if n >= 0x8000 {
        n - 0x1_0000
    } else {
        n
    }
}

/// The number that the thirty-two bits of `n` stand for with a sign.
pub open spec fn signed32(n: int) -> int {
    if n >= 0x8000_0000 {
        n - 0x1_0000_0000
    } else {
        n
    }
}

/// Reads two bytes.
pub fn read_u16(b: &[u8], at: usize, order: ByteOrder) -> (r: u16)
    requires
        at + 2 <= b@.len(),
    ensures
        r == num16(b@, at as int, order),
{
    let first: u16 = b[at] as u16;
    let second: u16 = b[at + 1] as u16;
    match order {
        ByteOrder::Little => first + 0x100 * second,
        ByteOrder::Big => 0x100 * first + second,
    }
}

/// Reads four bytes.
pub fn read_u32(b: &[u8], at: usize, order: ByteOrder) -> (r: u32)
    requires
        at + 4 <= b@.len(),
    ensures
        r == num32(b@, at as int, order),
{
    assert(b.len() <= usize::MAX);
    let first: u32 = read_u16(b, at, order) as u32;
    let second: u32 = read_u16(b, at + 2, order) as u32;
    match order {
        ByteOrder::Little => first + 0x1_0000 * second,
        ByteOrder::Big => 0x1_0000 * first + second,
    }
}

/// Reads eight bytes.
pub fn read_u64(b: &[u8], at: usize, order: ByteOrder) -> (r: u64)
    requires
        at + 8 <= b@.len(),
    ensures
        r == num64(b@, at as int, order),
{
    assert(b.len() <= usize::MAX);
    let first: u64 = read_u32(b, at, order) as u64;
    let second: u64 = read_u32(b, at + 4, order) as u64;
    match order {
        ByteOrder::Little => first + 0x1_0000_0000 * second,
        ByteOrder::Big => 0x1_0000_0000 * first + second,
    }
}

/// Reads two bytes as a number with a sign.
pub fn read_i16(b: &[u8], at: usize, order: ByteOrder) -> (r: i16)
    requires
        at + 2 <= b@.len(),
    ensures
        r == signed16(num16(b@, at as int, order)),
{
    let n: i32 = read_u16(b, at, order) as i32;
    if n >= 0x8000 {
        (n - 0x1_0000) as i16
    } else {
        n as i16
    }
}

/// Reads four bytes as a number with a sign.
pub fn read_i32(b: &[u8], at: usize, order: ByteOrder) -> (r: i32)
    requires
        at + 4 <= b@.len(),
    ensures
        r == signed32(num32(b@, at as int, order)),
{
    let n: i64 = read_u32(b, at, order) as i64;
    if n >= 0x8000_0000 {
        (n - 0x1_0000_0000) as i32
    } else {
        n as i32
    }
}

/// A number is the sum of its bytes, each 256 times the weight of the one below
/// it; the orders differ only in which end the weights start from.
pub proof fn law_numbers_are_sums_of_bytes(b: Seq<u8>, at: int)
    ensures
        num16(b, at, ByteOrder::Little) == b[at] + 256 * b[at + 1],
        num16(b, at, ByteOrder::Big) == b[at + 1] + 256 * b[at],
        num32(b, at, ByteOrder::Little) == b[at] + 256 * b[at + 1] + 65536 * b[at + 2] + 16777216
            * b[at + 3],
        num32(b, at, ByteOrder::Big) == b[at + 3] + 256 * b[at + 2] + 65536 * b[at + 1] + 16777216
            * b[at],
        num64(b, at, ByteOrder::Little) == b[at] + 256 * b[at + 1] + 65536 * b[at + 2] + 16777216
            * b[at + 3] + 4294967296 * b[at + 4] + 1099511627776 * b[at + 5] + 281474976710656
            * b[at + 6] + 72057594037927936 * b[at + 7],
        num64(b, at, ByteOrder::Big) == b[at + 7] + 256 * b[at + 6] + 65536 * b[at + 5] + 16777216
            * b[at + 4] + 4294967296 * b[at + 3] + 1099511627776 * b[at + 2] + 281474976710656
            * b[at + 1] + 72057594037927936 * b[at],
        le16(b, at) == num16(b, at, ByteOrder::Little),
        le32(b, at) == num32(b, at, ByteOrder::Little),
{
}

/// A buffer read backwards in one order is the buffer read forwards in the other.
pub proof fn law_orders_mirror_each_other(b: Seq<u8>)
    ensures
        b.len() == 2 ==> num16(b.reverse(), 0, ByteOrder::Little) == num16(b, 0, ByteOrder::Big),
        b.len() == 4 ==> num32(b.reverse(), 0, ByteOrder::Little) == num32(b, 0, ByteOrder::Big),
        b.len() == 8 ==> num64(b.reverse(), 0, ByteOrder::Little) == num64(b, 0, ByteOrder::Big),
{
}

/// With a sign, the upper half of the numbers stands for those below zero, and the
/// bits stay what they are.
pub proof fn law_upper_halves_are_negative(n: int, m: int)
    requires
        0 <= n < 0x1_0000,
        0 <= m < 0x1_0000_0000,
    ensures
        -0x8000 <= signed16(n) < 0x8000,
        signed16(n) % 0x1_0000 == n,
        -0x8000_0000 <= signed32(m) < 0x8000_0000,
        signed32(m) % 0x1_0000_0000 == m,
{
}

} // verus!
