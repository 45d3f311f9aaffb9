//! Numbers and checksums as they stand on the wire.

use byteorder::{ByteOrder, NetworkEndian};
use crc::crc32;
use vstd::prelude::*;

verus! {

/// The number that four bytes stand for, the most significant byte first.
pub open spec fn be_u32(b: Seq<u8>) -> u32 {
    (b[0] * 0x100_0000 + b[1] * 0x1_0000 + b[2] * 0x100 + b[3]) as u32
}

/// The four bytes that stand for a number, the most significant byte first.
pub open spec fn be_bytes(n: u32) -> Seq<u8> {
    seq![
        (n / 0x100_0000) as u8,
        (n / 0x1_0000 % 0x100) as u8,
        (n / 0x100 % 0x100) as u8,
        (n % 0x100) as u8,
    ]
}

/// The bytes of a number are its digits to the base 256, the most significant first.
pub proof fn most_significant_first(n: u32)
    ensures
        ({
            let b = be_bytes(n);
            &&& b.len() == 4
            &&& n == 0x100_0000 * b[0] + 0x1_0000 * b[1] + 0x100 * b[2] + b[3]
        }),
{
}

/// A number survives being written and read back.
pub proof fn be_round_trip(n: u32)
    ensures
        be_u32(be_bytes(n)) == n,
{
}

/// Four bytes survive being read and written back.
pub proof fn be_bytes_round_trip(b: Seq<u8>)
    requires
        b.len() == 4,
    ensures
        be_bytes(be_u32(b)) == b,
{
    let (b0, b1, b2, b3) = (b[0], b[1], b[2], b[3]);
    let n = be_u32(b);
    assert(n == b0 * 0x100_0000 + b1 * 0x1_0000 + b2 * 0x100 + b3);
    assert(n / 0x100_0000 == b0 && n / 0x1_0000 % 0x100 == b1 && n / 0x100 % 0x100 == b2 && n
        % 0x100 == b3) by (bit_vector)
        requires
            n == b0 * 0x100_0000 + b1 * 0x1_0000 + b2 * 0x100 + b3,
    ;
    assert(be_bytes(n) =~= b);
}

/// One step of division by the generator polynomial of IEEE 802.3, the lowest bit first.
pub open spec fn divide_bit(v: u32) -> u32 {
    if v & 1 == 1 {
        (v >> 1) ^ 0xedb8_8320
    } else {
        v >> 1
    }
}

/// Some steps of that division.
pub open spec fn divide_bits(v: u32, count: nat) -> u32
    decreases count,
{
    if count == 0 {
        v
    } else {
        divide_bit(divide_bits(v, (count - 1) as nat))
    }
}

/// What is left once all bytes have been divided, starting from a register of ones.
pub open spec fn remainder(data: Seq<u8>) -> u32
    decreases data.len(),
{
    if data.len() == 0 {
        0xffff_ffff
    } else {
        divide_bits(remainder(data.drop_last()) ^ (data.last() as u32), 8)
    }
}

/// The CRC-32 of IEEE 802.3 over some bytes.
#[verifier::opaque]
pub open spec fn checksum(data: Seq<u8>) -> u32 {
    !remainder(data)
}

/// Calls `crc::crc32::checksum_ieee`, which divides the bytes by the polynomial `0xedb88320`, the
/// lowest bit first, in a register that starts as ones and is inverted in the end. It does so a
/// byte at a time, with a table of what eight steps make of each byte.
#[verifier::external_body]
pub(crate) fn checksum_ieee(data: &[u8]) -> (r: u32)
    ensures
        r == checksum(data@),
{
    crc32::checksum_ieee(data)
}

/// Different registers stay different in division.
proof fn division_tells_apart(v: u32, w: u32, count: nat)
    requires
        v != w,
    ensures
        divide_bits(v, count) != divide_bits(w, count),
    decreases count,
{
    if count > 0 {
        let less = (count - 1) as nat;
        division_tells_apart(v, w, less);
        let (a, b) = (divide_bits(v, less), divide_bits(w, less));
        assert(divide_bit(a) != divide_bit(b)) by (bit_vector)
            requires
                a != b,
        ;
    }
}

proof fn remainders_differ(data: Seq<u8>, i: int, byte: u8)
    requires
        0 <= i < data.len(),
        data[i] != byte,
    ensures
        remainder(data.update(i, byte)) != remainder(data),
    decreases data.len(),
{
    let changed = data.update(i, byte);
    let (last, changed_last) = (data.last(), changed.last());
    let (r, q) = (remainder(data.drop_last()), remainder(changed.drop_last()));
    if i == data.len() - 1 {
        assert(changed.drop_last() =~= data.drop_last());
        assert(r ^ (last as u32) != r ^ (changed_last as u32)) by (bit_vector)
            requires
                last != changed_last,
        ;
    } else {
        assert(changed.drop_last() =~= data.drop_last().update(i, byte));
        remainders_differ(data.drop_last(), i, byte);
        assert(r ^ (last as u32) != q ^ (last as u32)) by (bit_vector)
            requires
                r != q,
        ;
    }
    division_tells_apart(r ^ (last as u32), q ^ (changed_last as u32), 8);
}

/// Where one byte is changed, the checksum changes.
pub proof fn changed_byte_shows(data: Seq<u8>, i: int, byte: u8)
    requires
        0 <= i < data.len(),
        data[i] != byte,
    ensures
        checksum(data.update(i, byte)) != checksum(data),
{
    reveal(checksum);
    remainders_differ(data, i, byte);
    let (r, q) = (remainder(data), remainder(data.update(i, byte)));
    assert(!r != !q) by (bit_vector)
        requires
            r != q,
    ;
}

/// Calls `byteorder::NetworkEndian::read_u32`, which reads the first four bytes as a big-endian
/// number and panics where there are fewer.
#[verifier::external_body]
pub(crate) fn read_u32(buf: &[u8]) -> (r: u32)
    requires
        buf@.len() >= 4,
    ensures
        r == be_u32(buf@.take(4)),
{
    NetworkEndian::read_u32(buf)
}

/// Calls `byteorder::NetworkEndian::write_u32`, which writes the number's four bytes, the most
/// significant first.
#[verifier::external_body]
pub(crate) fn write_u32(buf: &mut [u8; 4], n: u32)
    ensures
        final(buf)@ == be_bytes(n),
{
    NetworkEndian::write_u32(buf, n)
}

} // verus!
