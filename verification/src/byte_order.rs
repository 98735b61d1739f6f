//! Big-endian integers as they appear on the wire.

use byteorder::{BigEndian, ByteOrder};
use vstd::prelude::*;

verus! {

/// The number that the bytes of `s` spell in base 256, most significant
/// byte first.
pub open spec fn be_value(s: Seq<u8>) -> nat
    decreases s.len(),
{
    if s.len() == 0 {
        0
    } else {
        be_value(s.drop_last()) * 256 + s.last() as nat
    }
}

/// The `width` low-order base-256 digits of `n`, most significant first.
pub open spec fn be_bytes(n: nat, width: nat) -> Seq<u8>
    decreases width,
{
    if width == 0 {
        Seq::empty()
    } else {
        be_bytes(n / 256, (width - 1) as nat).push((n % 256) as u8)
    }
}

/// 256 to the power `k`.
pub open spec fn pow256(k: nat) -> nat
    decreases k,
{
    if k == 0 {
        1
    } else {
        256 * pow256((k - 1) as nat)
    }
}

/// `be_bytes` always yields exactly `width` bytes.
pub proof fn lemma_be_bytes_len(n: nat, width: nat)
    ensures
        be_bytes(n, width).len() == width,
    decreases width,
{
    if width > 0 {
        lemma_be_bytes_len(n / 256, (width - 1) as nat);
    }
}

/// Reading back what `be_bytes` wrote gives the number again, as long as
/// the number fits in `width` bytes.
pub proof fn lemma_be_value_of_be_bytes(n: nat, width: nat)
    requires
        n < pow256(width),
    ensures
        be_value(be_bytes(n, width)) == n,
    decreases width,
{
    if width > 0 {
        let rest = be_bytes(n / 256, (width - 1) as nat);
        lemma_be_value_of_be_bytes(n / 256, (width - 1) as nat);
        assert(be_bytes(n, width).drop_last() =~= rest);
        assert(be_bytes(n, width).last() == (n % 256) as u8);
    }
}

/// The two bytes that `be_bytes` gives at width two, written out. Only
/// the two low-order digits of the number reach them.
pub proof fn lemma_be_bytes_two(n: nat)
    ensures
        be_bytes(n, 2) == seq![((n / 256) % 256) as u8, (n % 256) as u8],
        be_bytes(n, 2) == be_bytes(n % 0x1_0000, 2),
{
    reveal_with_fuel(be_bytes, 3);
    let m = n % 0x1_0000;
    assert(be_bytes(m, 2) =~= seq![((m / 256) % 256) as u8, (m % 256) as u8]);
}

/// A big-endian number of `s.len()` bytes is below `256^s.len()`.
pub proof fn lemma_be_value_bound(s: Seq<u8>)
    ensures
        be_value(s) < pow256(s.len()),
    decreases s.len(),
{
    if s.len() > 0 {
        lemma_be_value_bound(s.drop_last());
    }
}

/// The values of `pow256` at the two field widths the frame format uses.
pub proof fn lemma_pow256_widths()
    ensures
        pow256(2) == 0x1_0000,
        pow256(8) == 0x1_0000_0000_0000_0000,
{
    reveal_with_fuel(pow256, 9);
}

/// `byteorder::BigEndian::read_u16`: the first two bytes of `buf` taken as
/// a big-endian number. The call panics on a shorter buffer, which the
/// precondition rules out.
#[verifier::external_body]
pub(crate) fn read_u16_be(buf: &[u8]) -> (n: u16)
    requires
        buf@.len() >= 2,
    ensures
        n as nat == be_value(buf@.subrange(0, 2)),
{
    BigEndian::read_u16(buf)
}

/// `byteorder::BigEndian::read_u64`: the first eight bytes of `buf` taken
/// as a big-endian number. The call panics on a shorter buffer, which the
/// precondition rules out.
#[verifier::external_body]
pub(crate) fn read_u64_be(buf: &[u8]) -> (n: u64)
    requires
        buf@.len() >= 8,
    ensures
        n as nat == be_value(buf@.subrange(0, 8)),
{
    BigEndian::read_u64(buf)
}

/// `byteorder::BigEndian::write_u16`: the two bytes that spell `n`, most
/// significant first.
#[verifier::external_body]
pub(crate) fn write_u16_be(n: u16) -> (bytes: [u8; 2])
    ensures
        bytes@ == be_bytes(n as nat, 2),
{
    let mut bytes = [0u8; 2];
    BigEndian::write_u16(&mut bytes, n);
    bytes
}

/// `byteorder::BigEndian::write_u64`: the eight bytes that spell `n`, most
/// significant first.
#[verifier::external_body]
pub(crate) fn write_u64_be(n: u64) -> (bytes: [u8; 8])
    ensures
        bytes@ == be_bytes(n as nat, 8),
{
    let mut bytes = [0u8; 8];
    BigEndian::write_u64(&mut bytes, n);
    bytes
}

/// Appends `bytes` to `output`.
pub(crate) fn append_bytes(output: &mut Vec<u8>, bytes: &[u8])
    ensures
        final(output)@ == old(output)@ + bytes@,
{
    output.extend_from_slice(bytes);
}

} // verus!
