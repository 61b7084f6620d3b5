//! Laws of integers, digests and byte vectors.

use vstd::prelude::*;

use crate::codec::{
    read_digest, read_u16, read_u64, same_bytes, u64_at_undoes_u64_be, u64_be, write_digest,
    write_u16, write_u64, CodecError,
};
use crate::coding::chunk::varint;
use crate::types::{Digest, Round};

verus! {

/// Digests are equal exactly if all their bytes are.
pub proof fn digests_are_equal_by_their_bytes(a: Digest, b: Digest, r: bool)
    requires
        call_ensures(<Digest as PartialEq>::eq, (&a, &b), r),
    ensures
        r <==> forall|i: int| 0 <= i < 32 ==> a.0@[i] == b.0@[i],
{
    if forall|i: int| 0 <= i < 32 ==> a.0@[i] == b.0@[i] {
        assert(a.0@ =~= b.0@);
    }
}

/// A round has the epoch and the view that it was made with.
pub proof fn round_keeps_epoch_and_view(epoch: u64, view: u64, r: Round)
    requires
        call_ensures(Round::new, (epoch, view), r),
    ensures
        r.epoch == epoch,
        r.view == view,
{
}

/// A 16-bit integer is written behind what is there, as two digits of base 256, the high one
/// first.
pub proof fn u16_is_written_big_endian(x: u16, buf: &mut Vec<u8>, r: ())
    requires
        call_ensures(write_u16, (x, buf), r),
    ensures
        final(buf)@.len() == old(buf)@.len() + 2,
        final(buf)@.take(old(buf)@.len() as int) == old(buf)@,
        final(buf)@[old(buf)@.len() as int] * 256 + final(buf)@[old(buf)@.len() as int + 1] == x,
{
    assert(final(buf)@.take(old(buf)@.len() as int) =~= old(buf)@);
}

/// A 16-bit integer is read from two digits of base 256, wherever they stand, and from nothing
/// less.
pub proof fn u16_is_read_big_endian(buf: &[u8], pos: usize, r: Result<u16, CodecError>)
    requires
        call_ensures(read_u16, (buf, pos), r),
        pos <= buf@.len(),
    ensures
        pos + 2 <= buf@.len() ==> (r matches Ok(x) && x == buf@[pos as int] * 256 + buf@[pos + 1]),
        pos + 2 > buf@.len() ==> (r matches Err(e) && e == CodecError::EndOfBuffer),
{
}

/// A 64-bit integer is written behind what is there, as eight digits of base 256, the highest one
/// first.
pub proof fn u64_is_written_big_endian(x: u64, buf: &mut Vec<u8>, r: ())
    requires
        call_ensures(write_u64, (x, buf), r),
    ensures
        ({
            let n = old(buf)@.len() as int;
            let b = final(buf)@;
            &&& b.len() == n + 8
            &&& b.take(n) == old(buf)@
            &&& b[n] * 0x100000000000000 + b[n + 1] * 0x1000000000000 + b[n + 2] * 0x10000000000
                + b[n + 3] * 0x100000000 + b[n + 4] * 0x1000000 + b[n + 5] * 0x10000 + b[n + 6]
                * 0x100 + b[n + 7] == x
        }),
{
    let n = old(buf)@.len() as int;
    let b = final(buf)@;
    assert(b.take(n) =~= old(buf)@);
    assert(b.subrange(n, n + 8) =~= u64_be(x));
    u64_at_undoes_u64_be(b, n, x);
}

/// A 64-bit integer is read from eight digits of base 256, wherever they stand, and from nothing
/// less.
pub proof fn u64_is_read_big_endian(buf: &[u8], pos: usize, r: Result<u64, CodecError>)
    requires
        call_ensures(read_u64, (buf, pos), r),
        pos <= buf@.len(),
    ensures
        pos + 8 <= buf@.len() ==> (r matches Ok(x) && x == buf@[pos as int] * 0x100000000000000
            + buf@[pos + 1] * 0x1000000000000 + buf@[pos + 2] * 0x10000000000 + buf@[pos + 3]
            * 0x100000000 + buf@[pos + 4] * 0x1000000 + buf@[pos + 5] * 0x10000 + buf@[pos + 6]
            * 0x100 + buf@[pos + 7]),
        pos + 8 > buf@.len() ==> (r matches Err(e) && e == CodecError::EndOfBuffer),
{
}

/// A digest is written byte by byte behind what is there.
pub proof fn digest_is_written_as_it_is(digest: Digest, buf: &mut Vec<u8>, r: ())
    requires
        call_ensures(write_digest, (&digest, buf), r),
    ensures
        final(buf)@ == old(buf)@ + digest.0@,
{
}

/// A digest is read from 32 bytes, wherever they stand, and from nothing less.
pub proof fn digest_is_read_as_it_is(buf: &[u8], pos: usize, r: Result<Digest, CodecError>)
    requires
        call_ensures(read_digest, (buf, pos), r),
        pos <= buf@.len(),
    ensures
        pos + 32 <= buf@.len() ==> (r matches Ok(d) && forall|i: int|
            0 <= i < 32 ==> #[trigger] d.0@[i] == buf@[pos + i]),
        pos + 32 > buf@.len() ==> (r matches Err(e) && e == CodecError::EndOfBuffer),
{
    if let Ok(d) = r {
        if pos + 32 <= buf@.len() {
            let s = buf@.subrange(pos as int, pos + 32);
            assert(forall|i: int| 0 <= i < 32 ==> #[trigger] s[i] == buf@[pos + i]);
        }
    }
}

/// Byte vectors are the same exactly if they are as long and agree at every place.
pub proof fn same_bytes_are_the_same_everywhere(a: Vec<u8>, b: Vec<u8>, r: bool)
    requires
        call_ensures(same_bytes, (&a, &b), r),
    ensures
        r <==> a@.len() == b@.len() && forall|i: int| 0 <= i < a@.len() ==> a@[i] == b@[i],
{
    if a@.len() == b@.len() && forall|i: int| 0 <= i < a@.len() ==> a@[i] == b@[i] {
        assert(a@ =~= b@);
    }
}

/// A length is written seven bits to a byte, the low ones first: every byte but the last is 128 or
/// more, the last is less, and none follows that says nothing.
pub proof fn length_has_seven_bits_to_a_byte(n: nat)
    ensures
        varint(n).len() > 0,
        n < 128 ==> varint(n) == seq![n as u8],
        n >= 128 ==> {
            &&& varint(n)[0] == 128 + n % 128
            &&& varint(n).skip(1) == varint(n / 128)
        },
        varint(n).last() < 128,
        varint(n).last() == 0 ==> n == 0,
    decreases n,
{
    if n >= 128 {
        length_has_seven_bits_to_a_byte(n / 128);
        assert(varint(n).skip(1) =~= varint(n / 128));
        assert(varint(n).last() == varint(n / 128).last());
    }
}

} // verus!
