//! Byte cursors.
//!
//! Encoders append to a `Vec<u8>` and decoders consume from the front of a
//! `&[u8]`, in both cases through the `bytes` crate. The private functions
//! here are the calls into that crate, each with what its documentation
//! promises.

use vstd::prelude::*;
use crate::error::{Error, Result};

verus! {

// ---------------------------------------------------------------------------
// What encoders and decoders do, as mathematics
// ---------------------------------------------------------------------------

/// Whether `n` more octets fit into a buffer that holds `buf`: no allocation
/// is larger than `isize::MAX` octets.
pub open spec fn room(buf: Seq<u8>, n: int) -> bool {
    buf.len() + n <= isize::MAX
}

/// What decoding one item from the front of an octet sequence comes to: the
/// item or the error, and how many octets were consumed either way.
pub struct Decoded<T> {
    pub result: Result<T>,
    pub used: nat,
}

/// A decoder that started on `before` and left `after` behind did what `d`
/// describes.
pub open spec fn decodes<T>(before: Seq<u8>, after: Seq<u8>, r: Result<T>, d: Decoded<T>) -> bool {
    &&& r == d.result
    &&& after =~= before.skip(d.used as int)
}

/// As [`decodes`], for an item that is described by its view.
pub open spec fn decodes_view<T: View>(
    before: Seq<u8>,
    after: Seq<u8>,
    r: Result<T>,
    d: Decoded<T::V>,
) -> bool {
    &&& match r {
        Ok(v) => d.result == Ok::<T::V, Error>(v@),
        Err(e) => d.result == Err::<T::V, Error>(e),
    }
    &&& after =~= before.skip(d.used as int)
}

/// The error for an item that needs `needed` octets where only `s` is left.
pub open spec fn short_of(s: Seq<u8>, needed: int) -> Error {
    Error::Incomplete { needed: needed as usize, have: s.len() as usize }
}

/// Decoding an item of exactly `n` octets whose value is `v`: too short an
/// input is an error that consumes nothing.
pub open spec fn fixed<T>(s: Seq<u8>, n: nat, v: T) -> Decoded<T> {
    if s.len() < n {
        Decoded { result: Err(short_of(s, n as int)), used: 0 }
    } else {
        Decoded { result: Ok(v), used: n }
    }
}

/// Decoding nothing but the value `v`.
pub open spec fn done<T>(v: T) -> Decoded<T> {
    Decoded { result: Ok(v), used: 0 }
}

/// Decoding one item after another: `first` has been read from the front of
/// `s`, and `next` says what to read from what is left, given the first item.
pub open spec fn and_next<A, B>(
    s: Seq<u8>,
    first: Decoded<A>,
    next: spec_fn(A, Seq<u8>) -> Decoded<B>,
) -> Decoded<B> {
    match first.result {
        Ok(a) => {
            let rest = next(a, s.skip(first.used as int));
            Decoded { result: rest.result, used: first.used + rest.used }
        },
        Err(e) => Decoded { result: Err(e), used: first.used },
    }
}

/// Decoding an item and presenting it as `f` says.
pub open spec fn mapped<A, B>(d: Decoded<A>, f: spec_fn(A) -> B) -> Decoded<B> {
    match d.result {
        Ok(a) => Decoded { result: Ok(f(a)), used: d.used },
        Err(e) => Decoded { result: Err(e), used: d.used },
    }
}

/// Succeeds exactly when `n` octets remain; the error says how many do.
pub(crate) fn ensure(buf: &&[u8], n: usize) -> (r: Result<()>)
    ensures
        r == (if buf@.len() < n {
            Err::<(), Error>(short_of(buf@, n as int))
        } else {
            Ok(())
        }),
{
    if remaining(buf) < n {
        Err(Error::Incomplete { needed: n, have: remaining(buf) })
    } else {
        Ok(())
    }
}

// ---------------------------------------------------------------------------
// Integers on the wire
// ---------------------------------------------------------------------------

/// The two octets of a 16-bit integer, low octet first. Negative values are
/// taken in two's complement.
pub open spec fn le16(v: int) -> Seq<u8> {
    seq![(v % 256) as u8, ((v / 256) % 256) as u8]
}

/// The three low octets of an integer, low octet first.
pub open spec fn le24(v: int) -> Seq<u8> {
    seq![(v % 256) as u8, ((v / 256) % 256) as u8, ((v / 65536) % 256) as u8]
}

/// The four octets of a 32-bit integer, low octet first. Negative values are
/// taken in two's complement.
pub open spec fn le32(v: int) -> Seq<u8> {
    seq![
        (v % 256) as u8,
        ((v / 256) % 256) as u8,
        ((v / 65536) % 256) as u8,
        ((v / 16777216) % 256) as u8,
    ]
}

/// The unsigned integer that the first two octets hold, low octet first.
pub open spec fn u16_of(s: Seq<u8>) -> int {
    s[0] + 256 * s[1]
}

/// The unsigned integer that the first three octets hold, low octet first.
pub open spec fn u24_of(s: Seq<u8>) -> int {
    s[0] + 256 * s[1] + 65536 * s[2]
}

/// The unsigned integer that the first four octets hold, low octet first.
pub open spec fn u32_of(s: Seq<u8>) -> int {
    s[0] + 256 * s[1] + 65536 * s[2] + 16777216 * s[3]
}

/// The signed integer that `u` stands for in 16-bit two's complement.
pub open spec fn signed16(u: int) -> int {
    if u >= 32768 {
        u - 65536
    } else {
        u
    }
}

/// The signed integer that `u` stands for in 32-bit two's complement.
pub open spec fn signed32(u: int) -> int {
    if u >= 2147483648 {
        u - 4294967296
    } else {
        u
    }
}

// ---------------------------------------------------------------------------
// Calls into the `bytes` crate
// ---------------------------------------------------------------------------

/// `bytes::BufMut::put_u8` on a `Vec<u8>`: appends one octet.
#[verifier::external_body]
pub(crate) fn put_u8(buf: &mut Vec<u8>, n: u8)
    requires
        room(old(buf)@, 1),
    ensures
        final(buf)@ == old(buf)@.push(n),
{
    bytes::BufMut::put_u8(buf, n);
}

/// `bytes::BufMut::put_u16_le` on a `Vec<u8>`: appends two octets, low octet
/// first.
#[verifier::external_body]
pub(crate) fn put_u16_le(buf: &mut Vec<u8>, n: u16)
    requires
        room(old(buf)@, 2),
    ensures
        final(buf)@ == old(buf)@ + le16(n as int),
{
    bytes::BufMut::put_u16_le(buf, n);
}

/// `bytes::BufMut::put_i16_le` on a `Vec<u8>`: appends two octets of two's
/// complement, low octet first.
#[verifier::external_body]
pub(crate) fn put_i16_le(buf: &mut Vec<u8>, n: i16)
    requires
        room(old(buf)@, 2),
    ensures
        final(buf)@ == old(buf)@ + le16(n as int),
{
    bytes::BufMut::put_i16_le(buf, n);
}

/// `bytes::BufMut::put_u32_le` on a `Vec<u8>`: appends four octets, low octet
/// first.
#[verifier::external_body]
pub(crate) fn put_u32_le(buf: &mut Vec<u8>, n: u32)
    requires
        room(old(buf)@, 4),
    ensures
        final(buf)@ == old(buf)@ + le32(n as int),
{
    bytes::BufMut::put_u32_le(buf, n);
}

/// `bytes::BufMut::put_i32_le` on a `Vec<u8>`: appends four octets of two's
/// complement, low octet first.
#[verifier::external_body]
pub(crate) fn put_i32_le(buf: &mut Vec<u8>, n: i32)
    requires
        room(old(buf)@, 4),
    ensures
        final(buf)@ == old(buf)@ + le32(n as int),
{
    bytes::BufMut::put_i32_le(buf, n);
}

/// `bytes::BufMut::put_slice` on a `Vec<u8>`: appends the octets of `src`.
#[verifier::external_body]
pub(crate) fn put_slice(buf: &mut Vec<u8>, src: &[u8])
    requires
        room(old(buf)@, src@.len() as int),
    ensures
        final(buf)@ == old(buf)@ + src@,
{
    bytes::BufMut::put_slice(buf, src);
}

/// `bytes::Buf::remaining` on a `&[u8]`: the number of octets not yet
/// consumed.
#[verifier::external_body]
pub(crate) fn remaining(buf: &&[u8]) -> (n: usize)
    ensures
        n == buf@.len(),
{
    bytes::Buf::remaining(buf)
}

/// `bytes::Buf::get_u8` on a `&[u8]`: takes one octet off the front. The call
/// panics when there is none.
#[verifier::external_body]
pub(crate) fn get_u8(buf: &mut &[u8]) -> (b: u8)
    requires
        old(buf)@.len() >= 1,
    ensures
        b == old(buf)@[0],
        final(buf)@ == old(buf)@.skip(1),
{
    bytes::Buf::get_u8(buf)
}

/// `bytes::Buf::get_u16_le` on a `&[u8]`: takes two octets off the front, low
/// octet first. The call panics when there are fewer.
#[verifier::external_body]
pub(crate) fn get_u16_le(buf: &mut &[u8]) -> (n: u16)
    requires
        old(buf)@.len() >= 2,
    ensures
        n as int == u16_of(old(buf)@),
        final(buf)@ == old(buf)@.skip(2),
{
    bytes::Buf::get_u16_le(buf)
}

/// `bytes::Buf::get_i16_le` on a `&[u8]`: takes two octets of two's complement
/// off the front, low octet first. The call panics when there are fewer.
#[verifier::external_body]
pub(crate) fn get_i16_le(buf: &mut &[u8]) -> (n: i16)
    requires
        old(buf)@.len() >= 2,
    ensures
        n as int == signed16(u16_of(old(buf)@)),
        final(buf)@ == old(buf)@.skip(2),
{
    bytes::Buf::get_i16_le(buf)
}

/// `bytes::Buf::get_u32_le` on a `&[u8]`: takes four octets off the front, low
/// octet first. The call panics when there are fewer.
#[verifier::external_body]
pub(crate) fn get_u32_le(buf: &mut &[u8]) -> (n: u32)
    requires
        old(buf)@.len() >= 4,
    ensures
        n as int == u32_of(old(buf)@),
        final(buf)@ == old(buf)@.skip(4),
{
    bytes::Buf::get_u32_le(buf)
}

/// `bytes::Buf::get_i32_le` on a `&[u8]`: takes four octets of two's
/// complement off the front, low octet first. The call panics when there are
/// fewer.
#[verifier::external_body]
pub(crate) fn get_i32_le(buf: &mut &[u8]) -> (n: i32)
    requires
        old(buf)@.len() >= 4,
    ensures
        n as int == signed32(u32_of(old(buf)@)),
        final(buf)@ == old(buf)@.skip(4),
{
    bytes::Buf::get_i32_le(buf)
}

/// `bytes::Buf::copy_to_slice` on a `&[u8]`: fills `dst` with octets taken off
/// the front. The call panics when there are fewer than `dst` holds.
#[verifier::external_body]
pub(crate) fn copy_to_slice(buf: &mut &[u8], dst: &mut [u8])
    requires
        old(buf)@.len() >= old(dst)@.len(),
    ensures
        final(dst)@ == old(buf)@.take(old(dst)@.len() as int),
        final(buf)@ == old(buf)@.skip(old(dst)@.len() as int),
{
    bytes::Buf::copy_to_slice(buf, dst);
}

/// Takes `n` octets off the front into a vector of their own.
pub(crate) fn take_vec(buf: &mut &[u8], n: usize) -> (v: Vec<u8>)
    requires
        old(buf)@.len() >= n,
    ensures
        v@ == old(buf)@.take(n as int),
        final(buf)@ == old(buf)@.skip(n as int),
{
    let mut v: Vec<u8> = vec![0u8; n];
    copy_to_slice(buf, v.as_mut_slice());
    v
}

/// The integer that two octets hold, low octet first.
pub(crate) fn u16_from_le(lo: u8, hi: u8) -> (v: u16)
    ensures
        v as int == lo + 256 * hi,
{
    lo as u16 + 256 * (hi as u16)
}

/// Appends the three low octets of `v`, low octet first.
pub(crate) fn put_u24_le(buf: &mut Vec<u8>, v: u32)
    requires
        room(old(buf)@, 3),
    ensures
        final(buf)@ == old(buf)@ + le24(v as int),
{
    proof {
        crate::bits::lemma_u24_split(v);
    }
    put_u8(buf, v as u8);
    put_u8(buf, (v >> 8) as u8);
    put_u8(buf, (v >> 16) as u8);
    assert(buf@ =~= old(buf)@ + le24(v as int));
}

/// Takes three octets off the front as an unsigned integer, low octet first.
pub(crate) fn get_u24_le(buf: &mut &[u8]) -> (v: u32)
    requires
        old(buf)@.len() >= 3,
    ensures
        v as int == u24_of(old(buf)@),
        final(buf)@ == old(buf)@.skip(3),
{
    let ghost s = buf@;
    let b0: u32 = get_u8(buf) as u32;
    let b1: u32 = get_u8(buf) as u32;
    let b2: u32 = get_u8(buf) as u32;
    assert(buf@ =~= s.skip(3));
    proof {
        crate::bits::lemma_u24_join(b0, b1, b2);
    }
    b0 | (b1 << 8) | (b2 << 16)
}

} // verus!
