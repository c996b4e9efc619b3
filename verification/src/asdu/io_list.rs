//! Helpers for encoding and decoding the information-objects section
//! of an ASDU, common to every Type ID that carries a list of objects.
//!
//! The shape of an information-objects section depends on the SQ bit of
//! the VSQ:
//!
//! * `SQ = 0` - each object carries its own IOA, followed by the type-specific
//!   information element(s).
//! * `SQ = 1` - only the *first* object carries an IOA; subsequent objects
//!   are implicitly addressed at `IOA + i` and only the information element
//!   is on the wire.

use vstd::prelude::*;
use crate::asdu::element::Element;
use crate::asdu::header::{
    decode_ioa, encode_ioa, ioa_decoded, ioa_fits, ioa_octets, ioa_wire, law_ioa_round_trip,
    AsduAddressing, Ioa, IoaSize, Vsq,
};
use crate::buf::{and_next, decodes, decodes_view, done, room, Decoded};
use crate::error::{Error, Result};

verus! {

// ---------------------------------------------------------------------------
// A single object
// ---------------------------------------------------------------------------

/// The octets of one object: its address, then its element.
pub open spec fn object_wire<E: Element>(ioa: Ioa, e: E, size: IoaSize) -> Seq<u8> {
    ioa_wire(ioa, size) + e.wire()
}

/// Decoding one object that carries its own address.
pub open spec fn object_decoded<E: Element>(s: Seq<u8>, size: IoaSize) -> Decoded<(Ioa, E)> {
    and_next(
        s,
        ioa_decoded(s, size),
        |ioa: Ioa, t: Seq<u8>| and_next(t, E::decoded(t), |e: E, u: Seq<u8>| done((ioa, e))),
    )
}

/// Encode one object.
pub(crate) fn encode_object<E: Element>(buf: &mut Vec<u8>, ioa: Ioa, e: &E, size: IoaSize)
    requires
        room(old(buf)@, object_wire(ioa, *e, size).len() as int),
    ensures
        final(buf)@ == old(buf)@ + object_wire(ioa, *e, size),
{
    proof {
        e.law_wire_len();
        law_ioa_round_trip(ioa, size, Seq::empty());
    }
    encode_ioa(buf, ioa, size);
    e.encode_element(buf);
    assert(buf@ =~= old(buf)@ + object_wire(ioa, *e, size));
}

/// Decode one object.
pub(crate) fn decode_object<E: Element>(buf: &mut &[u8], size: IoaSize) -> (r: Result<(Ioa, E)>)
    ensures
        decodes(old(buf)@, final(buf)@, r, object_decoded::<E>(old(buf)@, size)),
{
    proof {
        E::law_decoded(buf@.skip(ioa_decoded(buf@, size).used as int));
    }
    let ioa = decode_ioa(buf, size)?;
    let e = E::decode_element(buf)?;
    Ok((ioa, e))
}

/// One object that fits is decoded again as it was encoded, whatever follows it.
pub proof fn law_object_round_trip<E: Element>(ioa: Ioa, e: E, size: IoaSize, rest: Seq<u8>)
    requires
        ioa_fits(ioa, size),
        e.representable(),
    ensures
        object_decoded::<E>(object_wire(ioa, e, size) + rest, size) == (Decoded {
            result: Ok((ioa, e)),
            used: object_wire(ioa, e, size).len(),
        }),
{
    e.law_wire_len();
    e.law_round_trip(rest);
    law_ioa_round_trip(ioa, size, e.wire() + rest);
    let s = object_wire(ioa, e, size) + rest;
    assert(s =~= ioa_wire(ioa, size) + (e.wire() + rest));
    assert(s.skip(ioa_octets(size) as int) =~= e.wire() + rest);
}

// ---------------------------------------------------------------------------
// Encoding
// ---------------------------------------------------------------------------

/// The octets of the elements alone, in order.
pub open spec fn elements_wire<E: Element>(objects: Seq<(Ioa, E)>) -> Seq<u8>
    decreases objects.len(),
{
    if objects.len() == 0 {
        Seq::empty()
    } else {
        elements_wire(objects.drop_last()) + objects.last().1.wire()
    }
}

/// The octets of the objects, each element behind its own address, in order.
pub open spec fn addressed_wire<E: Element>(objects: Seq<(Ioa, E)>, size: IoaSize) -> Seq<u8>
    decreases objects.len(),
{
    if objects.len() == 0 {
        Seq::empty()
    } else {
        addressed_wire(objects.drop_last(), size) + (ioa_wire(objects.last().0, size)
            + objects.last().1.wire())
    }
}

/// The information-objects section for a list of objects. In sequence mode
/// the addresses after the first are not on the wire.
pub open spec fn list_wire<E: Element>(
    objects: Seq<(Ioa, E)>,
    vsq: Vsq,
    addressing: AsduAddressing,
) -> Seq<u8> {
    if !vsq.sequence {
        addressed_wire(objects, addressing.ioa_size)
    } else if objects.len() == 0 {
        Seq::empty()
    } else {
        ioa_wire(objects[0].0, addressing.ioa_size) + elements_wire(objects)
    }
}

/// How many octets a list of objects takes.
pub proof fn law_list_len<E: Element>(
    objects: Seq<(Ioa, E)>,
    vsq: Vsq,
    addressing: AsduAddressing,
)
    ensures
        list_wire(objects, vsq, addressing).len() == (if !vsq.sequence {
            objects.len() * (ioa_octets(addressing.ioa_size) + E::wire_len())
        } else if objects.len() == 0 {
            0
        } else {
            ioa_octets(addressing.ioa_size) + objects.len() * E::wire_len()
        }),
{
    lemma_wire_lens(objects, addressing.ioa_size);
    if objects.len() > 0 {
        law_ioa_round_trip(objects[0].0, addressing.ioa_size, Seq::empty());
    }
}

proof fn lemma_wire_lens<E: Element>(objects: Seq<(Ioa, E)>, size: IoaSize)
    ensures
        elements_wire(objects).len() == objects.len() * E::wire_len(),
        addressed_wire(objects, size).len() == objects.len() * (ioa_octets(size) + E::wire_len()),
    decreases objects.len(),
{
    if objects.len() > 0 {
        let init = objects.drop_last();
        lemma_wire_lens(init, size);
        objects.last().1.law_wire_len();
        law_ioa_round_trip(objects.last().0, size, Seq::empty());
        let n = init.len() as int;
        let e = E::wire_len() as int;
        let a = ioa_octets(size) as int;
        assert((n + 1) * e == n * e + e) by (nonlinear_arith);
        assert((n + 1) * (a + e) == n * (a + e) + (a + e)) by (nonlinear_arith);
    }
}

proof fn lemma_prefix_fits(i: int, n: int, c: int)
    by (nonlinear_arith)
    requires
        0 <= i < n,
        0 <= c,
    ensures
        i * c + c <= n * c,
{
}

/// Encode a list of objects using the SQ rule.
pub(crate) fn encode_io_list<E: Element>(
    buf: &mut Vec<u8>,
    objects: &Vec<(Ioa, E)>,
    vsq: Vsq,
    addressing: AsduAddressing,
)
    requires
        room(old(buf)@, list_wire(objects@, vsq, addressing).len() as int),
    ensures
        final(buf)@ == old(buf)@ + list_wire(objects@, vsq, addressing),
{
    let size = addressing.ioa_size;
    let ghost start = buf@;
    let n: usize = objects.len();
    proof {
        lemma_wire_lens(objects@, size);
        law_ioa_round_trip(objects@[0].0, size, Seq::empty());
    }
    if vsq.sequence {
        if n > 0 {
            encode_ioa(buf, objects[0].0, size);
            let ghost base = start + ioa_wire(objects@[0].0, size);
            let mut i: usize = 0;
            assert(buf@ =~= base + elements_wire(objects@.take(0)));
            while i < n
                invariant
                    i <= n,
                    n == objects@.len(),
                    room(base, (objects@.len() * E::wire_len()) as int),
                    buf@ == base + elements_wire(objects@.take(i as int)),
                decreases n - i,
            {
                let ghost before = objects@.take(i as int);
                let ghost after = objects@.take(i + 1);
                proof {
                    lemma_wire_lens(before, size);
                    lemma_prefix_fits(i as int, n as int, E::wire_len() as int);
                    assert(after.drop_last() =~= before);
                }
                objects[i].1.encode_element(buf);
                assert(buf@ =~= base + elements_wire(after));
                i += 1;
            }
            assert(objects@.take(n as int) =~= objects@);
            assert(buf@ =~= start + list_wire(objects@, vsq, addressing));
        }
    } else {
        let mut i: usize = 0;
        assert(buf@ =~= start + addressed_wire(objects@.take(0), size));
        while i < n
            invariant
                i <= n,
                n == objects@.len(),
                room(start, (objects@.len() * (ioa_octets(size) + E::wire_len())) as int),
                buf@ == start + addressed_wire(objects@.take(i as int), size),
            decreases n - i,
        {
            let ghost before = objects@.take(i as int);
            let ghost after = objects@.take(i + 1);
            proof {
                lemma_wire_lens(before, size);
                lemma_prefix_fits(i as int, n as int, (ioa_octets(size) + E::wire_len()) as int);
                assert(after.drop_last() =~= before);
                law_ioa_round_trip(objects@[i as int].0, size, Seq::empty());
            }
            encode_ioa(buf, objects[i].0, size);
            objects[i].1.encode_element(buf);
            assert(buf@ =~= start + addressed_wire(after, size));
            i += 1;
        }
        assert(objects@.take(n as int) =~= objects@);
    }
}

// ---------------------------------------------------------------------------
// Decoding
// ---------------------------------------------------------------------------

/// Decoding `n` objects that each carry their own address.
pub open spec fn addressed_decoded<E: Element>(s: Seq<u8>, n: nat, size: IoaSize) -> Decoded<
    Seq<(Ioa, E)>,
>
    decreases n,
{
    if n == 0 {
        done(Seq::empty())
    } else {
        and_next(
            s,
            addressed_decoded::<E>(s, (n - 1) as nat, size),
            |objects: Seq<(Ioa, E)>, t: Seq<u8>|
                and_next(
                    t,
                    ioa_decoded(t, size),
                    |ioa: Ioa, u: Seq<u8>|
                        and_next(
                            u,
                            E::decoded(u),
                            |e: E, v: Seq<u8>| done(objects.push((ioa, e))),
                        ),
                ),
        )
    }
}

/// The address of the object at position `i` of a sequence that starts at
/// `base`.
pub open spec fn nth_address(base: Ioa, i: int) -> Ioa {
    Ioa(((base.0 + i) % 0x1_0000_0000) as u32)
}

/// Decoding `n` elements whose addresses follow from `base`.
pub open spec fn sequence_decoded<E: Element>(s: Seq<u8>, n: nat, base: Ioa) -> Decoded<
    Seq<(Ioa, E)>,
>
    decreases n,
{
    if n == 0 {
        done(Seq::empty())
    } else {
        and_next(
            s,
            sequence_decoded::<E>(s, (n - 1) as nat, base),
            |objects: Seq<(Ioa, E)>, t: Seq<u8>|
                and_next(
                    t,
                    E::decoded(t),
                    |e: E, u: Seq<u8>| done(objects.push((nth_address(base, n - 1), e))),
                ),
        )
    }
}

/// Decoding an information-objects section of `vsq.count` objects.
pub open spec fn list_decoded<E: Element>(
    s: Seq<u8>,
    vsq: Vsq,
    addressing: AsduAddressing,
) -> Decoded<Seq<(Ioa, E)>> {
    if !vsq.sequence {
        addressed_decoded(s, vsq.count as nat, addressing.ioa_size)
    } else if vsq.count == 0 {
        done(Seq::empty())
    } else {
        and_next(
            s,
            ioa_decoded(s, addressing.ioa_size),
            |base: Ioa, t: Seq<u8>| sequence_decoded(t, vsq.count as nat, base),
        )
    }
}

proof fn lemma_addressed_error<E: Element>(s: Seq<u8>, i: nat, n: nat, size: IoaSize)
    requires
        i <= n,
        addressed_decoded::<E>(s, i, size).result is Err,
    ensures
        addressed_decoded::<E>(s, n, size) == addressed_decoded::<E>(s, i, size),
    decreases n,
{
    if i < n {
        lemma_addressed_error::<E>(s, i, (n - 1) as nat, size);
    }
}

proof fn lemma_sequence_error<E: Element>(s: Seq<u8>, i: nat, n: nat, base: Ioa)
    requires
        i <= n,
        sequence_decoded::<E>(s, i, base).result is Err,
    ensures
        sequence_decoded::<E>(s, n, base) == sequence_decoded::<E>(s, i, base),
    decreases n,
{
    if i < n {
        lemma_sequence_error::<E>(s, i, (n - 1) as nat, base);
    }
}

/// Decode `vsq.count` information objects using the SQ rule.
pub(crate) fn decode_io_list<E: Element>(
    buf: &mut &[u8],
    vsq: Vsq,
    addressing: AsduAddressing,
) -> (r: Result<Vec<(Ioa, E)>>)
    ensures
        decodes_view(
            old(buf)@,
            final(buf)@,
            r,
            list_decoded::<E>(old(buf)@, vsq, addressing),
        ),
{
    let size = addressing.ioa_size;
    let count: usize = vsq.count as usize;
    let mut objects: Vec<(Ioa, E)> = Vec::with_capacity(count);
    let ghost whole = buf@;
    if vsq.sequence {
        if count == 0 {
            return Ok(objects);
        }
        let base = decode_ioa(buf, size)?;
        let ghost s = buf@;
        let mut i: usize = 0;
        let ghost mut used: nat = 0;
        while i < count
            invariant
                i <= count,
                whole == old(buf)@,
                count == vsq.count,
                count > 0,
                vsq.sequence,
                size == addressing.ioa_size,
                whole.len() >= ioa_octets(size),
                ioa_decoded(whole, size).result == Ok::<Ioa, Error>(base),
                s == whole.skip(ioa_octets(size) as int),
                used <= s.len(),
                buf@ == s.skip(used as int),
                sequence_decoded::<E>(s, i as nat, base) == (Decoded {
                    result: Ok::<Seq<(Ioa, E)>, Error>(objects@),
                    used,
                }),
            decreases count - i,
        {
            proof {
                E::law_decoded(buf@);
                if E::decoded(buf@).result is Err {
                    lemma_sequence_error::<E>(s, (i + 1) as nat, count as nat, base);
                }
            }
            let ghost before = buf@;
            let e = E::decode_element(buf)?;
            proof {
                crate::bits::lemma_wrapping_u32(base.0, i as u32);
                used = used + E::decoded(before).used;
            }
            objects.push((Ioa(base.0.wrapping_add(i as u32)), e));
            i += 1;
        }
    } else {
        let mut i: usize = 0;
        let ghost mut used: nat = 0;
        while i < count
            invariant
                i <= count,
                whole == old(buf)@,
                count == vsq.count,
                !vsq.sequence,
                size == addressing.ioa_size,
                used <= whole.len(),
                buf@ == whole.skip(used as int),
                addressed_decoded::<E>(whole, i as nat, size) == (Decoded {
                    result: Ok::<Seq<(Ioa, E)>, Error>(objects@),
                    used,
                }),
            decreases count - i,
        {
            let ghost before = buf@;
            let ghost mid = before.skip(ioa_decoded(before, size).used as int);
            proof {
                E::law_decoded(mid);
                if ioa_decoded(before, size).result is Err || E::decoded(mid).result is Err {
                    lemma_addressed_error::<E>(whole, (i + 1) as nat, count as nat, size);
                }
            }
            let ioa = decode_ioa(buf, size)?;
            let e = E::decode_element(buf)?;
            proof {
                used = used + ioa_decoded(before, size).used + E::decoded(mid).used;
            }
            objects.push((ioa, e));
            i += 1;
        }
    }
    Ok(objects)
}

// ---------------------------------------------------------------------------
// Laws
// ---------------------------------------------------------------------------

/// Whether a list of objects can be carried unchanged: the count is right,
/// every address and element fits, and in sequence mode the addresses are
/// consecutive.
pub open spec fn list_fits<E: Element>(
    objects: Seq<(Ioa, E)>,
    vsq: Vsq,
    addressing: AsduAddressing,
) -> bool {
    &&& objects.len() == vsq.count
    &&& forall|i: int| 0 <= i < objects.len() ==> (#[trigger] objects[i]).1.representable()
    &&& if vsq.sequence {
        objects.len() > 0 ==> ioa_fits(objects[0].0, addressing.ioa_size) && forall|i: int|
            0 <= i < objects.len() ==> (#[trigger] objects[i]).0 == nth_address(objects[0].0, i)
    } else {
        forall|i: int|
            0 <= i < objects.len() ==> ioa_fits((#[trigger] objects[i]).0, addressing.ioa_size)
    }
}

proof fn lemma_addressed_round_trip<E: Element>(
    objects: Seq<(Ioa, E)>,
    size: IoaSize,
    rest: Seq<u8>,
)
    requires
        forall|i: int| 0 <= i < objects.len() ==> (#[trigger] objects[i]).1.representable(),
        forall|i: int| 0 <= i < objects.len() ==> ioa_fits((#[trigger] objects[i]).0, size),
    ensures
        addressed_decoded::<E>(addressed_wire(objects, size) + rest, objects.len(), size) == (
        Decoded { result: Ok(objects), used: addressed_wire(objects, size).len() }),
    decreases objects.len(),
{
    if objects.len() > 0 {
        let init = objects.drop_last();
        let (ioa, e) = objects.last();
        let tail = ioa_wire(ioa, size) + e.wire() + rest;
        lemma_addressed_round_trip(init, size, tail);
        law_ioa_round_trip(ioa, size, e.wire() + rest);
        e.law_round_trip(rest);
        e.law_wire_len();
        let s = addressed_wire(objects, size) + rest;
        assert(s =~= addressed_wire(init, size) + tail);
        assert(s.skip(addressed_wire(init, size).len() as int) =~= tail);
        assert(tail =~= ioa_wire(ioa, size) + (e.wire() + rest));
        assert(tail.skip(ioa_octets(size) as int) =~= e.wire() + rest);
        assert(init.push((ioa, e)) =~= objects);
    } else {
        assert(objects =~= Seq::empty());
    }
}

proof fn lemma_sequence_round_trip<E: Element>(objects: Seq<(Ioa, E)>, base: Ioa, rest: Seq<u8>)
    requires
        forall|i: int| 0 <= i < objects.len() ==> (#[trigger] objects[i]).1.representable(),
        forall|i: int|
            0 <= i < objects.len() ==> (#[trigger] objects[i]).0 == nth_address(base, i),
    ensures
        sequence_decoded::<E>(elements_wire(objects) + rest, objects.len(), base) == (Decoded {
            result: Ok(objects),
            used: elements_wire(objects).len(),
        }),
    decreases objects.len(),
{
    if objects.len() > 0 {
        let init = objects.drop_last();
        let (ioa, e) = objects.last();
        let tail = e.wire() + rest;
        lemma_sequence_round_trip(init, base, tail);
        e.law_round_trip(rest);
        e.law_wire_len();
        let s = elements_wire(objects) + rest;
        assert(s =~= elements_wire(init) + tail);
        assert(s.skip(elements_wire(init).len() as int) =~= tail);
        assert(init.push((ioa, e)) =~= objects);
    } else {
        assert(objects =~= Seq::empty());
    }
}

/// A list of objects that fits is decoded again as it was encoded, whatever
/// follows it, and exactly its own octets are consumed.
pub proof fn law_list_round_trip<E: Element>(
    objects: Seq<(Ioa, E)>,
    vsq: Vsq,
    addressing: AsduAddressing,
    rest: Seq<u8>,
)
    requires
        list_fits(objects, vsq, addressing),
    ensures
        list_decoded::<E>(list_wire(objects, vsq, addressing) + rest, vsq, addressing) == (
        Decoded { result: Ok(objects), used: list_wire(objects, vsq, addressing).len() }),
{
    let size = addressing.ioa_size;
    if !vsq.sequence {
        lemma_addressed_round_trip(objects, size, rest);
    } else if objects.len() == 0 {
        assert(objects =~= Seq::empty());
    } else {
        let base = objects[0].0;
        lemma_sequence_round_trip(objects, base, rest);
        law_ioa_round_trip(base, size, elements_wire(objects) + rest);
        let s = list_wire(objects, vsq, addressing) + rest;
        assert(s =~= ioa_wire(base, size) + (elements_wire(objects) + rest));
        assert(s.skip(ioa_octets(size) as int) =~= elements_wire(objects) + rest);
    }
}

/// A list decodes exactly when its octets are all there: in single mode every
/// object brings its address, in sequence mode only the first does.
pub proof fn law_list_decodes_iff_complete<E: Element>(
    s: Seq<u8>,
    vsq: Vsq,
    addressing: AsduAddressing,
)
    ensures
        list_decoded::<E>(s, vsq, addressing).result is Ok <==> (if !vsq.sequence {
            s.len() >= vsq.count * (ioa_octets(addressing.ioa_size) + E::wire_len())
        } else {
            vsq.count == 0 || s.len() >= ioa_octets(addressing.ioa_size) + vsq.count
                * E::wire_len()
        }),
        list_decoded::<E>(s, vsq, addressing).result is Ok ==> list_decoded::<E>(
            s,
            vsq,
            addressing,
        ).result->Ok_0.len() == vsq.count,
{
    let size = addressing.ioa_size;
    let n = vsq.count as nat;
    if !vsq.sequence {
        lemma_addressed_complete::<E>(s, n, size);
    } else if n > 0 {
        let t = s.skip(ioa_octets(size) as int);
        if s.len() >= ioa_octets(size) {
            lemma_sequence_complete::<E>(t, n, ioa_decoded(s, size).result->Ok_0);
        } else {
            assert(n * E::wire_len() >= 0) by (nonlinear_arith);
        }
    }
}

proof fn lemma_addressed_complete<E: Element>(s: Seq<u8>, n: nat, size: IoaSize)
    ensures
        addressed_decoded::<E>(s, n, size).result is Ok <==> s.len() >= n * (ioa_octets(size)
            + E::wire_len()),
        addressed_decoded::<E>(s, n, size).result is Ok ==> addressed_decoded::<E>(
            s,
            n,
            size,
        ).used == n * (ioa_octets(size) + E::wire_len()) && addressed_decoded::<E>(
            s,
            n,
            size,
        ).result->Ok_0.len() == n,
    decreases n,
{
    let c = ioa_octets(size) + E::wire_len();
    if n > 0 {
        lemma_addressed_complete::<E>(s, (n - 1) as nat, size);
        let prev = addressed_decoded::<E>(s, (n - 1) as nat, size);
        let t = s.skip(prev.used as int);
        let u = t.skip(ioa_decoded(t, size).used as int);
        E::law_decoded(u);
        assert(n * c == (n - 1) * c + c) by (nonlinear_arith);
    } else {
        assert(0 * c == 0);
    }
}

proof fn lemma_sequence_complete<E: Element>(s: Seq<u8>, n: nat, base: Ioa)
    ensures
        sequence_decoded::<E>(s, n, base).result is Ok <==> s.len() >= n * E::wire_len(),
        sequence_decoded::<E>(s, n, base).result is Ok ==> sequence_decoded::<E>(
            s,
            n,
            base,
        ).used == n * E::wire_len() && sequence_decoded::<E>(s, n, base).result->Ok_0.len() == n,
    decreases n,
{
    let c = E::wire_len();
    if n > 0 {
        lemma_sequence_complete::<E>(s, (n - 1) as nat, base);
        let prev = sequence_decoded::<E>(s, (n - 1) as nat, base);
        let t = s.skip(prev.used as int);
        E::law_decoded(t);
        assert(n * c == (n - 1) * c + c) by (nonlinear_arith);
    } else {
        assert(0 * c == 0);
    }
}

} // verus!
