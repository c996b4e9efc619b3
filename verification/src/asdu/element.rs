//! What an information element is: a value with a fixed number of octets on
//! the wire.

use vstd::prelude::*;
use crate::buf::{and_next, decodes, done, room, Decoded};
use crate::error::Result;

verus! {

/// A value that is carried in a fixed number of octets.
pub trait Element: Sized {
    /// Number of octets on the wire.
    spec fn wire_len() -> nat;

    /// The octets on the wire.
    spec fn wire(&self) -> Seq<u8>;

    /// What decoding from the front of `s` comes to.
    spec fn decoded(s: Seq<u8>) -> Decoded<Self>;

    /// Whether every field fits the width that it has on the wire.
    spec fn representable(&self) -> bool;

    /// Appends the octets to `buf`.
    fn encode_element(&self, buf: &mut Vec<u8>)
        requires
            room(old(buf)@, Self::wire_len() as int),
        ensures
            final(buf)@ == old(buf)@ + self.wire(),
    ;

    /// Takes one value off the front of `buf`.
    fn decode_element(buf: &mut &[u8]) -> (r: Result<Self>)
        ensures
            decodes(old(buf)@, final(buf)@, r, Self::decoded(old(buf)@)),
    ;

    /// Every value has the same number of octets.
    proof fn law_wire_len(&self)
        ensures
            self.wire().len() == Self::wire_len(),
    ;

    /// Decoding succeeds exactly when enough octets are left. It then
    /// consumes those octets and no others, and it looks at no others.
    proof fn law_decoded(s: Seq<u8>)
        ensures
            s.len() >= Self::wire_len() <==> Self::decoded(s).result is Ok,
            Self::decoded(s).result is Ok ==> Self::decoded(s).used == Self::wire_len(),
            Self::decoded(s).used <= s.len(),
    ;

    /// What was encoded is decoded again, whatever follows it.
    proof fn law_round_trip(&self, rest: Seq<u8>)
        requires
            self.representable(),
        ensures
            Self::decoded(self.wire() + rest) == (Decoded { result: Ok(*self), used: Self::wire_len() }),
    ;
}

/// Two elements one after the other.
impl<A: Element, B: Element> Element for (A, B) {
    open spec fn wire_len() -> nat {
        A::wire_len() + B::wire_len()
    }

    open spec fn wire(&self) -> Seq<u8> {
        self.0.wire() + self.1.wire()
    }

    open spec fn decoded(s: Seq<u8>) -> Decoded<Self> {
        and_next(
            s,
            A::decoded(s),
            |a: A, t: Seq<u8>| and_next(t, B::decoded(t), |b: B, u: Seq<u8>| done((a, b))),
        )
    }

    open spec fn representable(&self) -> bool {
        self.0.representable() && self.1.representable()
    }

    fn encode_element(&self, buf: &mut Vec<u8>) {
        proof {
            self.0.law_wire_len();
        }
        self.0.encode_element(buf);
        self.1.encode_element(buf);
        assert(buf@ =~= old(buf)@ + self.wire());
    }

    fn decode_element(buf: &mut &[u8]) -> (r: Result<Self>) {
        proof {
            A::law_decoded(buf@);
            B::law_decoded(buf@.skip(A::decoded(buf@).used as int));
        }
        let a = A::decode_element(buf)?;
        let b = B::decode_element(buf)?;
        Ok((a, b))
    }

    proof fn law_wire_len(&self) {
        self.0.law_wire_len();
        self.1.law_wire_len();
    }

    proof fn law_decoded(s: Seq<u8>) {
        A::law_decoded(s);
        B::law_decoded(s.skip(A::decoded(s).used as int));
    }

    proof fn law_round_trip(&self, rest: Seq<u8>) {
        self.0.law_wire_len();
        self.0.law_round_trip(self.1.wire() + rest);
        self.1.law_round_trip(rest);
        let all = self.wire() + rest;
        assert(all =~= self.0.wire() + (self.1.wire() + rest));
        assert(all.skip(A::wire_len() as int) =~= self.1.wire() + rest);
    }
}

/// Three elements one after the other.
impl<A: Element, B: Element, C: Element> Element for (A, B, C) {
    open spec fn wire_len() -> nat {
        A::wire_len() + B::wire_len() + C::wire_len()
    }

    open spec fn wire(&self) -> Seq<u8> {
        self.0.wire() + self.1.wire() + self.2.wire()
    }

    open spec fn decoded(s: Seq<u8>) -> Decoded<Self> {
        and_next(
            s,
            <(A, B)>::decoded(s),
            |ab: (A, B), t: Seq<u8>|
                and_next(t, C::decoded(t), |c: C, u: Seq<u8>| done((ab.0, ab.1, c))),
        )
    }

    open spec fn representable(&self) -> bool {
        self.0.representable() && self.1.representable() && self.2.representable()
    }

    fn encode_element(&self, buf: &mut Vec<u8>) {
        proof {
            self.0.law_wire_len();
            self.1.law_wire_len();
        }
        self.0.encode_element(buf);
        self.1.encode_element(buf);
        self.2.encode_element(buf);
        assert(buf@ =~= old(buf)@ + self.wire());
    }

    fn decode_element(buf: &mut &[u8]) -> (r: Result<Self>) {
        proof {
            <(A, B)>::law_decoded(buf@);
            C::law_decoded(buf@.skip(<(A, B)>::decoded(buf@).used as int));
        }
        let ab = <(A, B)>::decode_element(buf)?;
        let c = C::decode_element(buf)?;
        Ok((ab.0, ab.1, c))
    }

    proof fn law_wire_len(&self) {
        self.0.law_wire_len();
        self.1.law_wire_len();
        self.2.law_wire_len();
    }

    proof fn law_decoded(s: Seq<u8>) {
        <(A, B)>::law_decoded(s);
        C::law_decoded(s.skip(<(A, B)>::decoded(s).used as int));
    }

    proof fn law_round_trip(&self, rest: Seq<u8>) {
        let ab = (self.0, self.1);
        ab.law_wire_len();
        ab.law_round_trip(self.2.wire() + rest);
        self.2.law_round_trip(rest);
        let all = self.wire() + rest;
        assert(all =~= ab.wire() + (self.2.wire() + rest));
        assert(all.skip(<(A, B)>::wire_len() as int) =~= self.2.wire() + rest);
    }
}

} // verus!
