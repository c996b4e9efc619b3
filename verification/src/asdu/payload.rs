//! The [`AsduPayload`] trait: each typed ASDU payload (e.g. `M_SP_NA_1`)
//! associates its on-wire layout with a Type ID.
//!
//! Built-in payload types live under [`crate::asdu::types`]. To add a custom
//! ASDU type, define a struct that implements [`AsduPayload`] and pass it
//! to [`crate::asdu::Asdu::from_payload`].

use vstd::prelude::*;
use crate::asdu::header::{AsduAddressing, Vsq};
use crate::buf::{decodes_view, room, Decoded};
use crate::error::Result;

verus! {

/// Trait implemented by every typed ASDU payload.
///
/// Implementations are responsible for serialising and deserialising **only
/// the information-objects section** of an ASDU - the surrounding header
/// (Type ID, VSQ, COT, CA) is handled generically by [`crate::asdu::Asdu`].
/// The view of a payload is what it holds; the spec functions speak of that.
pub trait AsduPayload: Sized + View {
    /// The Type ID this payload corresponds to. Used for dispatch and
    /// compared by [`crate::asdu::Asdu::decode_payload`].
    const TYPE_ID: u8;

    /// The Type ID, as contracts speak of it.
    spec fn code() -> u8;

    /// [`Self::TYPE_ID`] is the Type ID that the contracts speak of.
    proof fn law_type_id()
        ensures
            Self::TYPE_ID == Self::code(),
    ;

    /// The octets of the information-objects section.
    spec fn section(content: Self::V, vsq: Vsq, addressing: AsduAddressing) -> Seq<u8>;

    /// What decoding an information-objects section from the front of `s`
    /// comes to.
    spec fn section_decoded(s: Seq<u8>, vsq: Vsq, addressing: AsduAddressing) -> Decoded<Self::V>;

    /// Whether the section can carry `content` unchanged.
    spec fn section_fits(content: Self::V, vsq: Vsq, addressing: AsduAddressing) -> bool;

    /// Encode the information-objects section. The caller has already
    /// written the Type ID, VSQ, COT and CA fields. `addressing` controls
    /// the IOA width.
    fn encode_information_objects(&self, buf: &mut Vec<u8>, vsq: Vsq, addressing: AsduAddressing)
        requires
            room(old(buf)@, Self::section(self@, vsq, addressing).len() as int),
        ensures
            final(buf)@ == old(buf)@ + Self::section(self@, vsq, addressing),
    ;

    /// Decode the information-objects section. `vsq` describes how many
    /// objects to consume and whether they share a single IOA.
    fn decode_information_objects(buf: &mut &[u8], vsq: Vsq, addressing: AsduAddressing) -> (r:
        Result<Self>)
        ensures
            decodes_view(
                old(buf)@,
                final(buf)@,
                r,
                Self::section_decoded(old(buf)@, vsq, addressing),
            ),
    ;

    /// A payload that fits is decoded again as it was encoded, whatever
    /// follows it, and exactly its own octets are consumed.
    proof fn law_section_round_trip(
        content: Self::V,
        vsq: Vsq,
        addressing: AsduAddressing,
        rest: Seq<u8>,
    )
        requires
            Self::section_fits(content, vsq, addressing),
        ensures
            Self::section_decoded(
                Self::section(content, vsq, addressing) + rest,
                vsq,
                addressing,
            ) == (Decoded {
                result: Ok(content),
                used: Self::section(content, vsq, addressing).len(),
            }),
    ;
}

} // verus!
