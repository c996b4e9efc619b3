//! The octets of the FT 1.2 frames.

use vstd::prelude::*;
use crate::bits::octet_sum;
use crate::error::Error;
use crate::frame101::codec::{checksum, frame_of};
use crate::frame101::frame::{FrameModel, LinkAddress, LinkAddressSize, SingleChar};

verus! {

/// The checksum is the sum of all octets modulo 256.
pub proof fn law_checksum_is_sum(front: Seq<u8>, b: u8)
    ensures
        checksum(Seq::empty()) == 0,
        checksum(front.push(b)) == (checksum(front) + b) % 256,
{
    reveal_with_fuel(octet_sum, 2);
    assert(front.push(b).drop_last() =~= front);
    lemma_sum_nonnegative(front);
}

proof fn lemma_sum_nonnegative(s: Seq<u8>)
    ensures
        octet_sum(s) >= 0,
    decreases s.len(),
{
    if s.len() > 0 {
        lemma_sum_nonnegative(s.drop_last());
    }
}

/// A link address goes low octet first in one or two octets.
pub proof fn law_link_address_octets(a: LinkAddress, s: Seq<u8>)
    requires
        s.len() >= 2,
    ensures
        a.wire(LinkAddressSize::One) == seq![(a.0 % 256) as u8],
        a.wire(LinkAddressSize::Two).len() == 2,
        a.wire(LinkAddressSize::Two)[0] + 256 * a.wire(LinkAddressSize::Two)[1] == a.0,
        LinkAddress::of(s, LinkAddressSize::One).0 == s[0],
        LinkAddress::of(s, LinkAddressSize::Two).0 == s[0] + 256 * s[1],
        a.fits(LinkAddressSize::One) <==> a.0 <= 255,
        a.fits(LinkAddressSize::Two),
        LinkAddressSize::One.octets() == 1 && LinkAddressSize::Two.octets() == 2,
{
}

/// The frames: a single octet is 0xE5 or 0xA2; a control frame is 0x10, control
/// octet, address, checksum, 0x16; a data frame is 0x68, twice the length,
/// 0x68, control octet, address, ASDU, checksum, 0x16. The checksum is over
/// what stands between, and the length counts it, modulo 256.
pub proof fn law_frame_octets(control: u8, address: LinkAddress, asdu: Seq<u8>, size: LinkAddressSize)
    ensures
        (FrameModel::Single(SingleChar::Ack)).wire(size) == seq![0xE5u8],
        (FrameModel::Single(SingleChar::Nack)).wire(size) == seq![0xA2u8],
        ({
            let w = (FrameModel::Fixed { control, address }).wire(size);
            let body = seq![control] + address.wire(size);
            w == seq![0x10u8] + body + seq![checksum(body), 0x16u8]
        }),
        ({
            let w = (FrameModel::Variable { control, address, asdu }).wire(size);
            let body = seq![control] + address.wire(size) + asdu;
            let length = (body.len() % 256) as u8;
            w == seq![0x68u8, length, length, 0x68u8] + body + seq![checksum(body), 0x16u8]
        }),
{
    let body = seq![control] + address.wire(size);
    assert(body + Seq::<u8>::empty() =~= body);
    assert(address.wire(size).len() == size.octets());
}

/// How octets are read, by the first of them: 0xE5 and 0xA2 are frames of their
/// own, 0x10 begins a control frame and 0x68 a data frame, and nothing else
/// begins a frame.
pub proof fn law_first_octet(s: Seq<u8>, size: LinkAddressSize)
    requires
        s.len() > 0,
    ensures
        s[0] == 0xE5 ==> frame_of(s, size) == Ok::<Option<(FrameModel, int)>, Error>(
            Some((FrameModel::Single(SingleChar::Ack), 1)),
        ),
        s[0] == 0xA2 ==> frame_of(s, size) == Ok::<Option<(FrameModel, int)>, Error>(
            Some((FrameModel::Single(SingleChar::Nack), 1)),
        ),
        s[0] != 0xE5 && s[0] != 0xA2 && s[0] != 0x10 && s[0] != 0x68 ==> frame_of(s, size) == Err::<
            Option<(FrameModel, int)>,
            Error,
        >(Error::InvalidStartByte { expected: 0x10, got: s[0] }),
{
}

/// How a control frame is read: its last octet must be 0x16 and the one before
/// the checksum of what stands between.
pub proof fn law_control_frame_read(s: Seq<u8>, size: LinkAddressSize, n: int)
    requires
        n == (if size is One {
            5
        } else {
            6int
        }),
        s.len() > 0,
        s[0] == 0x10,
    ensures
        s.len() < n ==> frame_of(s, size) == Ok::<Option<(FrameModel, int)>, Error>(None),
        s.len() >= n ==> {
            let sum = checksum(s.subrange(1, n - 2));
            &&& s[n - 1] != 0x16 ==> frame_of(s, size) == Err::<Option<(FrameModel, int)>, Error>(
                Error::InvalidEndByte { expected: 0x16, got: s[n - 1] },
            )
            &&& s[n - 1] == 0x16 && s[n - 2] != sum ==> frame_of(s, size) == Err::<
                Option<(FrameModel, int)>,
                Error,
            >(Error::ChecksumMismatch { expected: sum, got: s[n - 2] })
            &&& s[n - 1] == 0x16 && s[n - 2] == sum ==> frame_of(s, size) == Ok::<
                Option<(FrameModel, int)>,
                Error,
            >(
                Some(
                    (
                        FrameModel::Fixed {
                            control: s[1],
                            address: LinkAddress(
                                if size is One {
                                    s[2] as u16
                                } else {
                                    (s[2] + 256 * s[3]) as u16
                                },
                            ),
                        },
                        n,
                    ),
                ),
            )
        },
{
}

/// How a data frame is read: the two lengths must agree and leave room for
/// control octet and address, the whole frame must be there, and start, end and
/// checksum must be right.
pub proof fn law_data_frame_read(s: Seq<u8>, size: LinkAddressSize, a: int)
    requires
        a == (if size is One {
            1
        } else {
            2int
        }),
        s.len() > 0,
        s[0] == 0x68,
    ensures
        s.len() < 6 ==> frame_of(s, size) == Ok::<Option<(FrameModel, int)>, Error>(None),
        s.len() >= 6 && s[1] != s[2] ==> frame_of(s, size) == Err::<Option<(FrameModel, int)>, Error>(
            Error::LengthOctetsDiffer { first: s[1], second: s[2] },
        ),
        s.len() >= 6 && s[1] == s[2] && s[1] < 1 + a ==> frame_of(s, size) == Err::<
            Option<(FrameModel, int)>,
            Error,
        >(Error::LengthMismatch { declared: s[1] as usize, actual: (1 + a) as usize }),
        s.len() >= 6 && s[1] == s[2] && s[1] >= 1 + a && s.len() < 6 + s[1] ==> frame_of(s, size)
            == Ok::<Option<(FrameModel, int)>, Error>(None),
        s.len() >= 6 && s[1] == s[2] && s[1] >= 1 + a && s.len() >= 6 + s[1] ==> {
            let l = s[1] as int;
            let sum = checksum(s.subrange(4, 4 + l));
            &&& s[3] != 0x68 ==> frame_of(s, size) == Err::<Option<(FrameModel, int)>, Error>(
                Error::InvalidStartByte { expected: 0x68, got: s[3] },
            )
            &&& s[3] == 0x68 && s[5 + l] != 0x16 ==> frame_of(s, size) == Err::<
                Option<(FrameModel, int)>,
                Error,
            >(Error::InvalidEndByte { expected: 0x16, got: s[5 + l] })
            &&& s[3] == 0x68 && s[5 + l] == 0x16 && s[4 + l] != sum ==> frame_of(s, size) == Err::<
                Option<(FrameModel, int)>,
                Error,
            >(Error::ChecksumMismatch { expected: sum, got: s[4 + l] })
            &&& s[3] == 0x68 && s[5 + l] == 0x16 && s[4 + l] == sum ==> frame_of(s, size) == Ok::<
                Option<(FrameModel, int)>,
                Error,
            >(
                Some(
                    (
                        FrameModel::Variable {
                            control: s[4],
                            address: LinkAddress(
                                if size is One {
                                    s[5] as u16
                                } else {
                                    (s[5] + 256 * s[6]) as u16
                                },
                            ),
                            asdu: s.subrange(5 + a, 4 + l),
                        },
                        6 + l,
                    ),
                ),
            )
        },
{
}

} // verus!
