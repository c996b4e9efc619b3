//! The octets of the IEC 60870-5-104 frames.

use vstd::prelude::*;
use crate::error::Error;
use crate::frame104::apdu::{ApduModel, UFunction, MAX_APDU_LEN, MAX_ASDU_LEN};
use crate::frame104::codec::{frame_of, read_before_fault};

verus! {

/// The six U-frames, octet by octet.
pub proof fn law_u_frame_octets()
    ensures
        (ApduModel::U { function: UFunction::StartDtAct }).wire() == seq![0x68u8, 4, 0x07, 0, 0, 0],
        (ApduModel::U { function: UFunction::StartDtCon }).wire() == seq![0x68u8, 4, 0x0B, 0, 0, 0],
        (ApduModel::U { function: UFunction::StopDtAct }).wire() == seq![0x68u8, 4, 0x13, 0, 0, 0],
        (ApduModel::U { function: UFunction::StopDtCon }).wire() == seq![0x68u8, 4, 0x23, 0, 0, 0],
        (ApduModel::U { function: UFunction::TestFrAct }).wire() == seq![0x68u8, 4, 0x43, 0, 0, 0],
        (ApduModel::U { function: UFunction::TestFrCon }).wire() == seq![0x68u8, 4, 0x83, 0, 0, 0],
{
}

/// S- and I-frames: start 0x68, the number of octets that follow, N(S) and N(R)
/// doubled, low octet first, in the four control octets, then the ASDU. An
/// S-frame has 0x01 and 0x00 in place of N(S).
pub proof fn law_numbered_frame_octets(send: int, recv: int, asdu: Seq<u8>)
    requires
        0 <= send < 32768,
        0 <= recv < 32768,
        asdu.len() <= 249,
    ensures
        ({
            let s = (ApduModel::S { recv }).wire();
            let i = (ApduModel::I { send, recv, asdu }).wire();
            &&& s.len() == 6
            &&& s[0] == 0x68 && s[1] == 4 && s[2] == 1 && s[3] == 0
            &&& s[4] + 256 * s[5] == 2 * recv
            &&& i.len() == 6 + asdu.len()
            &&& i[0] == 0x68 && i[1] == 4 + asdu.len()
            &&& i[2] + 256 * i[3] == 2 * send
            &&& i[4] + 256 * i[5] == 2 * recv
            &&& i.skip(6) == asdu
        }),
        (ApduModel::I { send, recv, asdu }).encodable(),
        (ApduModel::S { recv }).encodable(),
        MAX_ASDU_LEN == 249 && MAX_APDU_LEN == 255,
{
    assert((ApduModel::I { send, recv, asdu }).wire().skip(6) =~= asdu);
}

/// An ASDU of more than 249 octets fits no frame.
pub proof fn law_too_long(send: int, recv: int, asdu: Seq<u8>)
    requires
        asdu.len() > 249,
    ensures
        !(ApduModel::I { send, recv, asdu }).encodable(),
{
}

/// How octets are read, by the first of them: nothing is decided on fewer than
/// two; another start than 0x68 and a length below 4 are refused at once; then
/// the whole frame must be there.
pub proof fn law_frame_read(s: Seq<u8>)
    ensures
        s.len() < 2 ==> frame_of(s) == Ok::<Option<(ApduModel, int)>, Error>(None),
        s.len() >= 2 && s[0] != 0x68 ==> frame_of(s) == Err::<Option<(ApduModel, int)>, Error>(
            Error::InvalidStartByte { expected: 0x68, got: s[0] },
        ),
        s.len() >= 2 && s[0] == 0x68 && s[1] < 4 ==> frame_of(s) == Err::<
            Option<(ApduModel, int)>,
            Error,
        >(Error::LengthMismatch { declared: s[1] as usize, actual: 4 }),
        s.len() >= 2 && s[0] == 0x68 && s[1] >= 4 && s.len() < 2 + s[1] ==> frame_of(s) == Ok::<
            Option<(ApduModel, int)>,
            Error,
        >(None),
{
}

/// How a whole frame is read, by the low bits of its first control octet: even
/// is an I-frame, 01 an S-frame, 11 a U-frame. S- and U-frames have no ASDU, and
/// only six U-frames are known.
pub proof fn law_whole_frame_read(s: Seq<u8>)
    requires
        s.len() >= 6,
        s[0] == 0x68,
        4 <= s[1] <= s.len() - 2,
    ensures
        ({
            let recv = (s[4] + 256 * s[5]) / 2;
            let n = 2 + s[1];
            &&& s[2] % 2 == 0 ==> frame_of(s) == Ok::<Option<(ApduModel, int)>, Error>(
                Some(
                    (
                        ApduModel::I {
                            send: (s[2] + 256 * s[3]) / 2,
                            recv,
                            asdu: s.subrange(6, n),
                        },
                        n,
                    ),
                ),
            )
            &&& s[2] % 2 == 1 && s[1] != 4 ==> frame_of(s) == Err::<Option<(ApduModel, int)>, Error>(
                Error::LengthMismatch { declared: s[1] as usize, actual: 4 },
            )
            &&& s[2] % 4 == 1 && s[1] == 4 ==> frame_of(s) == Ok::<Option<(ApduModel, int)>, Error>(
                Some((ApduModel::S { recv }, 6)),
            )
            &&& s[2] % 4 == 3 && s[1] == 4 && s[2] != 0x07 && s[2] != 0x0B && s[2] != 0x13 && s[2]
                != 0x23 && s[2] != 0x43 && s[2] != 0x83 ==> frame_of(s) == Err::<
                Option<(ApduModel, int)>,
                Error,
            >(Error::UnsupportedFormat)
        }),
        s[1] == 4 && s[2] == 0x07 ==> reads(s, UFunction::StartDtAct),
        s[1] == 4 && s[2] == 0x0B ==> reads(s, UFunction::StartDtCon),
        s[1] == 4 && s[2] == 0x13 ==> reads(s, UFunction::StopDtAct),
        s[1] == 4 && s[2] == 0x23 ==> reads(s, UFunction::StopDtCon),
        s[1] == 4 && s[2] == 0x43 ==> reads(s, UFunction::TestFrAct),
        s[1] == 4 && s[2] == 0x83 ==> reads(s, UFunction::TestFrCon),
{
    let b = s.skip(2);
    assert(b.subrange(4, s[1] as int) =~= s.subrange(6, 2 + s[1]));
    assert(b.skip(2)[0] == s[4] && b.skip(2)[1] == s[5]);
    if s[1] == 4 && s[2] % 4 == 3 {
        assert(UFunction::StartDtAct.octet() == 0x07);
        assert(UFunction::StartDtCon.octet() == 0x0B);
        assert(UFunction::StopDtAct.octet() == 0x13);
        assert(UFunction::StopDtCon.octet() == 0x23);
        assert(UFunction::TestFrAct.octet() == 0x43);
        assert(UFunction::TestFrCon.octet() == 0x83);
    }
}

/// The octets are read as that U-frame.
pub open spec fn reads(s: Seq<u8>, function: UFunction) -> bool {
    frame_of(s) == Ok::<Option<(ApduModel, int)>, Error>(Some((ApduModel::U { function }, 6)))
}

/// Of a malformed frame the two octets of its header have been read when the
/// start or the length is wrong, and the four control octets too otherwise.
pub proof fn law_read_before_fault(s: Seq<u8>)
    requires
        s.len() >= 2,
    ensures
        s[0] != 0x68 || s[1] < 4 ==> read_before_fault(s) == 2,
        s[0] == 0x68 && s[1] >= 4 ==> read_before_fault(s) == 6,
{
}

} // verus!
