//! Typed ASDU payloads.

use iec60870::asdu::cot::{Cause, Cot};
use iec60870::asdu::envelope::Asdu;
use iec60870::asdu::header::{AsduAddressing, CommonAddress, Ioa, Vsq};
use iec60870::asdu::ie::{Cp56Time2a, DoublePoint, Quality, Siq, R32};
use iec60870::asdu::payload::AsduPayload;
use iec60870::asdu::types::{
    Coi, Dco, Qcc, Qoi, Qos, Sco, C_CS_NA_1, C_DC_NA_1, C_IC_NA_1, C_RD_NA_1, C_SC_NA_1, C_SE_NC_1,
    M_EI_NA_1, M_SP_NA_1,
};
use iec60870::asdu::types::file::{
    Afq, AfqAction, Checksum, DirectoryEntry, Frq, LengthOfFile, LengthOfSection, Lsq, NameOfFile,
    NameOfSection, Scq, ScqAction, Sof, Srq, F_AF_NA_1, F_DR_TA_1, F_FR_NA_1, F_LS_NA_1, F_SC_NA_1,
    F_SG_NA_1, F_SR_NA_1, MAX_SEGMENT_BYTES,
};
use iec60870::{Error, Result};

fn roundtrip_iec104<P>(payload: &P, vsq: Vsq)
where
    P: AsduPayload + Clone + PartialEq + std::fmt::Debug,
{
    let asdu = Asdu::from_payload(
        Cot::with(Cause(Cause::ACTIVATION)),
        CommonAddress(1),
        vsq,
        payload,
        AsduAddressing::iec104(),
    );
    let mut buf = Vec::<u8>::new();
    asdu.encode(&mut buf, AsduAddressing::iec104());
    let mut slice: &[u8] = &buf;
    let parsed = Asdu::decode(&mut slice, AsduAddressing::iec104()).unwrap();
    let decoded: P = parsed.decode_payload(AsduAddressing::iec104()).unwrap();
    assert_eq!(&decoded, payload);
}

#[test]
fn sco_byte_layout() {
    let mut buf = Vec::<u8>::new();
    // SELECT=1, QU=4, ON=1 → 0x80 | (4<<2) | 0x01 = 0x91
    Sco {
        on: true,
        qualifier: 4,
        select: true,
    }
    .encode(&mut buf);
    assert_eq!(&buf[..], &[0x91]);
}

#[test]
fn dco_byte_layout() {
    let mut buf = Vec::<u8>::new();
    // EXECUTE, QU=0, state=On (0b10) → 0x02
    Dco {
        state: DoublePoint::On,
        qualifier: 0,
        select: false,
    }
    .encode(&mut buf);
    assert_eq!(&buf[..], &[0x02]);
}

#[test]
fn qoi_constants() {
    assert_eq!(Qoi::GENERAL, 20);
    assert_eq!(Qoi::group(1).0, 21);
    assert_eq!(Qoi::group(16).0, 36);
}

#[test]
fn c_sc_na_1_roundtrip() {
    let payload = C_SC_NA_1 {
        objects: vec![(
            Ioa(100),
            Sco {
                on: true,
                qualifier: 0,
                select: false,
            },
        )],
    };
    roundtrip_iec104(&payload, Vsq::single(1));
}

#[test]
fn c_dc_na_1_select_then_execute() {
    let select = C_DC_NA_1 {
        objects: vec![(
            Ioa(200),
            Dco {
                state: DoublePoint::On,
                qualifier: 0,
                select: true,
            },
        )],
    };
    let execute = C_DC_NA_1 {
        objects: vec![(
            Ioa(200),
            Dco {
                state: DoublePoint::On,
                qualifier: 0,
                select: false,
            },
        )],
    };
    roundtrip_iec104(&select, Vsq::single(1));
    roundtrip_iec104(&execute, Vsq::single(1));
}

#[test]
fn c_se_nc_1_setpoint_float() {
    let payload = C_SE_NC_1 {
        objects: vec![(
            Ioa(500),
            (
                R32(42.0_f32.to_bits()),
                Qos {
                    qualifier: 0,
                    select: false,
                },
            ),
        )],
    };
    roundtrip_iec104(&payload, Vsq::single(1));
}

#[test]
fn c_ic_na_1_general_interrogation_byte_layout() {
    let payload = C_IC_NA_1 {
        objects: vec![(Ioa(0), Qoi(Qoi::GENERAL))],
    };
    let asdu = Asdu::from_payload(
        Cot::with(Cause(Cause::ACTIVATION)),
        CommonAddress(1),
        Vsq::single(1),
        &payload,
        AsduAddressing::iec104(),
    );
    let mut buf = Vec::<u8>::new();
    asdu.encode(&mut buf, AsduAddressing::iec104());
    // TID=100=0x64 VSQ=01 COT=06,00 CA=01,00 IOA=0,0,0 QOI=20=0x14
    assert_eq!(
        &buf[..],
        &[0x64, 0x01, 0x06, 0x00, 0x01, 0x00, 0x00, 0x00, 0x00, 0x14]
    );
}

fn obj(ioa: u32, on: bool) -> (Ioa, Siq) {
    (
        Ioa(ioa),
        Siq {
            on,
            quality: Quality::default(),
        },
    )
}

#[test]
fn type_id_is_one() {
    assert_eq!(M_SP_NA_1::TYPE_ID, 1);
}

#[test]
fn single_mode_three_points_104_addressing() {
    let payload = M_SP_NA_1 {
        objects: vec![obj(100, true), obj(101, false), obj(200, true)],
    };
    let asdu = Asdu::from_payload(
        Cot::with(Cause(Cause::SPONTANEOUS)),
        CommonAddress(7),
        Vsq::single(3),
        &payload,
        AsduAddressing::iec104(),
    );
    let mut buf = Vec::<u8>::new();
    asdu.encode(&mut buf, AsduAddressing::iec104());
    // header: 01 03 03 00 07 00
    // ioa 100=0x64,00,00 / siq=01 / ioa 101=0x65,00,00 / siq=00 / ioa 200=0xC8,00,00 / siq=01
    assert_eq!(
        &buf[..],
        &[
            0x01, 0x03, 0x03, 0x00, 0x07, 0x00, 0x64, 0x00, 0x00, 0x01, 0x65, 0x00, 0x00, 0x00,
            0xC8, 0x00, 0x00, 0x01,
        ]
    );
    // Roundtrip
    let mut slice: &[u8] = &buf;
    let parsed = Asdu::decode(&mut slice, AsduAddressing::iec104()).unwrap();
    let decoded: M_SP_NA_1 = parsed.decode_payload(AsduAddressing::iec104()).unwrap();
    assert_eq!(decoded, payload);
}

#[test]
fn sequence_mode_shares_ioa() {
    let payload = M_SP_NA_1 {
        objects: vec![obj(50, true), obj(51, false), obj(52, true)],
    };
    let asdu = Asdu::from_payload(
        Cot::with(Cause(Cause::PERIODIC)),
        CommonAddress(1),
        Vsq::sequence(3),
        &payload,
        AsduAddressing::iec104(),
    );
    let mut buf = Vec::<u8>::new();
    asdu.encode(&mut buf, AsduAddressing::iec104());
    // SQ=1 means: emit IOA once (3 bytes) then 3 SIQs.
    // header: 01 83 01 00 01 00 | IOA=50 (32 00 00) | 01 00 01
    assert_eq!(
        &buf[..],
        &[0x01, 0x83, 0x01, 0x00, 0x01, 0x00, 0x32, 0x00, 0x00, 0x01, 0x00, 0x01]
    );
    let mut slice: &[u8] = &buf;
    let parsed = Asdu::decode(&mut slice, AsduAddressing::iec104()).unwrap();
    let decoded: M_SP_NA_1 = parsed.decode_payload(AsduAddressing::iec104()).unwrap();
    assert_eq!(decoded, payload);
}

#[test]
fn wrong_type_id_is_rejected() {
    let asdu = Asdu::new(99, Vsq::single(0), Cot::default(), CommonAddress(0), Vec::new());
    let r: Result<M_SP_NA_1> = asdu.decode_payload(AsduAddressing::iec104());
    assert!(matches!(r, Err(Error::UnknownAsduType(99))));
}

#[test]
fn coi_byte_layout() {
    let mut buf = Vec::<u8>::new();
    Coi {
        cause: 2,
        after_param_change: true,
    }
    .encode(&mut buf);
    // BS1=1 → 0x80 | cause(2) = 0x82
    assert_eq!(&buf[..], &[0x82]);
}

#[test]
fn qcc_packs_group_and_freeze() {
    let mut buf = Vec::<u8>::new();
    Qcc {
        group: 5,
        freeze: 2,
    }
    .encode(&mut buf);
    // (2<<6) | 5 = 0x85
    assert_eq!(&buf[..], &[0x85]);
}

#[test]
fn m_ei_na_1_roundtrip() {
    let payload = M_EI_NA_1 {
        ioa: Ioa(0),
        coi: Coi {
            cause: 0,
            after_param_change: false,
        },
    };
    let asdu = Asdu::from_payload(
        Cot::with(Cause(Cause::INITIALIZED)),
        CommonAddress(1),
        Vsq::single(1),
        &payload,
        AsduAddressing::iec104(),
    );
    let mut buf = Vec::<u8>::new();
    asdu.encode(&mut buf, AsduAddressing::iec104());
    // TID=70=0x46 VSQ=01 COT=04,00 CA=01,00 IOA=0,0,0 COI=0
    assert_eq!(
        &buf[..],
        &[0x46, 0x01, 0x04, 0x00, 0x01, 0x00, 0x00, 0x00, 0x00, 0x00]
    );
    let mut slice: &[u8] = &buf;
    let parsed = Asdu::decode(&mut slice, AsduAddressing::iec104()).unwrap();
    let decoded: M_EI_NA_1 = parsed.decode_payload(AsduAddressing::iec104()).unwrap();
    assert_eq!(decoded, payload);
}

#[test]
fn c_cs_na_1_roundtrip() {
    let payload = C_CS_NA_1 {
        ioa: Ioa(0),
        time: Cp56Time2a {
            milliseconds: 12345,
            minute: 30,
            hour: 12,
            day: 15,
            day_of_week: 2,
            month: 6,
            year: 24,
            ..Default::default()
        },
    };
    let asdu = Asdu::from_payload(
        Cot::with(Cause(Cause::ACTIVATION)),
        CommonAddress(1),
        Vsq::single(1),
        &payload,
        AsduAddressing::iec104(),
    );
    let mut buf = Vec::<u8>::new();
    asdu.encode(&mut buf, AsduAddressing::iec104());
    let mut slice: &[u8] = &buf;
    let parsed = Asdu::decode(&mut slice, AsduAddressing::iec104()).unwrap();
    let decoded: C_CS_NA_1 = parsed.decode_payload(AsduAddressing::iec104()).unwrap();
    assert_eq!(decoded, payload);
}

#[test]
fn c_rd_na_1_roundtrip() {
    let payload = C_RD_NA_1 { ioa: Ioa(0x123456) };
    let asdu = Asdu::from_payload(
        Cot::with(Cause(Cause::REQUEST)),
        CommonAddress(1),
        Vsq::single(1),
        &payload,
        AsduAddressing::iec104(),
    );
    let mut buf = Vec::<u8>::new();
    asdu.encode(&mut buf, AsduAddressing::iec104());
    let mut slice: &[u8] = &buf;
    let parsed = Asdu::decode(&mut slice, AsduAddressing::iec104()).unwrap();
    let decoded: C_RD_NA_1 = parsed.decode_payload(AsduAddressing::iec104()).unwrap();
    assert_eq!(decoded, payload);
}

fn roundtrip_file_iec104<P: AsduPayload + PartialEq + core::fmt::Debug + Clone>(
    payload: P,
    vsq: Vsq,
    cause: Cause,
) {
    let asdu = Asdu::from_payload(
        Cot::with(cause),
        CommonAddress(1),
        vsq,
        &payload,
        AsduAddressing::iec104(),
    );
    let mut buf = Vec::<u8>::new();
    asdu.encode(&mut buf, AsduAddressing::iec104());
    let mut slice: &[u8] = &buf;
    let parsed = Asdu::decode(&mut slice, AsduAddressing::iec104()).unwrap();
    assert_eq!(parsed.type_id(), P::TYPE_ID);
    let decoded: P = parsed.decode_payload(AsduAddressing::iec104()).unwrap();
    assert_eq!(decoded, payload);
}

// ---- Atomic element byte-layout tests ----

#[test]
fn name_of_file_little_endian() {
    let mut buf = Vec::<u8>::new();
    NameOfFile(0xBEEF).encode(&mut buf);
    assert_eq!(&buf[..], &[0xEF, 0xBE]);
}

#[test]
fn length_of_file_3_octet_little_endian() {
    let mut buf = Vec::<u8>::new();
    LengthOfFile(0x12_3456).encode(&mut buf);
    assert_eq!(&buf[..], &[0x56, 0x34, 0x12]);
    let mut slice: &[u8] = &buf;
    assert_eq!(LengthOfFile::decode(&mut slice).unwrap().0, 0x12_3456);
}

#[test]
fn length_of_file_masks_upper_byte_on_encode() {
    let mut buf = Vec::<u8>::new();
    LengthOfFile(0xDEAD_BEEF).encode(&mut buf);
    // Only the low 24 bits should be emitted.
    assert_eq!(&buf[..], &[0xEF, 0xBE, 0xAD]);
}

#[test]
fn checksum_modulo_256() {
    // 0xFE + 0x03 = 0x0101 -> mod 256 = 0x01
    assert_eq!(Checksum::of(&[0xFE, 0x03]).0, 0x01);
    // Compare incremental vs bulk
    let mut c = Checksum::default();
    for b in [0x10u8, 0x20, 0x30, 0xFF, 0xFF] {
        c.update(b);
    }
    assert_eq!(c.0, Checksum::of(&[0x10, 0x20, 0x30, 0xFF, 0xFF]).0);
}

#[test]
fn frq_bit7_is_negative_flag() {
    let mut buf = Vec::<u8>::new();
    Frq {
        code: 0x12,
        negative: true,
    }
    .encode(&mut buf);
    assert_eq!(&buf[..], &[0x92]);
    let mut slice: &[u8] = &buf;
    let decoded = Frq::decode(&mut slice).unwrap();
    assert_eq!(decoded.code, 0x12);
    assert!(decoded.negative);
}

#[test]
fn scq_low_nibble_action_high_nibble_status() {
    let mut buf = Vec::<u8>::new();
    Scq::new(ScqAction::RequestFile, 3).encode(&mut buf);
    // action=2, status=3 → 0x32
    assert_eq!(&buf[..], &[0x32]);
    let mut slice: &[u8] = &buf;
    let decoded = Scq::decode(&mut slice).unwrap();
    assert!(matches!(decoded.action, ScqAction::RequestFile));
    assert_eq!(decoded.status, 3);
}

#[test]
fn sof_status_bits_pack_correctly() {
    let mut buf = Vec::<u8>::new();
    Sof {
        status: 0x0A,
        last_file: true,
        sub_directory: false,
        active: true,
    }
    .encode(&mut buf);
    // 0x80 (FA) | 0x20 (LFD) | 0x0A (status) = 0xAA
    assert_eq!(&buf[..], &[0xAA]);
}

#[test]
fn lsq_known_codes_roundtrip() {
    for v in [
        Lsq::Default,
        Lsq::SectionWithoutDeactivate,
        Lsq::SectionWithDeactivate,
        Lsq::FileWithoutDeactivate,
        Lsq::FileWithDeactivate,
        Lsq::Other(0x55),
    ] {
        let mut buf = Vec::<u8>::new();
        v.encode(&mut buf);
        let mut slice: &[u8] = &buf;
        let decoded = Lsq::decode(&mut slice).unwrap();
        assert_eq!(v, decoded, "for {v:?}");
    }
}

// ---- ASDU round-trips ----

#[test]
fn f_fr_na_1_roundtrip() {
    roundtrip_file_iec104(
        F_FR_NA_1 {
            ioa: Ioa(0),
            nof: NameOfFile(0x1234),
            lof: LengthOfFile(0x00_4242),
            frq: Frq {
                code: 0,
                negative: false,
            },
        },
        Vsq::single(1),
        Cause(Cause::FILE_TRANSFER),
    );
}

#[test]
fn f_sr_na_1_roundtrip() {
    roundtrip_file_iec104(
        F_SR_NA_1 {
            ioa: Ioa(0),
            nof: NameOfFile(0x1234),
            nos: NameOfSection(7),
            los: LengthOfSection(2048),
            srq: Srq::ready(),
        },
        Vsq::single(1),
        Cause(Cause::FILE_TRANSFER),
    );
}

#[test]
fn f_sc_na_1_roundtrip() {
    roundtrip_file_iec104(
        F_SC_NA_1 {
            ioa: Ioa(0),
            nof: NameOfFile(0x1234),
            nos: NameOfSection(0),
            scq: Scq::new(ScqAction::SelectFile, 0),
        },
        Vsq::single(1),
        Cause(Cause::FILE_TRANSFER),
    );
}

#[test]
fn f_ls_na_1_roundtrip() {
    roundtrip_file_iec104(
        F_LS_NA_1 {
            ioa: Ioa(0),
            nof: NameOfFile(0x1234),
            nos: NameOfSection(1),
            lsq: Lsq::FileWithoutDeactivate,
            chs: Checksum(0xA5),
        },
        Vsq::single(1),
        Cause(Cause::FILE_TRANSFER),
    );
}

#[test]
fn f_af_na_1_roundtrip() {
    roundtrip_file_iec104(
        F_AF_NA_1 {
            ioa: Ioa(0),
            nof: NameOfFile(0x1234),
            nos: NameOfSection(1),
            afq: Afq::new(AfqAction::PositiveSection, 0),
        },
        Vsq::single(1),
        Cause(Cause::FILE_TRANSFER),
    );
}

#[test]
fn f_sg_na_1_roundtrip_short_payload() {
    roundtrip_file_iec104(
        F_SG_NA_1 {
            ioa: Ioa(0),
            nof: NameOfFile(0x1234),
            nos: NameOfSection(1),
            segment: vec![0xDE, 0xAD, 0xBE, 0xEF],
        },
        Vsq::single(1),
        Cause(Cause::FILE_TRANSFER),
    );
}

#[test]
fn f_sg_na_1_truncates_oversized_segment_on_encode() {
    let payload = F_SG_NA_1 {
        ioa: Ioa(0),
        nof: NameOfFile(0),
        nos: NameOfSection(0),
        segment: vec![0x42; 300], // > MAX_SEGMENT_BYTES (255)
    };
    let asdu = Asdu::from_payload(
        Cot::with(Cause(Cause::FILE_TRANSFER)),
        CommonAddress(1),
        Vsq::single(1),
        &payload,
        AsduAddressing::iec104(),
    );
    let mut buf = Vec::<u8>::new();
    asdu.encode(&mut buf, AsduAddressing::iec104());
    let mut slice: &[u8] = &buf;
    let parsed = Asdu::decode(&mut slice, AsduAddressing::iec104()).unwrap();
    let decoded: F_SG_NA_1 = parsed.decode_payload(AsduAddressing::iec104()).unwrap();
    assert_eq!(decoded.segment.len(), MAX_SEGMENT_BYTES);
}

#[test]
fn f_dr_ta_1_roundtrip_multi_entry() {
    let entry_a = DirectoryEntry {
        nof: NameOfFile(1),
        lof: LengthOfFile(100),
        sof: Sof {
            status: 1,
            ..Default::default()
        },
        time: Cp56Time2a::default(),
    };
    let entry_b = DirectoryEntry {
        nof: NameOfFile(2),
        lof: LengthOfFile(2_000_000),
        sof: Sof {
            last_file: true,
            ..Default::default()
        },
        time: Cp56Time2a::default(),
    };
    roundtrip_file_iec104(
        F_DR_TA_1 {
            entries: vec![(Ioa(0), entry_a), (Ioa(1), entry_b)],
        },
        Vsq::single(2),
        Cause(Cause::SPONTANEOUS),
    );
}
