//! Monitor-direction ASDU types (those in the `M_*` family).
//!
//! Each type carries a list of information objects. When the ASDU's VSQ has
//! `SQ = 0`, every object includes its own IOA; when `SQ = 1`, only the first
//! object has an IOA and the rest are implicitly at consecutive addresses.

#![allow(non_camel_case_types)]

use vstd::prelude::*;
use crate::asdu::header::{AsduAddressing, Ioa, Vsq};
use crate::asdu::ie::{Cp56Time2a, Diq, Nva, Qds, Siq, Sva, R32};
use crate::asdu::io_list::{
    decode_io_list, encode_io_list, law_list_round_trip, list_decoded, list_fits, list_wire,
};
use crate::asdu::payload::AsduPayload;
use crate::buf::Decoded;
use crate::error::Result;

verus! {

/// `M_SP_NA_1` (TypeID 1) - single-point information without time tag.
#[derive(Debug, Default, Clone, PartialEq, Eq, Hash)]
pub struct M_SP_NA_1 {
    pub objects: Vec<(Ioa, Siq)>,
}

impl View for M_SP_NA_1 {
    type V = Seq<(Ioa, Siq)>;

    open spec fn view(&self) -> Seq<(Ioa, Siq)> {
        self.objects@
    }
}

impl AsduPayload for M_SP_NA_1 {
    const TYPE_ID: u8 = 1;

    open spec fn code() -> u8 {
        1
    }

    proof fn law_type_id() {
    }

    open spec fn section(
        content: Seq<(Ioa, Siq)>,
        vsq: Vsq,
        addressing: AsduAddressing,
    ) -> Seq<u8> {
        list_wire(content, vsq, addressing)
    }

    open spec fn section_decoded(
        s: Seq<u8>,
        vsq: Vsq,
        addressing: AsduAddressing,
    ) -> Decoded<Seq<(Ioa, Siq)>> {
        list_decoded(s, vsq, addressing)
    }

    open spec fn section_fits(
        content: Seq<(Ioa, Siq)>,
        vsq: Vsq,
        addressing: AsduAddressing,
    ) -> bool {
        list_fits(content, vsq, addressing)
    }

    fn encode_information_objects(&self, buf: &mut Vec<u8>, vsq: Vsq, addressing: AsduAddressing) {
        encode_io_list(buf, &self.objects, vsq, addressing);
    }

    fn decode_information_objects(buf: &mut &[u8], vsq: Vsq, addressing: AsduAddressing) -> (r:
        Result<Self>) {
        let objects = decode_io_list(buf, vsq, addressing)?;
        Ok(M_SP_NA_1 { objects })
    }

    proof fn law_section_round_trip(
        content: Seq<(Ioa, Siq)>,
        vsq: Vsq,
        addressing: AsduAddressing,
        rest: Seq<u8>,
    ) {
        law_list_round_trip(content, vsq, addressing, rest);
    }
}

/// `M_DP_NA_1` (TypeID 3) - double-point information without time tag.
#[derive(Debug, Default, Clone, PartialEq, Eq, Hash)]
pub struct M_DP_NA_1 {
    pub objects: Vec<(Ioa, Diq)>,
}

impl View for M_DP_NA_1 {
    type V = Seq<(Ioa, Diq)>;

    open spec fn view(&self) -> Seq<(Ioa, Diq)> {
        self.objects@
    }
}

impl AsduPayload for M_DP_NA_1 {
    const TYPE_ID: u8 = 3;

    open spec fn code() -> u8 {
        3
    }

    proof fn law_type_id() {
    }

    open spec fn section(
        content: Seq<(Ioa, Diq)>,
        vsq: Vsq,
        addressing: AsduAddressing,
    ) -> Seq<u8> {
        list_wire(content, vsq, addressing)
    }

    open spec fn section_decoded(
        s: Seq<u8>,
        vsq: Vsq,
        addressing: AsduAddressing,
    ) -> Decoded<Seq<(Ioa, Diq)>> {
        list_decoded(s, vsq, addressing)
    }

    open spec fn section_fits(
        content: Seq<(Ioa, Diq)>,
        vsq: Vsq,
        addressing: AsduAddressing,
    ) -> bool {
        list_fits(content, vsq, addressing)
    }

    fn encode_information_objects(&self, buf: &mut Vec<u8>, vsq: Vsq, addressing: AsduAddressing) {
        encode_io_list(buf, &self.objects, vsq, addressing);
    }

    fn decode_information_objects(buf: &mut &[u8], vsq: Vsq, addressing: AsduAddressing) -> (r:
        Result<Self>) {
        let objects = decode_io_list(buf, vsq, addressing)?;
        Ok(M_DP_NA_1 { objects })
    }

    proof fn law_section_round_trip(
        content: Seq<(Ioa, Diq)>,
        vsq: Vsq,
        addressing: AsduAddressing,
        rest: Seq<u8>,
    ) {
        law_list_round_trip(content, vsq, addressing, rest);
    }
}

/// `M_ME_NA_1` (TypeID 9) - measured value, normalised.
#[derive(Debug, Default, Clone, PartialEq, Eq, Hash)]
pub struct M_ME_NA_1 {
    pub objects: Vec<(Ioa, (Nva, Qds))>,
}

impl View for M_ME_NA_1 {
    type V = Seq<(Ioa, (Nva, Qds))>;

    open spec fn view(&self) -> Seq<(Ioa, (Nva, Qds))> {
        self.objects@
    }
}

impl AsduPayload for M_ME_NA_1 {
    const TYPE_ID: u8 = 9;

    open spec fn code() -> u8 {
        9
    }

    proof fn law_type_id() {
    }

    open spec fn section(
        content: Seq<(Ioa, (Nva, Qds))>,
        vsq: Vsq,
        addressing: AsduAddressing,
    ) -> Seq<u8> {
        list_wire(content, vsq, addressing)
    }

    open spec fn section_decoded(
        s: Seq<u8>,
        vsq: Vsq,
        addressing: AsduAddressing,
    ) -> Decoded<Seq<(Ioa, (Nva, Qds))>> {
        list_decoded(s, vsq, addressing)
    }

    open spec fn section_fits(
        content: Seq<(Ioa, (Nva, Qds))>,
        vsq: Vsq,
        addressing: AsduAddressing,
    ) -> bool {
        list_fits(content, vsq, addressing)
    }

    fn encode_information_objects(&self, buf: &mut Vec<u8>, vsq: Vsq, addressing: AsduAddressing) {
        encode_io_list(buf, &self.objects, vsq, addressing);
    }

    fn decode_information_objects(buf: &mut &[u8], vsq: Vsq, addressing: AsduAddressing) -> (r:
        Result<Self>) {
        let objects = decode_io_list(buf, vsq, addressing)?;
        Ok(M_ME_NA_1 { objects })
    }

    proof fn law_section_round_trip(
        content: Seq<(Ioa, (Nva, Qds))>,
        vsq: Vsq,
        addressing: AsduAddressing,
        rest: Seq<u8>,
    ) {
        law_list_round_trip(content, vsq, addressing, rest);
    }
}

/// `M_ME_NB_1` (TypeID 11) - measured value, scaled.
#[derive(Debug, Default, Clone, PartialEq, Eq, Hash)]
pub struct M_ME_NB_1 {
    pub objects: Vec<(Ioa, (Sva, Qds))>,
}

impl View for M_ME_NB_1 {
    type V = Seq<(Ioa, (Sva, Qds))>;

    open spec fn view(&self) -> Seq<(Ioa, (Sva, Qds))> {
        self.objects@
    }
}

impl AsduPayload for M_ME_NB_1 {
    const TYPE_ID: u8 = 11;

    open spec fn code() -> u8 {
        11
    }

    proof fn law_type_id() {
    }

    open spec fn section(
        content: Seq<(Ioa, (Sva, Qds))>,
        vsq: Vsq,
        addressing: AsduAddressing,
    ) -> Seq<u8> {
        list_wire(content, vsq, addressing)
    }

    open spec fn section_decoded(
        s: Seq<u8>,
        vsq: Vsq,
        addressing: AsduAddressing,
    ) -> Decoded<Seq<(Ioa, (Sva, Qds))>> {
        list_decoded(s, vsq, addressing)
    }

    open spec fn section_fits(
        content: Seq<(Ioa, (Sva, Qds))>,
        vsq: Vsq,
        addressing: AsduAddressing,
    ) -> bool {
        list_fits(content, vsq, addressing)
    }

    fn encode_information_objects(&self, buf: &mut Vec<u8>, vsq: Vsq, addressing: AsduAddressing) {
        encode_io_list(buf, &self.objects, vsq, addressing);
    }

    fn decode_information_objects(buf: &mut &[u8], vsq: Vsq, addressing: AsduAddressing) -> (r:
        Result<Self>) {
        let objects = decode_io_list(buf, vsq, addressing)?;
        Ok(M_ME_NB_1 { objects })
    }

    proof fn law_section_round_trip(
        content: Seq<(Ioa, (Sva, Qds))>,
        vsq: Vsq,
        addressing: AsduAddressing,
        rest: Seq<u8>,
    ) {
        law_list_round_trip(content, vsq, addressing, rest);
    }
}

/// `M_ME_NC_1` (TypeID 13) - measured value, short floating point.
#[derive(Debug, Default, Clone, PartialEq, Eq, Hash)]
pub struct M_ME_NC_1 {
    pub objects: Vec<(Ioa, (R32, Qds))>,
}

impl View for M_ME_NC_1 {
    type V = Seq<(Ioa, (R32, Qds))>;

    open spec fn view(&self) -> Seq<(Ioa, (R32, Qds))> {
        self.objects@
    }
}

impl AsduPayload for M_ME_NC_1 {
    const TYPE_ID: u8 = 13;

    open spec fn code() -> u8 {
        13
    }

    proof fn law_type_id() {
    }

    open spec fn section(
        content: Seq<(Ioa, (R32, Qds))>,
        vsq: Vsq,
        addressing: AsduAddressing,
    ) -> Seq<u8> {
        list_wire(content, vsq, addressing)
    }

    open spec fn section_decoded(
        s: Seq<u8>,
        vsq: Vsq,
        addressing: AsduAddressing,
    ) -> Decoded<Seq<(Ioa, (R32, Qds))>> {
        list_decoded(s, vsq, addressing)
    }

    open spec fn section_fits(
        content: Seq<(Ioa, (R32, Qds))>,
        vsq: Vsq,
        addressing: AsduAddressing,
    ) -> bool {
        list_fits(content, vsq, addressing)
    }

    fn encode_information_objects(&self, buf: &mut Vec<u8>, vsq: Vsq, addressing: AsduAddressing) {
        encode_io_list(buf, &self.objects, vsq, addressing);
    }

    fn decode_information_objects(buf: &mut &[u8], vsq: Vsq, addressing: AsduAddressing) -> (r:
        Result<Self>) {
        let objects = decode_io_list(buf, vsq, addressing)?;
        Ok(M_ME_NC_1 { objects })
    }

    proof fn law_section_round_trip(
        content: Seq<(Ioa, (R32, Qds))>,
        vsq: Vsq,
        addressing: AsduAddressing,
        rest: Seq<u8>,
    ) {
        law_list_round_trip(content, vsq, addressing, rest);
    }
}

/// `M_SP_TB_1` (TypeID 30) - single-point information with CP56Time2a.
#[derive(Debug, Default, Clone, PartialEq, Eq, Hash)]
pub struct M_SP_TB_1 {
    pub objects: Vec<(Ioa, (Siq, Cp56Time2a))>,
}

impl View for M_SP_TB_1 {
    type V = Seq<(Ioa, (Siq, Cp56Time2a))>;

    open spec fn view(&self) -> Seq<(Ioa, (Siq, Cp56Time2a))> {
        self.objects@
    }
}

impl AsduPayload for M_SP_TB_1 {
    const TYPE_ID: u8 = 30;

    open spec fn code() -> u8 {
        30
    }

    proof fn law_type_id() {
    }

    open spec fn section(
        content: Seq<(Ioa, (Siq, Cp56Time2a))>,
        vsq: Vsq,
        addressing: AsduAddressing,
    ) -> Seq<u8> {
        list_wire(content, vsq, addressing)
    }

    open spec fn section_decoded(
        s: Seq<u8>,
        vsq: Vsq,
        addressing: AsduAddressing,
    ) -> Decoded<Seq<(Ioa, (Siq, Cp56Time2a))>> {
        list_decoded(s, vsq, addressing)
    }

    open spec fn section_fits(
        content: Seq<(Ioa, (Siq, Cp56Time2a))>,
        vsq: Vsq,
        addressing: AsduAddressing,
    ) -> bool {
        list_fits(content, vsq, addressing)
    }

    fn encode_information_objects(&self, buf: &mut Vec<u8>, vsq: Vsq, addressing: AsduAddressing) {
        encode_io_list(buf, &self.objects, vsq, addressing);
    }

    fn decode_information_objects(buf: &mut &[u8], vsq: Vsq, addressing: AsduAddressing) -> (r:
        Result<Self>) {
        let objects = decode_io_list(buf, vsq, addressing)?;
        Ok(M_SP_TB_1 { objects })
    }

    proof fn law_section_round_trip(
        content: Seq<(Ioa, (Siq, Cp56Time2a))>,
        vsq: Vsq,
        addressing: AsduAddressing,
        rest: Seq<u8>,
    ) {
        law_list_round_trip(content, vsq, addressing, rest);
    }
}

/// `M_DP_TB_1` (TypeID 31) - double-point information with CP56Time2a.
#[derive(Debug, Default, Clone, PartialEq, Eq, Hash)]
pub struct M_DP_TB_1 {
    pub objects: Vec<(Ioa, (Diq, Cp56Time2a))>,
}

impl View for M_DP_TB_1 {
    type V = Seq<(Ioa, (Diq, Cp56Time2a))>;

    open spec fn view(&self) -> Seq<(Ioa, (Diq, Cp56Time2a))> {
        self.objects@
    }
}

impl AsduPayload for M_DP_TB_1 {
    const TYPE_ID: u8 = 31;

    open spec fn code() -> u8 {
        31
    }

    proof fn law_type_id() {
    }

    open spec fn section(
        content: Seq<(Ioa, (Diq, Cp56Time2a))>,
        vsq: Vsq,
        addressing: AsduAddressing,
    ) -> Seq<u8> {
        list_wire(content, vsq, addressing)
    }

    open spec fn section_decoded(
        s: Seq<u8>,
        vsq: Vsq,
        addressing: AsduAddressing,
    ) -> Decoded<Seq<(Ioa, (Diq, Cp56Time2a))>> {
        list_decoded(s, vsq, addressing)
    }

    open spec fn section_fits(
        content: Seq<(Ioa, (Diq, Cp56Time2a))>,
        vsq: Vsq,
        addressing: AsduAddressing,
    ) -> bool {
        list_fits(content, vsq, addressing)
    }

    fn encode_information_objects(&self, buf: &mut Vec<u8>, vsq: Vsq, addressing: AsduAddressing) {
        encode_io_list(buf, &self.objects, vsq, addressing);
    }

    fn decode_information_objects(buf: &mut &[u8], vsq: Vsq, addressing: AsduAddressing) -> (r:
        Result<Self>) {
        let objects = decode_io_list(buf, vsq, addressing)?;
        Ok(M_DP_TB_1 { objects })
    }

    proof fn law_section_round_trip(
        content: Seq<(Ioa, (Diq, Cp56Time2a))>,
        vsq: Vsq,
        addressing: AsduAddressing,
        rest: Seq<u8>,
    ) {
        law_list_round_trip(content, vsq, addressing, rest);
    }
}

/// `M_ME_TD_1` (TypeID 34) - measured value, normalised, with CP56Time2a.
#[derive(Debug, Default, Clone, PartialEq, Eq, Hash)]
pub struct M_ME_TD_1 {
    pub objects: Vec<(Ioa, (Nva, Qds, Cp56Time2a))>,
}

impl View for M_ME_TD_1 {
    type V = Seq<(Ioa, (Nva, Qds, Cp56Time2a))>;

    open spec fn view(&self) -> Seq<(Ioa, (Nva, Qds, Cp56Time2a))> {
        self.objects@
    }
}

impl AsduPayload for M_ME_TD_1 {
    const TYPE_ID: u8 = 34;

    open spec fn code() -> u8 {
        34
    }

    proof fn law_type_id() {
    }

    open spec fn section(
        content: Seq<(Ioa, (Nva, Qds, Cp56Time2a))>,
        vsq: Vsq,
        addressing: AsduAddressing,
    ) -> Seq<u8> {
        list_wire(content, vsq, addressing)
    }

    open spec fn section_decoded(
        s: Seq<u8>,
        vsq: Vsq,
        addressing: AsduAddressing,
    ) -> Decoded<Seq<(Ioa, (Nva, Qds, Cp56Time2a))>> {
        list_decoded(s, vsq, addressing)
    }

    open spec fn section_fits(
        content: Seq<(Ioa, (Nva, Qds, Cp56Time2a))>,
        vsq: Vsq,
        addressing: AsduAddressing,
    ) -> bool {
        list_fits(content, vsq, addressing)
    }

    fn encode_information_objects(&self, buf: &mut Vec<u8>, vsq: Vsq, addressing: AsduAddressing) {
        encode_io_list(buf, &self.objects, vsq, addressing);
    }

    fn decode_information_objects(buf: &mut &[u8], vsq: Vsq, addressing: AsduAddressing) -> (r:
        Result<Self>) {
        let objects = decode_io_list(buf, vsq, addressing)?;
        Ok(M_ME_TD_1 { objects })
    }

    proof fn law_section_round_trip(
        content: Seq<(Ioa, (Nva, Qds, Cp56Time2a))>,
        vsq: Vsq,
        addressing: AsduAddressing,
        rest: Seq<u8>,
    ) {
        law_list_round_trip(content, vsq, addressing, rest);
    }
}

/// `M_ME_TE_1` (TypeID 35) - measured value, scaled, with CP56Time2a.
#[derive(Debug, Default, Clone, PartialEq, Eq, Hash)]
pub struct M_ME_TE_1 {
    pub objects: Vec<(Ioa, (Sva, Qds, Cp56Time2a))>,
}

impl View for M_ME_TE_1 {
    type V = Seq<(Ioa, (Sva, Qds, Cp56Time2a))>;

    open spec fn view(&self) -> Seq<(Ioa, (Sva, Qds, Cp56Time2a))> {
        self.objects@
    }
}

impl AsduPayload for M_ME_TE_1 {
    const TYPE_ID: u8 = 35;

    open spec fn code() -> u8 {
        35
    }

    proof fn law_type_id() {
    }

    open spec fn section(
        content: Seq<(Ioa, (Sva, Qds, Cp56Time2a))>,
        vsq: Vsq,
        addressing: AsduAddressing,
    ) -> Seq<u8> {
        list_wire(content, vsq, addressing)
    }

    open spec fn section_decoded(
        s: Seq<u8>,
        vsq: Vsq,
        addressing: AsduAddressing,
    ) -> Decoded<Seq<(Ioa, (Sva, Qds, Cp56Time2a))>> {
        list_decoded(s, vsq, addressing)
    }

    open spec fn section_fits(
        content: Seq<(Ioa, (Sva, Qds, Cp56Time2a))>,
        vsq: Vsq,
        addressing: AsduAddressing,
    ) -> bool {
        list_fits(content, vsq, addressing)
    }

    fn encode_information_objects(&self, buf: &mut Vec<u8>, vsq: Vsq, addressing: AsduAddressing) {
        encode_io_list(buf, &self.objects, vsq, addressing);
    }

    fn decode_information_objects(buf: &mut &[u8], vsq: Vsq, addressing: AsduAddressing) -> (r:
        Result<Self>) {
        let objects = decode_io_list(buf, vsq, addressing)?;
        Ok(M_ME_TE_1 { objects })
    }

    proof fn law_section_round_trip(
        content: Seq<(Ioa, (Sva, Qds, Cp56Time2a))>,
        vsq: Vsq,
        addressing: AsduAddressing,
        rest: Seq<u8>,
    ) {
        law_list_round_trip(content, vsq, addressing, rest);
    }
}

/// `M_ME_TF_1` (TypeID 36) - measured value, short floating point, with CP56Time2a.
#[derive(Debug, Default, Clone, PartialEq, Eq, Hash)]
pub struct M_ME_TF_1 {
    pub objects: Vec<(Ioa, (R32, Qds, Cp56Time2a))>,
}

impl View for M_ME_TF_1 {
    type V = Seq<(Ioa, (R32, Qds, Cp56Time2a))>;

    open spec fn view(&self) -> Seq<(Ioa, (R32, Qds, Cp56Time2a))> {
        self.objects@
    }
}

impl AsduPayload for M_ME_TF_1 {
    const TYPE_ID: u8 = 36;

    open spec fn code() -> u8 {
        36
    }

    proof fn law_type_id() {
    }

    open spec fn section(
        content: Seq<(Ioa, (R32, Qds, Cp56Time2a))>,
        vsq: Vsq,
        addressing: AsduAddressing,
    ) -> Seq<u8> {
        list_wire(content, vsq, addressing)
    }

    open spec fn section_decoded(
        s: Seq<u8>,
        vsq: Vsq,
        addressing: AsduAddressing,
    ) -> Decoded<Seq<(Ioa, (R32, Qds, Cp56Time2a))>> {
        list_decoded(s, vsq, addressing)
    }

    open spec fn section_fits(
        content: Seq<(Ioa, (R32, Qds, Cp56Time2a))>,
        vsq: Vsq,
        addressing: AsduAddressing,
    ) -> bool {
        list_fits(content, vsq, addressing)
    }

    fn encode_information_objects(&self, buf: &mut Vec<u8>, vsq: Vsq, addressing: AsduAddressing) {
        encode_io_list(buf, &self.objects, vsq, addressing);
    }

    fn decode_information_objects(buf: &mut &[u8], vsq: Vsq, addressing: AsduAddressing) -> (r:
        Result<Self>) {
        let objects = decode_io_list(buf, vsq, addressing)?;
        Ok(M_ME_TF_1 { objects })
    }

    proof fn law_section_round_trip(
        content: Seq<(Ioa, (R32, Qds, Cp56Time2a))>,
        vsq: Vsq,
        addressing: AsduAddressing,
        rest: Seq<u8>,
    ) {
        law_list_round_trip(content, vsq, addressing, rest);
    }
}

} // verus!
