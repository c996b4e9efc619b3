//! What the monitored points of an ASDU are, seen from the master.

use vstd::prelude::*;
use crate::asdu::element::Element;
use crate::asdu::envelope::{Asdu, AsduModel};
use crate::asdu::header::{AsduAddressing, Ioa};
use crate::asdu::ie::{Cp56Time2a, Diq, DoublePoint, Nva, Qds, Siq, Sva, R32};
use crate::asdu::types::{
    M_DP_NA_1, M_DP_TB_1, M_ME_NA_1, M_ME_NB_1, M_ME_NC_1, M_ME_TD_1, M_ME_TE_1, M_ME_TF_1,
    M_SP_NA_1, M_SP_TB_1,
};
use crate::float_bits::step_bits;
use crate::points::{qds_to_wire, quality_to_wire, quality_wire};
use crate::wire::{DoublePointWire, PointKind, PointValue, QualityWire};

verus! {

/// One information object in monitor direction.
#[derive(Debug, Clone, Copy, PartialEq, Eq, Structural)]
pub struct Observation {
    pub kind: PointKind,
    pub ioa: u32,
    pub value: PointValue,
    pub quality: QualityWire,
    pub timestamp: Option<Cp56Time2a>,
}

/// The double-point state of the same name.
pub open spec fn dp_wire_of(dp: DoublePoint) -> DoublePointWire {
    match dp {
        DoublePoint::Intermediate => DoublePointWire::Intermediate,
        DoublePoint::Off => DoublePointWire::Off,
        DoublePoint::On => DoublePointWire::On,
        DoublePoint::Indeterminate => DoublePointWire::Indeterminate,
    }
}

fn dp_to_wire(dp: DoublePoint) -> (d: DoublePointWire)
    ensures
        d == dp_wire_of(dp),
{
    match dp {
        DoublePoint::Intermediate => DoublePointWire::Intermediate,
        DoublePoint::Off => DoublePointWire::Off,
        DoublePoint::On => DoublePointWire::On,
        DoublePoint::Indeterminate => DoublePointWire::Indeterminate,
    }
}

/// The element of a monitored point.
pub trait Monitored: Element {
    /// The observation that the element stands for.
    spec fn seen(e: Self, ioa: Ioa) -> Observation;

    fn see(e: &Self, ioa: Ioa) -> (o: Observation)
        ensures
            o == Self::seen(*e, ioa),
    ;
}

impl Monitored for Siq {
    open spec fn seen(e: Self, ioa: Ioa) -> Observation {
        Observation {
            kind: PointKind::SpNa,
            ioa: ioa.0,
            value: PointValue::Single(e.on),
            quality: quality_wire(false, e.quality),
            timestamp: None,
        }
    }

    fn see(e: &Self, ioa: Ioa) -> (o: Observation) {
        Observation {
            kind: PointKind::SpNa,
            ioa: ioa.0,
            value: PointValue::Single(e.on),
            quality: quality_to_wire(e.quality),
            timestamp: None,
        }
    }
}

impl Monitored for Diq {
    open spec fn seen(e: Self, ioa: Ioa) -> Observation {
        Observation {
            kind: PointKind::DpNa,
            ioa: ioa.0,
            value: PointValue::Double(dp_wire_of(e.state)),
            quality: quality_wire(false, e.quality),
            timestamp: None,
        }
    }

    fn see(e: &Self, ioa: Ioa) -> (o: Observation) {
        Observation {
            kind: PointKind::DpNa,
            ioa: ioa.0,
            value: PointValue::Double(dp_to_wire(e.state)),
            quality: quality_to_wire(e.quality),
            timestamp: None,
        }
    }
}

impl Monitored for (Nva, Qds) {
    open spec fn seen(e: Self, ioa: Ioa) -> Observation {
        Observation {
            kind: PointKind::MeNa,
            ioa: ioa.0,
            value: PointValue::Normalized(step_bits(e.0.0 as int)),
            quality: quality_wire(e.1.overflow, e.1.quality),
            timestamp: None,
        }
    }

    fn see(e: &Self, ioa: Ioa) -> (o: Observation) {
        Observation {
            kind: PointKind::MeNa,
            ioa: ioa.0,
            value: PointValue::Normalized(e.0.as_f32()),
            quality: qds_to_wire(e.1),
            timestamp: None,
        }
    }
}

impl Monitored for (Sva, Qds) {
    open spec fn seen(e: Self, ioa: Ioa) -> Observation {
        Observation {
            kind: PointKind::MeNb,
            ioa: ioa.0,
            value: PointValue::Scaled(e.0.0),
            quality: quality_wire(e.1.overflow, e.1.quality),
            timestamp: None,
        }
    }

    fn see(e: &Self, ioa: Ioa) -> (o: Observation) {
        Observation {
            kind: PointKind::MeNb,
            ioa: ioa.0,
            value: PointValue::Scaled(e.0.0),
            quality: qds_to_wire(e.1),
            timestamp: None,
        }
    }
}

impl Monitored for (R32, Qds) {
    open spec fn seen(e: Self, ioa: Ioa) -> Observation {
        Observation {
            kind: PointKind::MeNc,
            ioa: ioa.0,
            value: PointValue::Float(e.0.0),
            quality: quality_wire(e.1.overflow, e.1.quality),
            timestamp: None,
        }
    }

    fn see(e: &Self, ioa: Ioa) -> (o: Observation) {
        Observation {
            kind: PointKind::MeNc,
            ioa: ioa.0,
            value: PointValue::Float(e.0.0),
            quality: qds_to_wire(e.1),
            timestamp: None,
        }
    }
}

impl Monitored for (Siq, Cp56Time2a) {
    open spec fn seen(e: Self, ioa: Ioa) -> Observation {
        Observation {
            kind: PointKind::SpTb,
            ioa: ioa.0,
            value: PointValue::Single(e.0.on),
            quality: quality_wire(false, e.0.quality),
            timestamp: Some(e.1),
        }
    }

    fn see(e: &Self, ioa: Ioa) -> (o: Observation) {
        Observation {
            kind: PointKind::SpTb,
            ioa: ioa.0,
            value: PointValue::Single(e.0.on),
            quality: quality_to_wire(e.0.quality),
            timestamp: Some(e.1),
        }
    }
}

impl Monitored for (Diq, Cp56Time2a) {
    open spec fn seen(e: Self, ioa: Ioa) -> Observation {
        Observation {
            kind: PointKind::DpTb,
            ioa: ioa.0,
            value: PointValue::Double(dp_wire_of(e.0.state)),
            quality: quality_wire(false, e.0.quality),
            timestamp: Some(e.1),
        }
    }

    fn see(e: &Self, ioa: Ioa) -> (o: Observation) {
        Observation {
            kind: PointKind::DpTb,
            ioa: ioa.0,
            value: PointValue::Double(dp_to_wire(e.0.state)),
            quality: quality_to_wire(e.0.quality),
            timestamp: Some(e.1),
        }
    }
}

impl Monitored for (Nva, Qds, Cp56Time2a) {
    open spec fn seen(e: Self, ioa: Ioa) -> Observation {
        Observation {
            kind: PointKind::MeTd,
            ioa: ioa.0,
            value: PointValue::Normalized(step_bits(e.0.0 as int)),
            quality: quality_wire(e.1.overflow, e.1.quality),
            timestamp: Some(e.2),
        }
    }

    fn see(e: &Self, ioa: Ioa) -> (o: Observation) {
        Observation {
            kind: PointKind::MeTd,
            ioa: ioa.0,
            value: PointValue::Normalized(e.0.as_f32()),
            quality: qds_to_wire(e.1),
            timestamp: Some(e.2),
        }
    }
}

impl Monitored for (Sva, Qds, Cp56Time2a) {
    open spec fn seen(e: Self, ioa: Ioa) -> Observation {
        Observation {
            kind: PointKind::MeTe,
            ioa: ioa.0,
            value: PointValue::Scaled(e.0.0),
            quality: quality_wire(e.1.overflow, e.1.quality),
            timestamp: Some(e.2),
        }
    }

    fn see(e: &Self, ioa: Ioa) -> (o: Observation) {
        Observation {
            kind: PointKind::MeTe,
            ioa: ioa.0,
            value: PointValue::Scaled(e.0.0),
            quality: qds_to_wire(e.1),
            timestamp: Some(e.2),
        }
    }
}

impl Monitored for (R32, Qds, Cp56Time2a) {
    open spec fn seen(e: Self, ioa: Ioa) -> Observation {
        Observation {
            kind: PointKind::MeTf,
            ioa: ioa.0,
            value: PointValue::Float(e.0.0),
            quality: quality_wire(e.1.overflow, e.1.quality),
            timestamp: Some(e.2),
        }
    }

    fn see(e: &Self, ioa: Ioa) -> (o: Observation) {
        Observation {
            kind: PointKind::MeTf,
            ioa: ioa.0,
            value: PointValue::Float(e.0.0),
            quality: qds_to_wire(e.1),
            timestamp: Some(e.2),
        }
    }
}

/// The observations that a list of objects stands for.
pub open spec fn seen_list<E: Monitored>(objects: Seq<(Ioa, E)>) -> Seq<Observation> {
    Seq::new(objects.len(), |i: int| E::seen(objects[i].1, objects[i].0))
}

fn see_list<E: Monitored>(objects: &Vec<(Ioa, E)>) -> (out: Vec<Observation>)
    ensures
        out@ == seen_list(objects@),
{
    let n: usize = objects.len();
    let mut out: Vec<Observation> = Vec::new();
    let mut i: usize = 0;
    while i < n
        invariant
            i <= n,
            n == objects@.len(),
            out@ == seen_list(objects@).take(i as int),
        decreases n - i,
    {
        out.push(E::see(&objects[i].1, objects[i].0));
        assert(out@ =~= seen_list(objects@).take(i + 1));
        i += 1;
    }
    assert(seen_list(objects@).take(n as int) =~= seen_list(objects@));
    out
}

/// The observations that an ASDU carries: none unless it is of a monitored
/// type and its payload can be decoded.
pub open spec fn observed(asdu: AsduModel) -> Seq<Observation> {
    let addressing = AsduAddressing::iec104();
    if asdu.type_id == 1 {
        match asdu.typed::<M_SP_NA_1>(addressing) {
            Ok(objects) => seen_list(objects),
            Err(_) => Seq::empty(),
        }
    } else if asdu.type_id == 3 {
        match asdu.typed::<M_DP_NA_1>(addressing) {
            Ok(objects) => seen_list(objects),
            Err(_) => Seq::empty(),
        }
    } else if asdu.type_id == 9 {
        match asdu.typed::<M_ME_NA_1>(addressing) {
            Ok(objects) => seen_list(objects),
            Err(_) => Seq::empty(),
        }
    } else if asdu.type_id == 11 {
        match asdu.typed::<M_ME_NB_1>(addressing) {
            Ok(objects) => seen_list(objects),
            Err(_) => Seq::empty(),
        }
    } else if asdu.type_id == 13 {
        match asdu.typed::<M_ME_NC_1>(addressing) {
            Ok(objects) => seen_list(objects),
            Err(_) => Seq::empty(),
        }
    } else if asdu.type_id == 30 {
        match asdu.typed::<M_SP_TB_1>(addressing) {
            Ok(objects) => seen_list(objects),
            Err(_) => Seq::empty(),
        }
    } else if asdu.type_id == 31 {
        match asdu.typed::<M_DP_TB_1>(addressing) {
            Ok(objects) => seen_list(objects),
            Err(_) => Seq::empty(),
        }
    } else if asdu.type_id == 34 {
        match asdu.typed::<M_ME_TD_1>(addressing) {
            Ok(objects) => seen_list(objects),
            Err(_) => Seq::empty(),
        }
    } else if asdu.type_id == 35 {
        match asdu.typed::<M_ME_TE_1>(addressing) {
            Ok(objects) => seen_list(objects),
            Err(_) => Seq::empty(),
        }
    } else if asdu.type_id == 36 {
        match asdu.typed::<M_ME_TF_1>(addressing) {
            Ok(objects) => seen_list(objects),
            Err(_) => Seq::empty(),
        }
    } else {
        Seq::empty()
    }
}

/// The observations that an ASDU carries.
pub fn observe(asdu: &Asdu) -> (out: Vec<Observation>)
    ensures
        out@ == observed(asdu@),
{
    let addressing = AsduAddressing::iec104();
    match asdu.type_id() {
        1 => match asdu.decode_payload::<M_SP_NA_1>(addressing) {
            Ok(p) => see_list(&p.objects),
            Err(_) => Vec::new(),
        },
        3 => match asdu.decode_payload::<M_DP_NA_1>(addressing) {
            Ok(p) => see_list(&p.objects),
            Err(_) => Vec::new(),
        },
        9 => match asdu.decode_payload::<M_ME_NA_1>(addressing) {
            Ok(p) => see_list(&p.objects),
            Err(_) => Vec::new(),
        },
        11 => match asdu.decode_payload::<M_ME_NB_1>(addressing) {
            Ok(p) => see_list(&p.objects),
            Err(_) => Vec::new(),
        },
        13 => match asdu.decode_payload::<M_ME_NC_1>(addressing) {
            Ok(p) => see_list(&p.objects),
            Err(_) => Vec::new(),
        },
        30 => match asdu.decode_payload::<M_SP_TB_1>(addressing) {
            Ok(p) => see_list(&p.objects),
            Err(_) => Vec::new(),
        },
        31 => match asdu.decode_payload::<M_DP_TB_1>(addressing) {
            Ok(p) => see_list(&p.objects),
            Err(_) => Vec::new(),
        },
        34 => match asdu.decode_payload::<M_ME_TD_1>(addressing) {
            Ok(p) => see_list(&p.objects),
            Err(_) => Vec::new(),
        },
        35 => match asdu.decode_payload::<M_ME_TE_1>(addressing) {
            Ok(p) => see_list(&p.objects),
            Err(_) => Vec::new(),
        },
        36 => match asdu.decode_payload::<M_ME_TF_1>(addressing) {
            Ok(p) => see_list(&p.objects),
            Err(_) => Vec::new(),
        },
        _ => Vec::new(),
    }
}

} // verus!
