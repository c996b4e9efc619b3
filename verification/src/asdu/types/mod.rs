//! Built-in typed ASDU payloads.
//!
//! Each submodule implements a family of Type IDs per IEC 60870-5-101 by
//! providing structs that implement [`crate::asdu::AsduPayload`].

pub mod command;
pub mod file;
pub mod monitor;
pub mod system;

pub use command::{
    Dco, Qoi, Qos, Rco, Sco, StepDirection, C_DC_NA_1, C_IC_NA_1, C_RC_NA_1, C_SC_NA_1, C_SC_TA_1,
    C_SE_NA_1, C_SE_NB_1, C_SE_NC_1, C_SE_TA_1, C_SE_TB_1, C_SE_TC_1,
};
pub use file::{
    Afq, AfqAction, Checksum, DirectoryEntry, Frq, LengthOfFile, LengthOfSection, Lsq, NameOfFile,
    NameOfSection, Scq, ScqAction, Sof, Srq, F_AF_NA_1, F_DR_TA_1, F_FR_NA_1, F_LS_NA_1, F_SC_NA_1,
    F_SG_NA_1, F_SR_NA_1,
};
pub use monitor::{
    M_DP_NA_1, M_DP_TB_1, M_ME_NA_1, M_ME_NB_1, M_ME_NC_1, M_ME_TD_1, M_ME_TE_1, M_ME_TF_1,
    M_SP_NA_1, M_SP_TB_1,
};
pub use system::{Coi, Qcc, Qrp, C_CI_NA_1, C_CS_NA_1, C_RD_NA_1, C_RP_NA_1, M_EI_NA_1};
