//! The JSON line protocols spoken over TCP: provisioning on the soft-AP
//! (`ap`) and control, binding and pairing once on the home network (`sta`).

pub mod ap;
pub mod sta;
pub mod sta_laws;
pub mod line;
