//! Logic of the Butterfly Effect device firmware: servo and motor control
//! arithmetic, the captive-portal DNS responder, the HTTP API payload
//! handling, Wi-Fi provisioning helpers and the JSON line protocols spoken
//! with the companion app and with the paired device.

pub mod config;
pub mod text;
pub mod servo;
pub mod motor;
pub mod dns;
pub mod json;
pub mod wifi;
pub mod web;
pub mod protocol;
pub mod storage;
pub mod sensor;
pub mod behavior;
