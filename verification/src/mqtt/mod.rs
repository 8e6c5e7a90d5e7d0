//! The part of MQTT the client reasons about: versions, quality of service, reason codes,
//! control packets, and the credential buffer.

pub mod error;
pub mod packet;
pub mod secret;
pub mod types;
