//! The MQTT command-line client's rules.
use vstd::prelude::*;

pub mod bench;
pub mod cli;
pub mod client;
pub mod clock;
pub mod error;
pub mod json;
pub mod mqtt;
pub mod publish;
pub mod request;
pub mod subscribe;
pub mod text;
pub mod transport;

verus! {

} // verus!
