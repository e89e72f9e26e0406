//! Coordination layer of a CBOR playground: parse-mode selection, the codec
//! adapter, persistence of the input, shareable links and the page controller.

pub mod codec;
pub mod controller;
pub mod hex;
pub mod json;
pub mod mode;
pub mod query;
pub mod store;
pub mod text;
pub mod widget;

pub use codec::{parse, parse_auto, parse_diag, parse_hex};
pub use controller::{Controller, Event};
pub use mode::ParseMode;
