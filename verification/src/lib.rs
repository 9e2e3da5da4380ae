//! Verified protocol, layout and control logic for BZM2 mining ASICs and
//! the boards that carry them.

pub mod api_types;
pub mod chip;
pub mod clock;
pub mod hexcodec;
pub mod power;
pub mod protocol;
pub mod registry;
pub mod text;
pub mod tuning;
pub mod uart;
