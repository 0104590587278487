//! Compact, time-sortable 64-bit identifiers rendered as 11-character tokens.
//!
//! An identifier packs a 42-bit millisecond timestamp, a 12-bit per-millisecond
//! sequence number and 10 random bits; its text keeps the numeric order.

pub mod clock;
pub mod encode;
pub mod generator;
pub mod layout;

pub use clock::ClockError;
pub use encode::base64_encode_u64;
pub use generator::generate_tiny64;
pub use generator::Generator;
pub use layout::pack_id;
pub use layout::unpack_id;
