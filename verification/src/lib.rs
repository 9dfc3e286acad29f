//! Verified decoder for the Teleinfo protocol: the checksum-protected,
//! text-framed telemetry that a utility meter emits over a serial link.
//!
//! The pipeline turns raw byte chunks into validated readings:
//! [`assembler::FrameAssembler`] delimits frames in the byte stream,
//! [`checksum`] verifies each line's trailing checksum byte,
//! [`parser`] extracts the ten required fields into a
//! [`frame::TeleinfoFrame`], and [`pipeline::DecodePipeline`] composes
//! the stages into one continuous decoder. A reading exists only if
//! all ten fields were present and checksum-valid in its source frame.

pub mod assembler;
pub mod checksum;
pub mod frame;
pub mod json;
pub mod numbers;
pub mod parser;
pub mod pipeline;
pub mod scan;
pub mod textenc;

pub use checksum::validate_checksum;
pub use frame::{DecodeError, Field, TeleinfoFrame};
pub use parser::{parse_frame, parse_teleinfo};
pub use pipeline::DecodePipeline;
