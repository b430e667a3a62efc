//! A small binary wire protocol: a fixed-layout inner message (`Packet`)
//! carrying a command, sequence number, handle and variable-length payload,
//! wrapped by an outer envelope (`Wrapper`) that adds its own sequence and
//! acknowledgment numbers, a delivery-type tag and a Fletcher-16 checksum
//! over the inner header. The crate provides the checksum engine, the
//! byte-level encoders and the validating decoders, each with a verified
//! contract against the wire-format model.

pub mod bytes;
pub mod de;
pub mod fletcher_16;
pub mod packet;
pub mod ser;
pub mod wrapper;
