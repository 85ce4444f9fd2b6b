//! CTAPHID transport framing and CTAP2 command dispatch for a USB FIDO2
//! authenticator: packet reassembly and fragmentation, the channel table,
//! the command classifier, and the opcode/CBOR request decoder.

pub mod channel;
pub mod command;
pub mod engine;
pub mod framing;
pub mod mapping;
