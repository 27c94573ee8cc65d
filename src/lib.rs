//! A minimal virtual CPU: a flat memory of 32-bit words, three flags, a
//! fetch-decode-execute engine over a fixed-width bytecode, the decision
//! logic of the device that forwards its character output, and an assembler
//! from mnemonic text to program images.

pub mod image;
pub mod isa;
pub mod machine;
pub mod laws;
pub mod virtio;
pub mod assembler;
