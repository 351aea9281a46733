//! Capability-based RPC substrate: a bitfield capability algebra, signed
//! delegation chains over object references, a length-prefixed frame codec
//! and a handler registry for dispatching incoming streams.

pub mod attributes;
pub mod capability;
pub mod codec;
pub mod dispatch;
pub mod encoding;
pub mod error;
pub mod message;
pub mod service;
pub mod signature;
pub mod table;
pub mod validate;
pub mod reference;

pub use capability::Capability;
pub use error::{Error, ErrorKind};
pub use reference::{Authorization, Certificate, Reference};
pub use signature::{Dalek, Keypair, PublicKey, Signature};
