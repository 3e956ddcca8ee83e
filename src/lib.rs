//! Netlink message framing: typed attributes encoded as aligned type-length-value records,
//! a message buffer that keeps its header length in step, a bounds-checked walk over a
//! received attribute stream, and the lifecycle of a Netlink socket.

pub mod attr;
pub mod error;
pub mod laws;
pub mod message;
pub mod socket;
pub mod stream;
pub mod wire;

pub use attr::{encode, AttributeValue};
pub use error::NlError;
pub use message::{Header, Message};
pub use socket::{NetlinkProtocol, Socket};
pub use stream::{Attribute, AttributeKind, MessageIterator};
