//! Zero-copy readers for STUN messages (RFC 3489 / RFC 5389) and the
//! health-check logic of a STUN server prober, with their contracts proved.

pub mod bytes;
pub mod message;
pub mod attribute;
pub mod vals;
pub mod rfc3489;
pub mod realm;
pub mod health;

pub use attribute::{AttributeIterator, AttributeReader, ComprehensionCategory, GenericAttribute, RawAttributeIterator};
pub use health::{
    server_status, socket_test_result, summarize, ServerStatus, Span, StatusSummary, StunServer,
    StunServerTestResult, StunSocketResponse, StunSocketTestResult, TIMEOUT_MESSAGE,
};
pub use message::{Class, Method, MsgReader, ReaderErr, MAGIC_COOKIE};
pub use realm::{GenericAttrReader, RealmAttributeReader, RfcSpec};
pub use rfc3489::{Rfc3489Attribute, Rfc3489Iterator};
pub use vals::{SocketAddr, SocketAddrReader, StringReader, XorSocketAddrReader};
