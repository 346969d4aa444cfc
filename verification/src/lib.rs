//! Typed records of an HTTP accelerator's access log, decoded from JSON lines.
//!
//! A line of the log is first read into a [`Json`] document by [`parse`]. The
//! document borrows from the line every string that needs no unescaping, and
//! keeps the members of an object in order, a repeated name each time it
//! occurs. [`decode_record`] then binds the document to an
//! [`HttpAccessRecord`], whose text fields in turn borrow from the document:
//!
//! - in [`Profile::ZeroCopy`] every text of a record is taken from the line
//!   as it stands, and a line in which a text field holds an escape sequence
//!   is refused;
//! - in [`Profile::Copying`] a text may be taken from the unescaped copy that
//!   the document holds. A document made by [`Json::detached`] owns all its
//!   text, so that its records do not depend on the line at all.
//!
//! The kind of a record is named by its member `record_type`
//! ([`Encoding::Tagged`]) or settled by what the line can be bound as
//! ([`Encoding::Untagged`]).
//!
//! Every binding rule is a specification function over the value of the
//! document, and each decoder is proved to compute exactly that function. The
//! module [`laws`] holds what follows from the rules.

pub mod error;
pub mod document;
pub mod decode;
pub mod reader;
pub mod index;
pub mod address;
pub mod http;
pub mod log;
pub mod backend;
pub mod record;
pub mod laws;

pub use crate::error::{outcome, DecodeError, DecodeErrorView, ErrorKind, Step, StepView};
pub use crate::document::{Float, Json, JsonView, Number, Text, TextView};
pub use crate::decode::{Decode, Profile};
pub use crate::reader::{document_of, parse, parse_within, parsed, DEPTH_LIMIT};
pub use crate::index::{IndexedHeader, LogVarsIndex, RawHeader};
pub use crate::address::{Address, BackendConnection, Compression, Proxy, SessionInfo};
pub use crate::http::{Headers, HttpRequest, HttpResponse};
pub use crate::log::{IndexedLog, Log, RawLog};
pub use crate::backend::{BackendAccess, CacheObject};
pub use crate::record::{
    classify, decode_record, record_of, ClientRequest, Encoding, HttpAccessRecord, PipeSession, RecordKind,
};
