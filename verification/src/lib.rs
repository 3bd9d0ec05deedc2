//! Ingestion of compiler optimization remarks.
//!
//! The crate decodes tag-discriminated remark documents, filters them
//! through an acceptance policy, demangles the function names they speak
//! of, remaps toolchain-relative source paths onto a local checkout, and
//! composes each surviving document's argument list into an ordered
//! message of plain and location-annotated text parts.

pub mod decode;
pub mod demangle;
pub mod message;
pub mod model;
pub mod paths;
pub mod policy;
pub mod process;
pub mod strings;

pub use model::DebugLocation;
pub use model::Function;
pub use model::Location;
pub use model::MessagePart;
pub use model::MissedDoc;
pub use model::OtherEntry;
pub use model::RawDocument;
pub use model::Remark;
pub use model::RemarkArg;
pub use model::RemarkLoadOptions;
