//! jCard (RFC 7095) codec: a bidirectional, verified translation between an
//! in-memory vCard model and the jCard JSON array encoding.
//!
//! A jCard document is a two-element JSON array: the literal string `"vcard"`
//! followed by an array of properties, each property itself an array of at
//! least four elements (name, parameter object, value type, one or more
//! values).  The [`json::Json`] type models such a JSON document tree; the
//! decoder and encoder translate between it and the [`model::Vcard`] family of
//! types, and their contracts pin the translation down exactly.

pub mod de;
pub mod error;
pub mod json;
pub mod laws;
pub mod model;
pub mod params;
pub mod ser;
pub mod structured;

pub use structured::Address;
pub use structured::AddressModel;
pub use structured::InvalidStructuredAddress;
pub use structured::Telephone;
pub use error::ErrorModel;
pub use error::JCardError;
pub use json::Json;
pub use json::JsonModel;
pub use model::Property;
pub use model::PropertyModel;
pub use model::PropertyValue;
pub use model::ValueModel;
pub use model::Vcard;
pub use model::VcardModel;
pub use params::Parameters;
pub use params::ParamsModel;
pub use params::Veclike;
