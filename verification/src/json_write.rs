//! A low-level interface for writing out JSON.

pub mod key;
pub mod value;
pub mod write;

pub use key::ToJsonKey;
pub use key::WriteJsonKey;
pub use value::ToJsonValue;
pub use value::WriteJsonValue;
pub use write::JsonWrite;
pub use write::JsonWriteItems;
