//! The string types as the field readers see them.

pub use crate::common_types::{Base64String, Utf8String};
