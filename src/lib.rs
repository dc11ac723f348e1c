//! Textual identities of types and methods: a canonical encoding, its parser,
//! and structural equality and hashing, with the laws that relate them.
pub mod attrs;
pub mod configs;
pub mod errors;
pub mod laws;
pub mod method_reference;
pub mod model;
pub mod string_name;
pub mod string_reference;
pub mod traits;
pub mod type_vars;

pub use errors::ParseStrError;
pub use method_reference::StringMethodReference;
pub use string_name::StringName;
pub use string_reference::StringTypeReference;
pub use type_vars::TypeVars;
