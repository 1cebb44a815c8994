//! A library for asserting properties of JSON-like documents selected by
//! path-query expressions.
//!
//! A caller wraps a document in [`JsonTest`], selects part of it with a
//! path expression, and then chains typed checks on the selection: each
//! check either hands the chain back for further checks, or returns a
//! structured [`JsonPathError`] describing what was expected, what was
//! found, and where.  An object-valued selection can be inspected member
//! by member through [`PropertyMatcher`], and the chain can pivot to a
//! new path over the same document at any point.

pub mod chain;
pub mod error;
pub mod eval;
pub mod matchers;
pub mod properties;
pub mod property_matcher;
pub mod render;
pub mod text;
pub mod value;

pub use chain::JsonPathAssertion;
pub use chain::JsonTest;
pub use error::FailureKind;
pub use error::JsonPathError;
pub use matchers::JsonMatcher;
pub use matchers::RegexMatcher;
pub use matchers::TypeMatcher;
pub use matchers::ValueMatcher;
pub use property_matcher::PropertyMatcher;
pub use value::JsonValue;
