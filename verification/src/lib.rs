//! A bridge between JSON documents and a Common Expression Language
//! evaluator: it binds documents to variables, evaluates compiled
//! expressions in scopes of variables, and converts what comes back into JSON
//! documents.

pub mod codec;
pub mod context;
pub mod convert;
pub mod error;
pub mod evaluator;
pub mod json;
pub mod program;
pub mod repl;
pub mod stream;
pub mod text;
pub mod value;

pub use context::create_context;
pub use error::Error;
pub use json::JsonValue;
pub use program::{compile, CelProgram};
pub use value::CelValue;
