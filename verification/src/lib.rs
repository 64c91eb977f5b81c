//! A verified script runtime cache around an embedded Lua interpreter.
//!
//! The library owns one interpreter instance and, per script name, at most
//! one compiled entry point: a script is compiled lazily on first use, the
//! resulting callable is cached, and every later invocation reuses it. A
//! value bridge converts between JSON-shaped structured values and the
//! interpreter's native values, injecting a server-controlled context field
//! into every call.

pub mod bridge;
pub mod cache;
pub mod error;
pub mod lua_api;
pub mod value;

pub use cache::ScriptCache;
pub use error::RuntimeError;
pub use value::MapEntry;
pub use value::StructuredValue;
