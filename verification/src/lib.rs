//! Portable metadata, shared validation and source discovery for Kotlin/JVM
//! bindings of Rust functions, with the string checks of the JNI runtime.

pub mod text;
pub mod metadata;
pub mod names;
pub mod validate;
pub mod syntax;
pub mod order;
pub mod discover;
pub mod arrangement;
pub mod reader;
pub mod runtime;
pub mod cli;
pub mod laws;
