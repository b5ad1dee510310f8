//! A verified front-end parser for a declarative UI-description language.
//!
//! A document is one `@name value` (or `@name value("url")`) directive followed by one
//! root element `@Kind name { ... }` whose body mixes `key = value` properties and
//! nested elements.
pub mod chars;
pub mod ast;
pub mod error;
pub mod grammar;
pub mod parser;
pub mod types;
pub mod laws;
