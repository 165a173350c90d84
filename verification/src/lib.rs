//! Renders a text template against the values of a configuration document.
//!
//! The heart of it is the bridge between two models of data: the typed tree
//! of a configuration document ([`document`]) and the dynamic values that a
//! template engine works on ([`value`]).  [`convert`] takes a document across
//! the bridge, [`single`] narrows its numbers on the way, and [`context`]
//! binds the entries of a top-level table to the names that a template sees.
//! [`reader`] reads a document from TOML text, and [`pipeline`] says, step by
//! step, what a run from template and values to rendered text has to do,
//! with the [`options`] that it runs under and the [`error`] that may end it.
pub mod context;
pub mod convert;
pub mod document;
pub mod error;
pub mod options;
pub mod pipeline;
pub mod reader;
pub mod single;
pub mod value;
