//! Execution-context layer for a markup-document language service.
//!
//! The crate keeps one self-contained "compilation world" per project root —
//! the closure of source files, font assets, and package dependencies needed
//! to compile one entrypoint document — and keeps that world consistent as
//! editors send incremental text edits.

pub mod text;
pub mod paths;
pub mod store;
pub mod fonts;
pub mod package;
pub mod workspace;
pub mod world;
pub mod registry;

pub use fonts::LazyFont;
pub use world::CompletionItem;
pub use world::CompletionKind;
pub use world::Datetime;
pub use world::Diagnostic;
pub use world::FileId;
pub use world::LanguageServiceWorld;
pub use world::PackageSpec;
pub use world::StandardLibrary;
