//! Renders typed descriptions of an extension module's public surface as
//! declaration-only stub text for a dynamically typed host language.
//!
//! A [`module::ModuleDef`] tree holds classes, members, methods and free
//! functions whose types are resolved [`member::TypeRef`]s. Each declaration
//! computes the deduplicated, sorted [`imports::ImportSet`] it needs, and its
//! text: decorators, signatures with receivers, defaults, documentation
//! blocks and indentation. Every rendering function's result is stated
//! exactly by a spec function of the same tree, and `laws` proves the
//! properties that hold of all trees.
pub mod class;
pub mod imports;
pub mod laws;
pub mod member;
pub mod method;
pub mod module;
pub mod order;
pub mod text;
