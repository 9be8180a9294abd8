//! Declarative rendering and server-push event descriptions for data types.
//!
//! The generators turn the annotation model of a type (its template and
//! event attributes) into the Rust source of the capabilities that the type
//! gets; the renderer owns the template registry that the generated code
//! renders through.
pub mod options;
pub mod text;
pub mod context;
pub mod event;
pub mod all_events;
pub mod renderer;
pub mod payload;
pub mod filters;
