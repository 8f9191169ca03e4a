//! Expansion of partial directives inside a template renderer.
//!
//! A partial directive, `{{> name}}` in a template, stands for another
//! template. [`partial::expand_partial`] decides which one: a partial that
//! was registered while rendering, else a registered template, else the body
//! written between the directive's own tags. It moves the render context to
//! the path that the directive names, renders the template it found, and
//! moves the context back, whether the rendering succeeded or not. A
//! directive with named parameters is rendered against a branch of the
//! context, so that what it binds is seen inside the partial only.
//!
//! The templates themselves come from the caller, as types that implement
//! [`template::Evaluable`] and [`template::Renderable`]. Everything else is
//! here: the data tree ([`value`]), the directive ([`directive`]), the
//! registry of templates ([`registry`]) and the render context
//! ([`context`]).

pub mod context;
pub mod directive;
pub mod error;
pub mod keyed;
pub mod partial;
pub mod registry;
pub mod template;
pub mod value;
