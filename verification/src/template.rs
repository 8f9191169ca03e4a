//! What the expansion of a partial asks of a compiled template body.
//!
//! Neither method is bound to a contract here, so every template can have
//! them. A template that states what its methods do, in `ensures` clauses of
//! its own, gets that carried through: the contract of `expand_partial`
//! speaks of the two calls it makes by what their own contracts allow.

use vstd::prelude::*;
use crate::context::RenderContext;
use crate::error::RenderError;
use crate::registry::Registry;

verus! {

/// A template body that can be evaluated for what it registers: the inline
/// partials declared in it are added to the context, and nothing is written.
pub trait Evaluable: Sized {
    fn eval(&self, registry: &Registry<Self>, rc: &mut RenderContext<Self>) -> Result<
        (),
        RenderError,
    >;
}

/// A template body that can be rendered: its text is appended to what the
/// context has written.
pub trait Renderable: Sized {
    fn render(&self, registry: &Registry<Self>, rc: &mut RenderContext<Self>) -> Result<
        (),
        RenderError,
    >;
}

} // verus!
