//! The errors of a render.

use vstd::prelude::*;
use vstd::string::StringExecFns;

verus! {

/// Why a render stopped.
#[derive(Debug, PartialEq, Eq)]
pub enum RenderError {
    /// A partial directive named the template that is being rendered.
    RecursiveInclusion,
    /// A template gave up while it was evaluated or rendered; the text says
    /// why.
    Failed(String),
}

impl RenderError {
    /// The text shown for a directive that includes its own template.
    pub open spec fn recursive_inclusion_text() -> Seq<char> {
        "Cannot include self in >"@
    }

    /// What the error says.
    pub open spec fn text(self) -> Seq<char> {
        match self {
            RenderError::RecursiveInclusion => Self::recursive_inclusion_text(),
            RenderError::Failed(desc) => desc@,
        }
    }

    /// An error raised by a template, with its description.
    pub fn new(desc: &str) -> (res: RenderError)
        ensures
            res is Failed,
            res.text() == desc@,
    {
        RenderError::Failed(String::from_str(desc))
    }

    /// Whether this is the error of a directive that includes its own
    /// template.
    pub fn is_recursive_inclusion(&self) -> (res: bool)
        ensures
            res == (*self == RenderError::RecursiveInclusion),
    {
        match self {
            RenderError::RecursiveInclusion => true,
            RenderError::Failed(_) => false,
        }
    }

    /// The description of the error.
    pub fn description(&self) -> (res: String)
        ensures
            res@ == self.text(),
    {
        match self {
            RenderError::RecursiveInclusion => String::from_str("Cannot include self in >"),
            RenderError::Failed(desc) => desc.clone(),
        }
    }
}

} // verus!
