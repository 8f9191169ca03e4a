//! The templates that were registered by name before rendering began.

use vstd::prelude::*;
use crate::keyed::{bind, find};

verus! {

/// Templates by name. Rendering only reads it.
pub struct Registry<T> {
    templates: Vec<(String, T)>,
}

impl<T> View for Registry<T> {
    type V = Seq<(Seq<char>, T)>;

    closed spec fn view(&self) -> Seq<(Seq<char>, T)> {
        crate::keyed::keyed(self.templates@)
    }
}

impl<T> Registry<T> {
    /// A registry without templates.
    pub fn new() -> (res: Registry<T>)
        ensures
            res@ == Seq::<(Seq<char>, T)>::empty(),
    {
        let res = Registry { templates: Vec::new() };
        assert(res@ =~= Seq::<(Seq<char>, T)>::empty());
        res
    }

    /// Registers `template` under `name`, in place of a template that had
    /// the name before.
    pub fn register_template(&mut self, name: String, template: T)
        ensures
            final(self)@ == crate::keyed::put(old(self)@, name@, template),
    {
        bind(&mut self.templates, name, template);
    }

    /// The template registered under `name`.
    pub fn get_template(&self, name: &String) -> (res: Option<&T>)
        ensures
            match res {
                Some(t) => crate::keyed::lookup(self@, name@) == Some(*t),
                None => crate::keyed::lookup(self@, name@) is None,
            },
    {
        proof {
            assert(crate::keyed::keys(self@) =~= crate::keyed::names(self.templates@));
        }
        match find(&self.templates, name) {
            Some(i) => Some(&self.templates[i].1),
            None => None,
        }
    }
}

} // verus!
