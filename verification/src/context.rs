//! The state of one render: which template is being rendered, where in the
//! data tree it stands, the local variables in scope, the partials that
//! templates registered on the way, the data, and the text written so far.

use vstd::prelude::*;
use vstd::string::StringExecFns;
use crate::keyed::{bind, find};
use crate::value::{copy_fields, Tree, Value};

verus! {

/// The state of one render. It is handed down the tree of templates and
/// changed in place.
pub struct RenderContext<T> {
    current_template: Option<String>,
    path: String,
    local_vars: Vec<Vec<(String, Value)>>,
    partials: Vec<(String, T)>,
    data: Value,
    output: String,
}

/// What a `RenderContext` stands for.
pub struct RenderState<T> {
    /// The name of the template that is being rendered.
    pub current_template: Option<Seq<char>>,
    /// The place in the data tree that relative references start from.
    pub path: Seq<char>,
    /// The frames of local variables, the innermost last.
    pub local_vars: Seq<Seq<(Seq<char>, Tree)>>,
    /// The partials registered while rendering.
    pub partials: Seq<(Seq<char>, T)>,
    /// The data that is rendered.
    pub data: Tree,
    /// The text written so far.
    pub output: Seq<char>,
}

/// What a stack of frames stands for.
pub open spec fn frames_view(frames: Seq<Vec<(String, Value)>>) -> Seq<Seq<(Seq<char>, Tree)>> {
    Seq::new(frames.len(), |i: int| crate::value::fields_view(frames[i]@))
}

/// The frames with the innermost one removed; no frames stay no frames.
pub open spec fn popped<A>(frames: Seq<A>) -> Seq<A> {
    if frames.len() > 0 {
        frames.drop_last()
    } else {
        frames
    }
}

/// The frames with `name` set to `value` in the innermost one, which is
/// opened where there is none.
pub open spec fn with_local(
    frames: Seq<Seq<(Seq<char>, Tree)>>,
    name: Seq<char>,
    value: Tree,
) -> Seq<Seq<(Seq<char>, Tree)>> {
    if frames.len() > 0 {
        frames.drop_last().push(crate::keyed::put(frames.last(), name, value))
    } else {
        seq![crate::keyed::put(Seq::empty(), name, value)]
    }
}

/// The local variable `name` as seen `level` frames out from the innermost
/// one.
pub open spec fn local_at(
    frames: Seq<Seq<(Seq<char>, Tree)>>,
    level: nat,
    name: Seq<char>,
) -> Option<Tree> {
    if level < frames.len() {
        crate::keyed::lookup(frames[frames.len() - 1 - level], name)
    } else {
        None
    }
}

/// `copy` holds, under the same names and in the same order, a clone of each
/// template of `table`.
pub open spec fn clones<T: Clone>(table: Seq<(Seq<char>, T)>, copy: Seq<(Seq<char>, T)>) -> bool {
    &&& copy.len() == table.len()
    &&& forall|i: int|
        #![trigger table[i]]
        #![trigger copy[i]]
        0 <= i < table.len() ==> copy[i].0 == table[i].0 && cloned::<T>(
            table[i].1,
            copy[i].1,
        )
}

/// A table of clones binds the names that the table binds, each to a clone
/// of what the table binds it to.
pub proof fn lemma_lookup_clones<T: Clone>(
    table: Seq<(Seq<char>, T)>,
    copy: Seq<(Seq<char>, T)>,
    name: Seq<char>,
)
    requires
        clones(table, copy),
    ensures
        match crate::keyed::lookup(table, name) {
            Some(t) => crate::keyed::lookup(copy, name) is Some && cloned::<T>(
                t,
                crate::keyed::lookup(copy, name)->Some_0,
            ),
            None => crate::keyed::lookup(copy, name) is None,
        },
{
    assert(crate::keyed::keys(copy) =~= crate::keyed::keys(table));
    crate::keyed::lemma_position_is_first(crate::keyed::keys(table), name);
    match crate::keyed::position(crate::keyed::keys(table), name) {
        Some(i) => {
            assert(cloned::<T>(table[i].1, copy[i].1));
        },
        None => {},
    }
}

impl<T> View for RenderContext<T> {
    type V = RenderState<T>;

    closed spec fn view(&self) -> RenderState<T> {
        RenderState {
            current_template: match self.current_template {
                Some(name) => Some(name@),
                None => None,
            },
            path: self.path@,
            local_vars: frames_view(self.local_vars@),
            partials: crate::keyed::keyed(self.partials@),
            data: self.data@,
            output: self.output@,
        }
    }
}

impl<T> RenderContext<T> {
    /// The context at the start of a render of `data`: no template yet, at
    /// the root of the data, nothing registered and nothing written.
    pub fn new(data: Value) -> (res: RenderContext<T>)
        ensures
            res@ == (RenderState::<T> {
                current_template: None,
                path: Seq::empty(),
                local_vars: Seq::empty(),
                partials: Seq::empty(),
                data: data@,
                output: Seq::empty(),
            }),
    {
        let res = RenderContext {
            current_template: None,
            path: String::new(),
            local_vars: Vec::new(),
            partials: Vec::new(),
            data,
            output: String::new(),
        };
        assert(res@.local_vars =~= Seq::empty());
        assert(res@.partials =~= Seq::empty());
        res
    }

    /// Whether `name` is the template that is being rendered.
    pub fn is_current_template(&self, name: &String) -> (res: bool)
        ensures
            res == (self@.current_template == Some(name@)),
    {
        match &self.current_template {
            Some(current) => *current == *name,
            None => false,
        }
    }

    /// Says which template is being rendered from now on.
    pub fn set_current_template(&mut self, name: Option<String>)
        ensures
            final(self)@ == (RenderState {
                current_template: match name {
                    Some(n) => Some(n@),
                    None => None,
                },
                ..old(self)@
            }),
    {
        self.current_template = name;
    }

    /// The name of the template that is being rendered.
    pub fn current_template(&self) -> (res: Option<&String>)
        ensures
            match res {
                Some(n) => self@.current_template == Some(n@),
                None => self@.current_template is None,
            },
    {
        match &self.current_template {
            Some(n) => Some(n),
            None => None,
        }
    }

    /// The place in the data tree that relative references start from.
    pub fn get_path(&self) -> (res: &String)
        ensures
            res@ == self@.path,
    {
        &self.path
    }

    /// Moves to another place in the data tree.
    pub fn set_path(&mut self, path: String)
        ensures
            final(self)@ == (RenderState { path: path@, ..old(self)@ }),
    {
        self.path = path;
    }

    /// Opens a frame of local variables. What was local so far is seen one
    /// level further out.
    pub fn promote_local_vars(&mut self)
        ensures
            final(self)@ == (RenderState {
                local_vars: old(self)@.local_vars.push(Seq::empty()),
                ..old(self)@
            }),
    {
        self.local_vars.push(Vec::new());
        assert(self@.local_vars =~~= old(self)@.local_vars.push(Seq::empty()));
    }

    /// Closes the innermost frame of local variables and forgets what it
    /// held. What was one level out is local again.
    pub fn demote_local_vars(&mut self)
        ensures
            final(self)@ == (RenderState {
                local_vars: popped(old(self)@.local_vars),
                ..old(self)@
            }),
    {
        let _ = self.local_vars.pop();
        assert(self@.local_vars =~= popped(old(self)@.local_vars));
    }

    /// Sets the local variable `name` in the innermost frame.
    pub fn set_local_var(&mut self, name: String, value: Value)
        ensures
            final(self)@ == (RenderState {
                local_vars: with_local(old(self)@.local_vars, name@, value@),
                ..old(self)@
            }),
    {
        let mut frame: Vec<(String, Value)> = match self.local_vars.pop() {
            Some(frame) => frame,
            None => Vec::new(),
        };
        let ghost before = frame@;
        bind(&mut frame, name, value);
        proof {
            crate::value::lemma_bind_view(before, frame@, name, value);
        }
        self.local_vars.push(frame);
        proof {
            let frames = old(self)@.local_vars;
            if frames.len() > 0 {
                assert(crate::value::fields_view(before) == frames.last());
            } else {
                assert(crate::value::fields_view(before) =~= Seq::empty());
            }
            assert(self@.local_vars =~= with_local(frames, name@, value@));
        }
    }

    /// The local variable `name` as seen `level` frames out from the
    /// innermost one.
    pub fn get_local_var(&self, level: usize, name: &String) -> (res: Option<&Value>)
        ensures
            match res {
                Some(v) => local_at(self@.local_vars, level as nat, name@) == Some(v@),
                None => local_at(self@.local_vars, level as nat, name@) is None,
            },
    {
        if level < self.local_vars.len() {
            let frame = &self.local_vars[self.local_vars.len() - 1 - level];
            proof {
                assert(crate::keyed::keys(crate::value::fields_view(frame@)) =~= crate::keyed::names(
                    frame@,
                ));
            }
            match find(frame, name) {
                Some(i) => Some(&frame[i].1),
                None => None,
            }
        } else {
            None
        }
    }

    /// Registers `template` as the partial `name` for the rest of this
    /// render, in place of a partial that had the name before.
    pub fn set_partial(&mut self, name: String, template: T)
        ensures
            final(self)@ == (RenderState {
                partials: crate::keyed::put(old(self)@.partials, name@, template),
                ..old(self)@
            }),
    {
        bind(&mut self.partials, name, template);
    }

    /// Whether a partial was registered as `name` during this render.
    pub fn has_partial(&self, name: &String) -> (res: bool)
        ensures
            res == crate::keyed::lookup(self@.partials, name@) is Some,
    {
        proof {
            assert(crate::keyed::keys(self@.partials) =~= crate::keyed::names(self.partials@));
        }
        find(&self.partials, name).is_some()
    }

    /// The data that is rendered.
    pub fn context(&self) -> (res: &Value)
        ensures
            res@ == self@.data,
    {
        &self.data
    }

    /// The data that is rendered, to be changed in place.
    pub fn context_mut(&mut self) -> (res: &mut Value)
        ensures
            (*res)@ == old(self)@.data,
            final(self)@ == (RenderState { data: (*final(res))@, ..old(self)@ }),
    {
        &mut self.data
    }

    /// Appends `text` to what was written.
    pub fn write(&mut self, text: &str)
        ensures
            final(self)@ == (RenderState { output: old(self)@.output + text@, ..old(self)@ }),
    {
        self.output.append(text);
    }

    /// The text written so far.
    pub fn output(&self) -> (res: &String)
        ensures
            res@ == self@.output,
    {
        &self.output
    }
}

impl<T: Clone> RenderContext<T> {
    /// A clone of the partial registered as `name` during this render.
    pub fn get_partial(&self, name: &String) -> (res: Option<T>)
        ensures
            match crate::keyed::lookup(self@.partials, name@) {
                Some(t) => res is Some && cloned::<T>(t, res->Some_0),
                None => res is None,
            },
    {
        proof {
            assert(crate::keyed::keys(self@.partials) =~= crate::keyed::names(self.partials@));
        }
        match find(&self.partials, name) {
            Some(i) => Some(self.partials[i].1.clone()),
            None => None,
        }
    }

    /// A context of its own for a branch of the render. It starts where this
    /// one stands: same template, path, local variables and data, and a
    /// clone of every registered partial. Nothing is written in it yet, and
    /// nothing done to it reaches this context.
    pub fn derive(&self) -> (res: RenderContext<T>)
        ensures
            res@.current_template == self@.current_template,
            res@.path == self@.path,
            res@.local_vars == self@.local_vars,
            clones(self@.partials, res@.partials),
            res@.data == self@.data,
            res@.output == Seq::<char>::empty(),
    {
        let mut local_vars: Vec<Vec<(String, Value)>> = Vec::new();
        let mut i: usize = 0;
        while i < self.local_vars.len()
            invariant
                i <= self.local_vars.len(),
                local_vars.len() == i,
                forall|j: int|
                    0 <= j < i ==> crate::value::fields_view(local_vars[j]@)
                        == crate::value::fields_view(self.local_vars[j]@),
            decreases self.local_vars.len() - i,
        {
            local_vars.push(copy_fields(&self.local_vars[i]));
            i += 1;
        }
        let mut partials: Vec<(String, T)> = Vec::new();
        let mut k: usize = 0;
        while k < self.partials.len()
            invariant
                k <= self.partials.len(),
                partials.len() == k,
                forall|j: int|
                    0 <= j < k ==> partials[j].0@ == self.partials[j].0@ && cloned::<T>(
                        self.partials[j].1,
                        partials[j].1,
                    ),
            decreases self.partials.len() - k,
        {
            partials.push((self.partials[k].0.clone(), self.partials[k].1.clone()));
            k += 1;
        }
        let current_template = match &self.current_template {
            Some(name) => Some(name.clone()),
            None => None,
        };
        let res = RenderContext {
            current_template,
            path: self.path.clone(),
            local_vars,
            partials,
            data: self.data.clone(),
            output: String::new(),
        };
        assert(res@.local_vars =~= self@.local_vars);
        assert(clones(self@.partials, res@.partials));
        res
    }
}

} // verus!
