//! Expansion of one partial directive.
//!
//! `expand_partial` looks the directive's name up among the partials
//! registered during the render, the registered templates and the
//! directive's own body, in that order; moves the context to the path that
//! the directive names; renders the template it found, against a branch of
//! the context where the directive has named parameters; and moves the
//! context back.

use vstd::prelude::*;
use vstd::string::StringExecFns;
use crate::context::{RenderContext, RenderState};
use crate::directive::{Directive, DirectiveView};
use crate::error::RenderError;
use crate::registry::Registry;
use crate::template::{Evaluable, Renderable};
use crate::value::Value;

verus! {

/// Where the template of a partial was found.
#[derive(Debug, Clone, Copy, PartialEq, Eq, Structural)]
pub enum Source {
    /// Among the partials registered during this render.
    Runtime,
    /// Among the registered templates.
    Registered,
    /// The directive's own body.
    Inline,
}

/// The source that provides the partial `name`: the first of runtime
/// partials, registered templates and the directive's body that has it.
pub open spec fn source_of<T>(
    partials: Seq<(Seq<char>, T)>,
    registered: Seq<(Seq<char>, T)>,
    inline: Option<T>,
    name: Seq<char>,
) -> Option<Source> {
    if crate::keyed::lookup(partials, name) is Some {
        Some(Source::Runtime)
    } else if crate::keyed::lookup(registered, name) is Some {
        Some(Source::Registered)
    } else if inline is Some {
        Some(Source::Inline)
    } else {
        None
    }
}

/// The template that `source` holds for the partial `name`.
pub open spec fn template_at<T>(
    source: Source,
    partials: Seq<(Seq<char>, T)>,
    registered: Seq<(Seq<char>, T)>,
    inline: Option<T>,
    name: Seq<char>,
) -> Option<T> {
    match source {
        Source::Runtime => crate::keyed::lookup(partials, name),
        Source::Registered => crate::keyed::lookup(registered, name),
        Source::Inline => inline,
    }
}

/// The template that the partial `name` refers to: the one at its source.
pub open spec fn selected<T>(
    partials: Seq<(Seq<char>, T)>,
    registered: Seq<(Seq<char>, T)>,
    inline: Option<T>,
    name: Seq<char>,
) -> Option<T> {
    match source_of(partials, registered, inline, name) {
        Some(source) => template_at(source, partials, registered, inline, name),
        None => None,
    }
}

/// The outcome of looking a partial up.
pub enum Resolved<'a, T> {
    /// A clone of a partial registered during this render.
    Runtime(T),
    /// A registered template.
    Registered(&'a T),
    /// The directive's own body.
    Inline(&'a T),
    /// No source has the partial.
    NotFound,
}

impl<'a, T> Resolved<'a, T> {
    /// Where the template was found.
    pub open spec fn source(self) -> Option<Source> {
        match self {
            Resolved::Runtime(_) => Some(Source::Runtime),
            Resolved::Registered(_) => Some(Source::Registered),
            Resolved::Inline(_) => Some(Source::Inline),
            Resolved::NotFound => None,
        }
    }

    /// The template that was found.
    pub open spec fn found(self) -> Option<T> {
        match self {
            Resolved::Runtime(t) => Some(t),
            Resolved::Registered(t) => Some(*t),
            Resolved::Inline(t) => Some(*t),
            Resolved::NotFound => None,
        }
    }

    /// Where the template was found.
    pub fn origin(&self) -> (res: Option<Source>)
        ensures
            res == self.source(),
    {
        match self {
            Resolved::Runtime(_) => Some(Source::Runtime),
            Resolved::Registered(_) => Some(Source::Registered),
            Resolved::Inline(_) => Some(Source::Inline),
            Resolved::NotFound => None,
        }
    }

    /// The template that was found.
    pub fn template(&self) -> (res: Option<&T>)
        ensures
            match res {
                Some(t) => self.found() == Some(*t),
                None => self.found() is None,
            },
    {
        match self {
            Resolved::Runtime(t) => Some(t),
            Resolved::Registered(t) => Some(*t),
            Resolved::Inline(t) => Some(*t),
            Resolved::NotFound => None,
        }
    }
}

/// Looks the directive's partial up: among the partials registered during
/// the render first, then among the registered templates, then in the
/// directive's own body. A runtime partial is handed out as a clone, the
/// other two as they are.
pub fn resolve<'a, T: Clone>(
    d: &'a Directive<T>,
    registry: &'a Registry<T>,
    rc: &RenderContext<T>,
) -> (res: Resolved<'a, T>)
    ensures
        res.source() == source_of(rc@.partials, registry@, d@.template, d@.name),
        match res {
            Resolved::Runtime(t) => cloned::<T>(
                selected(rc@.partials, registry@, d@.template, d@.name)->Some_0,
                t,
            ),
            _ => res.found() == selected(rc@.partials, registry@, d@.template, d@.name),
        },
{
    match rc.get_partial(d.name()) {
        Some(t) => Resolved::Runtime(t),
        None => match registry.get_template(d.name()) {
            Some(t) => Resolved::Registered(t),
            None => match d.template() {
                Some(t) => Resolved::Inline(t),
                None => Resolved::NotFound,
            },
        },
    }
}

/// The path one segment below `base`.
pub open spec fn joined(base: Seq<char>, segment: Seq<char>) -> Seq<char> {
    base + seq!['/'] + segment
}

/// The path to go back to once the partial is rendered: the context's path,
/// where the directive moves the context.
pub open spec fn saved_path<T>(s: RenderState<T>, d: DirectiveView<T>) -> Option<Seq<char>> {
    match d.context_path() {
        Some(_) => Some(s.path),
        None => None,
    }
}

/// The context as the partial finds it. Where the directive names a path
/// the context stands one segment below where it stood and a frame of local
/// variables is open; otherwise it is as it was.
pub open spec fn entered<T>(s: RenderState<T>, d: DirectiveView<T>) -> RenderState<T> {
    match d.context_path() {
        Some(segment) => RenderState {
            path: joined(s.path, segment),
            local_vars: s.local_vars.push(Seq::empty()),
            ..s
        },
        None => s,
    }
}

/// The context as the partial leaves it behind. Where a path was saved the
/// context stands there again and the innermost frame of local variables is
/// closed; otherwise it is as it was.
pub open spec fn left<T>(s: RenderState<T>, saved: Option<Seq<char>>) -> RenderState<T> {
    match saved {
        Some(path) => RenderState {
            path,
            local_vars: crate::context::popped(s.local_vars),
            ..s
        },
        None => s,
    }
}

/// The context that a partial with named parameters is rendered against: a
/// branch of `s` whose data has the named parameters as fields, over the
/// fields it had, and in which nothing is written yet.
pub open spec fn branched<T: Clone>(
    s: RenderState<T>,
    d: DirectiveView<T>,
    branch: RenderState<T>,
) -> bool {
    &&& branch.current_template == s.current_template
    &&& branch.path == s.path
    &&& branch.local_vars == s.local_vars
    &&& crate::context::clones(s.partials, branch.partials)
    &&& branch.data == s.data.extended(d.bindings())
    &&& branch.output == Seq::<char>::empty()
}

/// Moves the context to where the directive's partial is rendered, and
/// returns the path to go back to where it moved.
pub fn enter_scope<T>(d: &Directive<T>, rc: &mut RenderContext<T>) -> (saved: Option<String>)
    ensures
        final(rc)@ == entered(old(rc)@, d@),
        match saved {
            Some(path) => saved_path(old(rc)@, d@) == Some(path@),
            None => saved_path(old(rc)@, d@) is None,
        },
        d@.context_path() is None ==> *final(rc) == *old(rc),
{
    let params = d.params();
    if params.len() == 0 {
        return None;
    }
    assert(d@.params[0] == params[0]@);
    match params[0].path() {
        Some(segment) => {
            let old_path = rc.get_path().clone();
            rc.promote_local_vars();
            let mut new_path = old_path.clone();
            new_path.append("/");
            new_path.append(segment.as_str());
            proof {
                reveal_strlit("/");
                assert("/"@ =~= seq!['/']);
            }
            rc.set_path(new_path);
            Some(old_path)
        },
        None => None,
    }
}

/// Moves the context back to `saved`, where there is a path to go back to.
pub fn leave_scope<T>(rc: &mut RenderContext<T>, saved: Option<String>)
    ensures
        final(rc)@ == left(
            old(rc)@,
            match saved {
                Some(path) => Some(path@),
                None => None,
            },
        ),
        saved is None ==> *final(rc) == *old(rc),
{
    match saved {
        Some(path) => {
            rc.set_path(path);
            rc.demote_local_vars();
        },
        None => {},
    }
}

/// The values of the directive's named parameters, each under its name.
pub fn hash_context<T>(d: &Directive<T>) -> (res: Vec<(String, Value)>)
    ensures
        crate::value::fields_view(res@) == d@.bindings(),
{
    let hash = d.hash();
    let mut out: Vec<(String, Value)> = Vec::new();
    let mut i: usize = 0;
    while i < hash.len()
        invariant
            i <= hash.len(),
            out.len() == i,
            forall|j: int|
                0 <= j < i ==> out[j].0@ == hash[j].0@ && out[j].1@ == hash[j].1@.value,
        decreases hash.len() - i,
    {
        out.push((hash[i].0.clone(), hash[i].1.value().clone()));
        i += 1;
    }
    assert(crate::value::fields_view(out@) =~= d@.bindings());
    out
}

/// The context that the directive's partial is rendered against where the
/// directive has named parameters.
pub fn branch<T: Clone>(d: &Directive<T>, rc: &RenderContext<T>) -> (res: RenderContext<T>)
    ensures
        branched(rc@, d@, res@),
{
    let bindings = hash_context(d);
    let mut local = rc.derive();
    let data = local.context_mut();
    *data = data.extend(&bindings);
    local
}

/// What the templates did in the course of one expansion.
pub struct Outcomes<T> {
    /// The context as the evaluation of the directive's body left it.
    pub evaluated: RenderState<T>,
    /// What the evaluation of the directive's body returned.
    pub eval_result: Result<(), RenderError>,
    /// The template that was rendered.
    pub template: T,
    /// The context that the template was rendered against, as it was handed
    /// over.
    pub handed: RenderState<T>,
    /// The same context as the rendering left it.
    pub rendered: RenderState<T>,
    /// What the rendering returned.
    pub render_result: Result<(), RenderError>,
}

/// The context in which the directive's name is looked up: as the
/// evaluation of the directive's body left it, where there is a body.
pub open spec fn started<T>(d: DirectiveView<T>, before: RenderState<T>, o: Outcomes<T>) -> RenderState<
    T,
> {
    if d.template is Some {
        o.evaluated
    } else {
        before
    }
}

/// Whether the expansion gets as far as rendering the partial: the
/// directive's body was evaluated without error, the directive does not name
/// the template being rendered, and some source has the partial.
pub open spec fn renders<T>(
    d: DirectiveView<T>,
    registry: Seq<(Seq<char>, T)>,
    before: RenderState<T>,
    o: Outcomes<T>,
) -> bool {
    let start = started(d, before, o);
    &&& d.template is Some ==> o.eval_result is Ok
    &&& start.current_template != Some(d.name)
    &&& source_of(start.partials, registry, d.template, d.name) is Some
}

/// `t` is the template to render for the directive: a clone of the runtime
/// partial where there is one, else the registered template or the
/// directive's body itself.
pub open spec fn chosen<T: Clone>(
    d: DirectiveView<T>,
    registry: Seq<(Seq<char>, T)>,
    start: RenderState<T>,
    t: T,
) -> bool {
    match source_of(start.partials, registry, d.template, d.name) {
        Some(Source::Runtime) => cloned::<T>(
            crate::keyed::lookup(start.partials, d.name)->Some_0,
            t,
        ),
        Some(_) => selected(start.partials, registry, d.template, d.name) == Some(t),
        None => false,
    }
}

/// `handed` is the context to render the directive's partial against: the
/// context itself, in the directive's scope, or a branch of that where the
/// directive has named parameters.
pub open spec fn handed_over<T: Clone>(
    d: DirectiveView<T>,
    start: RenderState<T>,
    handed: RenderState<T>,
) -> bool {
    if d.hash.len() == 0 {
        handed == entered(start, d)
    } else {
        branched(entered(start, d), d, handed)
    }
}

/// What one expansion comes to, given what the templates did.
///
/// A failed evaluation of the directive's body is handed on. A directive that
/// names the template being rendered fails with `RecursiveInclusion`. A name
/// that no source has leaves everything as it is. Otherwise the context
/// enters the directive's scope, the template chosen is rendered, and the
/// context leaves the scope again, whatever the rendering returned. A partial
/// with named parameters is rendered against a branch, of which only the text
/// written comes back.
pub open spec fn expansion<T: Clone>(
    d: DirectiveView<T>,
    registry: Seq<(Seq<char>, T)>,
    before: RenderState<T>,
    o: Outcomes<T>,
    after: RenderState<T>,
    res: Result<(), RenderError>,
) -> bool {
    let start = started(d, before, o);
    if d.template is Some && o.eval_result is Err {
        after == start && res == o.eval_result
    } else if start.current_template == Some(d.name) {
        after == start && res == Err::<(), RenderError>(RenderError::RecursiveInclusion)
    } else if source_of(start.partials, registry, d.template, d.name) is None {
        after == start && res == Ok::<(), RenderError>(())
    } else {
        &&& chosen(d, registry, start, o.template)
        &&& handed_over(d, start, o.handed)
        &&& res == o.render_result
        &&& after == left(
            if d.hash.len() == 0 {
                o.rendered
            } else {
                RenderState { output: entered(start, d).output + o.rendered.output, ..entered(start, d) }
            },
            saved_path(start, d),
        )
    }
}

/// Expands one partial directive.
///
/// The directive's body, where it has one, is evaluated first, and an error
/// of that is returned as it is. A directive that names the template being
/// rendered is refused. The template is then looked up as `resolve` says;
/// where no source has it nothing happens and the expansion succeeds. The
/// template found is rendered in the directive's scope, against a branch of
/// the context where the directive has named parameters, and its result is
/// returned once the scope is left.
///
/// What is decided here alone is stated outright: a directive without a body
/// that names the current template fails and changes nothing; one whose name
/// no source has succeeds and changes nothing; one with named parameters
/// changes nothing of the context but the text written.
///
/// The rest depends on what the templates do, and is stated for every way in
/// which they may behave. `o` stands for what the two templates involved did:
/// each of the two calls is one that the template's own contract allows for
/// the context handed over, and `expansion` gives context and result from
/// there. Two consequences are spelled out. Where evaluating and rendering a
/// template always hand the context back with the path and the local
/// variables that they found, so does the expansion. And a directive that
/// names the current template fails with `RecursiveInclusion` where the
/// evaluation of its body succeeds and keeps the current template.
pub fn expand_partial<T: Evaluable + Renderable + Clone>(
    d: &Directive<T>,
    registry: &Registry<T>,
    rc: &mut RenderContext<T>,
) -> (res: Result<(), RenderError>)
    ensures
        d@.template is None && old(rc)@.current_template == Some(d@.name) ==> res == Err::<
            (),
            RenderError,
        >(RenderError::RecursiveInclusion) && *final(rc) == *old(rc),
        d@.template is None && old(rc)@.current_template != Some(d@.name) && source_of(
            old(rc)@.partials,
            registry@,
            d@.template,
            d@.name,
        ) is None ==> res == Ok::<(), RenderError>(()) && *final(rc) == *old(rc),
        d@.template is None && d@.hash.len() > 0 ==> final(rc)@ == (RenderState {
            output: final(rc)@.output,
            ..old(rc)@
        }),
        exists|o: Outcomes<T>|
            {
                &&& #[trigger] expansion(d@, registry@, old(rc)@, o, final(rc)@, res)
                &&& d@.template is Some ==> exists|m: &mut RenderContext<T>|
                    *m == *old(rc) && (*final(m))@ == o.evaluated && #[trigger] call_ensures(
                        T::eval,
                        (&d@.template->Some_0, registry, m),
                        o.eval_result,
                    )
                &&& renders(d@, registry@, old(rc)@, o) ==> exists|m: &mut RenderContext<T>|
                    (*m)@ == o.handed && (*final(m))@ == o.rendered && #[trigger] call_ensures(
                        T::render,
                        (&o.template, registry, m),
                        o.render_result,
                    )
            },
        ({
            &&& forall|t: T, r: &Registry<T>, m: &mut RenderContext<T>, out: Result<(), RenderError>|
                #[trigger] call_ensures(T::eval, (&t, r, m), out) ==> {
                    &&& (*final(m))@.path == (*m)@.path
                    &&& (*final(m))@.local_vars == (*m)@.local_vars
                }
            &&& forall|t: T, r: &Registry<T>, m: &mut RenderContext<T>, out: Result<(), RenderError>|
                #[trigger] call_ensures(T::render, (&t, r, m), out) ==> {
                    &&& (*final(m))@.path == (*m)@.path
                    &&& (*final(m))@.local_vars == (*m)@.local_vars
                }
        }) ==> final(rc)@.path == old(rc)@.path && final(rc)@.local_vars == old(rc)@.local_vars,
        old(rc)@.current_template == Some(d@.name) && (d@.template is Some ==> forall|
            r: &Registry<T>,
            m: &mut RenderContext<T>,
            out: Result<(), RenderError>,
        | #[trigger]
            call_ensures(T::eval, (&d@.template->Some_0, r, m), out) ==> {
                &&& out is Ok
                &&& (*final(m))@.current_template == (*m)@.current_template
            }) ==> res == Err::<(), RenderError>(RenderError::RecursiveInclusion),
{
    let ghost before = rc@;
    let ghost mut o: Outcomes<T> = arbitrary();
    match d.template() {
        Some(body) => {
            let outcome = body.eval(registry, rc);
            proof {
                o = Outcomes { evaluated: rc@, eval_result: outcome, ..o };
            }
            assert(exists|m: &mut RenderContext<T>|
                *m == *old(rc) && (*final(m))@ == o.evaluated && #[trigger] call_ensures(
                    T::eval,
                    (&d@.template->Some_0, registry, m),
                    o.eval_result,
                ));
            match outcome {
                Err(e) => {
                    let res = Err(e);
                    assert(expansion(d@, registry@, before, o, rc@, res));
                    return res;
                },
                Ok(_) => {},
            }
        },
        None => {},
    }
    if rc.is_current_template(d.name()) {
        let res = Err(RenderError::RecursiveInclusion);
        assert(expansion(d@, registry@, before, o, rc@, res));
        return res;
    }
    let ghost start = rc@;
    let resolved = resolve(d, registry, rc);
    match resolved.template() {
        None => {
            let res = Ok(());
            assert(expansion(d@, registry@, before, o, rc@, res));
            res
        },
        Some(t) => {
            let saved = enter_scope(d, rc);
            let res = if d.hash().len() == 0 {
                let ghost handed = rc@;
                let res = t.render(registry, rc);
                proof {
                    o = Outcomes { template: *t, handed, rendered: rc@, render_result: res, ..o };
                }
                assert(exists|m: &mut RenderContext<T>|
                    (*m)@ == o.handed && (*final(m))@ == o.rendered && #[trigger] call_ensures(
                        T::render,
                        (&o.template, registry, m),
                        o.render_result,
                    ));
                res
            } else {
                let mut local = branch(d, rc);
                let ghost handed = local@;
                let res = t.render(registry, &mut local);
                proof {
                    o = Outcomes { template: *t, handed, rendered: local@, render_result: res, ..o };
                }
                assert(exists|m: &mut RenderContext<T>|
                    (*m)@ == o.handed && (*final(m))@ == o.rendered && #[trigger] call_ensures(
                        T::render,
                        (&o.template, registry, m),
                        o.render_result,
                    ));
                rc.write(local.output().as_str());
                res
            };
            leave_scope(rc, saved);
            proof {
                lemma_scope_round_trip(start, d@);
                if d@.hash.len() > 0 && d@.context_path() is Some {
                    assert(crate::context::popped(start.local_vars.push(Seq::empty()))
                        =~= start.local_vars);
                }
            }
            assert(expansion(d@, registry@, before, o, rc@, res));
            res
        },
    }
}

/// A runtime partial is preferred to a registered template of the same name.
pub proof fn lemma_runtime_partial_first<T>(
    partials: Seq<(Seq<char>, T)>,
    registered: Seq<(Seq<char>, T)>,
    inline: Option<T>,
    name: Seq<char>,
)
    requires
        crate::keyed::lookup(partials, name) is Some,
        crate::keyed::lookup(registered, name) is Some,
    ensures
        source_of(partials, registered, inline, name) == Some(Source::Runtime),
        selected(partials, registered, inline, name) == crate::keyed::lookup(partials, name),
{
}

/// A directive that names the template being rendered fails with
/// `RecursiveInclusion`, whatever the sources hold for the name. Where the
/// directive has a body this is said of the expansions in which the
/// evaluation of the body succeeds and leaves the current template as it is:
/// that evaluation comes first and its error is the one returned.
pub proof fn lemma_self_inclusion_refused<T: Clone>(
    d: DirectiveView<T>,
    registry: Seq<(Seq<char>, T)>,
    before: RenderState<T>,
    o: Outcomes<T>,
    after: RenderState<T>,
    res: Result<(), RenderError>,
)
    requires
        expansion(d, registry, before, o, after, res),
        before.current_template == Some(d.name),
        d.template is Some ==> o.eval_result is Ok && o.evaluated.current_template
            == before.current_template,
    ensures
        res == Err::<(), RenderError>(RenderError::RecursiveInclusion),
        after == started(d, before, o),
{
}

/// Where no source has the directive's name, the expansion succeeds and
/// changes nothing: in particular nothing is written. This is said of the
/// directives that do not name the template being rendered, which are
/// refused before the name is looked up.
pub proof fn lemma_missing_partial_ignored<T: Clone>(
    d: DirectiveView<T>,
    registry: Seq<(Seq<char>, T)>,
    before: RenderState<T>,
    o: Outcomes<T>,
    after: RenderState<T>,
    res: Result<(), RenderError>,
)
    requires
        expansion(d, registry, before, o, after, res),
        source_of(before.partials, registry, d.template, d.name) is None,
        before.current_template != Some(d.name),
    ensures
        res == Ok::<(), RenderError>(()),
        after == before,
{
}

/// Leaving the scope that a directive entered puts the context back as it
/// was.
pub proof fn lemma_scope_round_trip<T>(s: RenderState<T>, d: DirectiveView<T>)
    ensures
        left(entered(s, d), saved_path(s, d)) == s,
{
    if d.context_path() is Some {
        assert(crate::context::popped(s.local_vars.push(Seq::empty())) =~= s.local_vars);
    }
}

/// After an expansion the path and the local variables are what they were
/// before it, whether it succeeded, did nothing or failed. This is said of
/// the expansions in which the templates themselves hand the context back
/// with the path and the local variables that they found: the evaluation of
/// the directive's body, and the rendering of the partial where it is
/// rendered against the context itself.
pub proof fn lemma_scope_restored<T: Clone>(
    d: DirectiveView<T>,
    registry: Seq<(Seq<char>, T)>,
    before: RenderState<T>,
    o: Outcomes<T>,
    after: RenderState<T>,
    res: Result<(), RenderError>,
)
    requires
        expansion(d, registry, before, o, after, res),
        d.template is Some ==> o.evaluated.path == before.path && o.evaluated.local_vars
            == before.local_vars,
        renders(d, registry, before, o) && d.hash.len() == 0 ==> o.rendered.path == o.handed.path
            && o.rendered.local_vars == o.handed.local_vars,
    ensures
        after.path == before.path,
        after.local_vars == before.local_vars,
{
    let start = started(d, before, o);
    lemma_scope_round_trip(start, d);
    if renders(d, registry, before, o) && d.context_path() is Some {
        assert(crate::context::popped(start.local_vars.push(Seq::empty())) =~= start.local_vars);
    }
}

/// In the branch that a partial with named parameters is rendered against,
/// a field of the data is the named parameter of that name where there is
/// one, and the field of the caller's data otherwise. No name occurs twice
/// among the named parameters of a directive.
pub proof fn lemma_named_parameters_bound<T: Clone>(
    s: RenderState<T>,
    d: DirectiveView<T>,
    branch: RenderState<T>,
    key: Seq<char>,
)
    requires
        branched(s, d, branch),
        crate::keyed::distinct(crate::keyed::keys(d.hash)),
    ensures
        branch.data.field(key) == match crate::keyed::lookup(d.hash, key) {
            Some(param) => Some(param.value),
            None => s.data.field(key),
        },
{
    assert(crate::keyed::keys(d.bindings()) =~= crate::keyed::keys(d.hash));
    crate::keyed::lemma_lookup_put_all(s.data.fields(), d.bindings(), key);
    crate::keyed::lemma_position_is_first(crate::keyed::keys(d.hash), key);
}

/// In the branch that a partial with named parameters is rendered against,
/// a name is looked up in the source in which the caller's context would
/// find it.
pub proof fn lemma_branch_resolves_alike<T: Clone>(
    s: RenderState<T>,
    d: DirectiveView<T>,
    branch: RenderState<T>,
    registry: Seq<(Seq<char>, T)>,
    inline: Option<T>,
    name: Seq<char>,
)
    requires
        branched(s, d, branch),
    ensures
        source_of(branch.partials, registry, inline, name) == source_of(
            s.partials,
            registry,
            inline,
            name,
        ),
{
    crate::context::lemma_lookup_clones(s.partials, branch.partials, name);
}

/// The expansion of a directive with named parameters leaves the context as
/// it found it, but for the text written: what the partial does to the data,
/// the local variables and the registered partials stays in the branch.
/// Where the directive has a body, the context it found is the one that the
/// evaluation of the body left.
pub proof fn lemma_named_parameters_isolated<T: Clone>(
    d: DirectiveView<T>,
    registry: Seq<(Seq<char>, T)>,
    before: RenderState<T>,
    o: Outcomes<T>,
    after: RenderState<T>,
    res: Result<(), RenderError>,
)
    requires
        expansion(d, registry, before, o, after, res),
        d.hash.len() > 0,
    ensures
        after == (RenderState { output: after.output, ..started(d, before, o) }),
        d.template is None ==> after.data == before.data,
        renders(d, registry, before, o) ==> after.output == started(d, before, o).output
            + o.rendered.output,
        !renders(d, registry, before, o) ==> after.output == started(d, before, o).output,
{
    let start = started(d, before, o);
    lemma_scope_round_trip(start, d);
    if renders(d, registry, before, o) && d.context_path() is Some {
        assert(crate::context::popped(start.local_vars.push(Seq::empty())) =~= start.local_vars);
    }
}

} // verus!
