//! A partial directive as the parser hands it over: the name it refers to,
//! the body written between its tags, and its parameters, already evaluated.

use vstd::prelude::*;
use crate::keyed::bind;
use crate::value::{Tree, Value};

verus! {

/// One evaluated parameter of a directive.
#[derive(Debug, PartialEq, Eq)]
pub struct Parameter {
    path: Option<String>,
    value: Value,
}

/// What a `Parameter` stands for.
pub struct ParameterView {
    /// The path that the parameter was written as, where it was a path.
    pub path: Option<Seq<char>>,
    /// What the parameter evaluated to.
    pub value: Tree,
}

impl View for Parameter {
    type V = ParameterView;

    closed spec fn view(&self) -> ParameterView {
        ParameterView {
            path: match self.path {
                Some(p) => Some(p@),
                None => None,
            },
            value: self.value@,
        }
    }
}

impl Parameter {
    /// A parameter that was written as a literal.
    pub fn literal(value: Value) -> (res: Parameter)
        ensures
            res@ == (ParameterView { path: None, value: value@ }),
    {
        Parameter { path: None, value }
    }

    /// A parameter that was written as the path `path` and evaluated to
    /// `value`.
    pub fn from_path(path: String, value: Value) -> (res: Parameter)
        ensures
            res@ == (ParameterView { path: Some(path@), value: value@ }),
    {
        Parameter { path: Some(path), value }
    }

    /// The path that the parameter was written as, where it was a path.
    pub fn path(&self) -> (res: Option<&String>)
        ensures
            match res {
                Some(p) => self@.path == Some(p@),
                None => self@.path is None,
            },
    {
        match &self.path {
            Some(p) => Some(p),
            None => None,
        }
    }

    /// What the parameter evaluated to.
    pub fn value(&self) -> (res: &Value)
        ensures
            res@ == self@.value,
    {
        &self.value
    }
}

/// What a list of parameters stands for.
pub open spec fn params_view(params: Seq<Parameter>) -> Seq<ParameterView> {
    Seq::new(params.len(), |i: int| params[i]@)
}

/// What a table of named parameters stands for.
pub open spec fn hash_view(hash: Seq<(String, Parameter)>) -> Seq<(Seq<char>, ParameterView)> {
    Seq::new(hash.len(), |i: int| (hash[i].0@, hash[i].1@))
}

/// The values of a table of named parameters, each under its name.
pub open spec fn hash_values(hash: Seq<(Seq<char>, ParameterView)>) -> Seq<(Seq<char>, Tree)> {
    Seq::new(hash.len(), |i: int| (hash[i].0, hash[i].1.value))
}

/// One invocation of a partial.
pub struct Directive<T> {
    name: String,
    template: Option<T>,
    params: Vec<Parameter>,
    hash: Vec<(String, Parameter)>,
}

/// What a `Directive` stands for.
pub struct DirectiveView<T> {
    /// The name of the partial.
    pub name: Seq<char>,
    /// The body between the directive's tags, where it has one.
    pub template: Option<T>,
    /// The positional parameters, in order.
    pub params: Seq<ParameterView>,
    /// The named parameters; no name occurs twice.
    pub hash: Seq<(Seq<char>, ParameterView)>,
}

impl<T> DirectiveView<T> {
    /// The path by which the directive moves the context: that of its first
    /// positional parameter, where it has one and it was written as a path.
    pub open spec fn context_path(self) -> Option<Seq<char>> {
        if self.params.len() > 0 {
            self.params[0].path
        } else {
            None
        }
    }

    /// The bindings that the named parameters add to the data.
    pub open spec fn bindings(self) -> Seq<(Seq<char>, Tree)> {
        hash_values(self.hash)
    }
}

impl<T> View for Directive<T> {
    type V = DirectiveView<T>;

    closed spec fn view(&self) -> DirectiveView<T> {
        DirectiveView {
            name: self.name@,
            template: self.template,
            params: params_view(self.params@),
            hash: hash_view(self.hash@),
        }
    }
}

impl<T> Directive<T> {
    #[verifier::type_invariant]
    spec fn unique_hash_names(self) -> bool {
        crate::keyed::distinct(crate::keyed::names(self.hash@))
    }

    /// A directive for the partial `name`, without body and parameters.
    pub fn new(name: String) -> (res: Directive<T>)
        ensures
            res@ == (DirectiveView::<T> {
                name: name@,
                template: None,
                params: Seq::empty(),
                hash: Seq::empty(),
            }),
    {
        let res = Directive { name, template: None, params: Vec::new(), hash: Vec::new() };
        assert(res@.params =~= Seq::empty());
        assert(res@.hash =~= Seq::empty());
        res
    }

    /// The directive with `template` as its body.
    pub fn with_template(self, template: T) -> (res: Directive<T>)
        ensures
            res@ == (DirectiveView { template: Some(template), ..self@ }),
    {
        proof {
            use_type_invariant(&self);
        }
        Directive { name: self.name, template: Some(template), params: self.params, hash: self.hash }
    }

    /// The directive with `param` as one more positional parameter.
    pub fn with_param(self, param: Parameter) -> (res: Directive<T>)
        ensures
            res@ == (DirectiveView { params: self@.params.push(param@), ..self@ }),
    {
        proof {
            use_type_invariant(&self);
        }
        let mut params = self.params;
        params.push(param);
        let res = Directive { name: self.name, template: self.template, params, hash: self.hash };
        assert(res@.params =~= self@.params.push(param@));
        res
    }

    /// The directive with the named parameter `key` set to `param`, in place
    /// of a parameter that had the name before.
    pub fn with_hash(self, key: String, param: Parameter) -> (res: Directive<T>)
        ensures
            res@ == (DirectiveView { hash: crate::keyed::put(self@.hash, key@, param@), ..self@ }),
    {
        proof {
            use_type_invariant(&self);
        }
        let mut hash = self.hash;
        let ghost before = hash@;
        bind(&mut hash, key, param);
        proof {
            crate::keyed::lemma_position_is_first(crate::keyed::names(before), key@);
            assert(crate::keyed::keys(hash_view(before)) =~= crate::keyed::names(before));
            assert(hash_view(hash@) =~= crate::keyed::put(hash_view(before), key@, param@));
            crate::keyed::lemma_put_distinct(hash_view(before), key@, param@);
            assert(crate::keyed::keys(hash_view(hash@)) =~= crate::keyed::names(hash@));
        }
        Directive { name: self.name, template: self.template, params: self.params, hash }
    }

    /// The name of the partial.
    pub fn name(&self) -> (res: &String)
        ensures
            res@ == self@.name,
    {
        &self.name
    }

    /// The body between the directive's tags, where it has one.
    pub fn template(&self) -> (res: Option<&T>)
        ensures
            match res {
                Some(t) => self@.template == Some(*t),
                None => self@.template is None,
            },
    {
        match &self.template {
            Some(t) => Some(t),
            None => None,
        }
    }

    /// The positional parameters, in order.
    pub fn params(&self) -> (res: &Vec<Parameter>)
        ensures
            params_view(res@) == self@.params,
    {
        &self.params
    }

    /// The named parameters. No name occurs twice.
    pub fn hash(&self) -> (res: &Vec<(String, Parameter)>)
        ensures
            hash_view(res@) == self@.hash,
            crate::keyed::distinct(crate::keyed::keys(self@.hash)),
    {
        proof {
            use_type_invariant(self);
            assert(crate::keyed::keys(hash_view(self.hash@)) =~= crate::keyed::names(self.hash@));
        }
        &self.hash
    }
}

} // verus!
