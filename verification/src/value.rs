//! The data that templates are rendered against: a tree of scalars, lists
//! and objects.

use vstd::prelude::*;
use crate::keyed::{bind, find};

verus! {

/// A node of the data tree.
#[derive(Debug, PartialEq, Eq)]
pub enum Value {
    Null,
    Bool(bool),
    Number(i64),
    Text(String),
    List(Vec<Value>),
    /// Fields in the order in which they were added; the first field of a
    /// name is the one that `get` finds.
    Object(Vec<(String, Value)>),
}

/// What a `Value` stands for.
pub enum Tree {
    Null,
    Bool(bool),
    Number(int),
    Text(Seq<char>),
    List(Seq<Tree>),
    Object(Seq<(Seq<char>, Tree)>),
}

impl Tree {
    /// The fields of an object; anything else has none.
    pub open spec fn fields(self) -> Seq<(Seq<char>, Tree)> {
        match self {
            Tree::Object(fields) => fields,
            _ => Seq::empty(),
        }
    }

    /// The field `key` of an object.
    pub open spec fn field(self, key: Seq<char>) -> Option<Tree> {
        crate::keyed::lookup(self.fields(), key)
    }

    /// The object that has the fields of `self` shadowed by `bindings`.
    /// Where `self` is no object the result has the bindings alone.
    pub open spec fn extended(self, bindings: Seq<(Seq<char>, Tree)>) -> Tree {
        Tree::Object(crate::keyed::put_all(self.fields(), bindings))
    }
}

/// What a list of values stands for.
pub open spec fn items_view(items: Seq<Value>) -> Seq<Tree> {
    Seq::new(items.len(), |i: int| items[i]@)
}

/// What a table of named values stands for.
pub open spec fn fields_view(fields: Seq<(String, Value)>) -> Seq<(Seq<char>, Tree)> {
    Seq::new(fields.len(), |i: int| (fields[i].0@, fields[i].1@))
}

impl Value {
    /// The tree that this value stands for.
    pub open spec fn tree(&self) -> Tree
        decreases self,
    {
        match self {
            Value::Null => Tree::Null,
            Value::Bool(b) => Tree::Bool(*b),
            Value::Number(n) => Tree::Number(*n as int),
            Value::Text(s) => Tree::Text(s@),
            Value::List(items) => Tree::List(
                Seq::new(
                    items@.len(),
                    |i: int|
                        if 0 <= i < items@.len() {
                            items@[i].tree()
                        } else {
                            Tree::Null
                        },
                ),
            ),
            Value::Object(fields) => Tree::Object(
                Seq::new(
                    fields@.len(),
                    |i: int|
                        if 0 <= i < fields@.len() {
                            (fields@[i].0@, fields@[i].1.tree())
                        } else {
                            (Seq::empty(), Tree::Null)
                        },
                ),
            ),
        }
    }
}

impl View for Value {
    type V = Tree;

    open spec fn view(&self) -> Tree {
        self.tree()
    }
}

/// A list stands for the list of what its items stand for.
pub proof fn lemma_list_view(items: Vec<Value>)
    ensures
        Value::List(items)@ == Tree::List(items_view(items@)),
{
    assert(Value::List(items)@->List_0 =~= items_view(items@));
}

/// An object stands for its fields, each by its name and what it stands for.
pub proof fn lemma_object_view(fields: Vec<(String, Value)>)
    ensures
        Value::Object(fields)@ == Tree::Object(fields_view(fields@)),
{
    assert(Value::Object(fields)@->Object_0 =~= fields_view(fields@));
}

/// A copy of a list of values.
pub fn copy_items(items: &Vec<Value>) -> (res: Vec<Value>)
    ensures
        items_view(res@) == items_view(items@),
    decreases items, 0nat,
{
    let mut out: Vec<Value> = Vec::new();
    let mut i: usize = 0;
    while i < items.len()
        invariant
            i <= items.len(),
            out.len() == i,
            forall|j: int| 0 <= j < i ==> out[j]@ == items[j]@,
        decreases items.len() - i,
    {
        out.push(items[i].clone());
        i += 1;
    }
    assert(items_view(out@) =~= items_view(items@));
    out
}

/// A copy of a table of named values.
pub fn copy_fields(fields: &Vec<(String, Value)>) -> (res: Vec<(String, Value)>)
    ensures
        fields_view(res@) == fields_view(fields@),
    decreases fields, 0nat,
{
    let mut out: Vec<(String, Value)> = Vec::new();
    let mut i: usize = 0;
    while i < fields.len()
        invariant
            i <= fields.len(),
            out.len() == i,
            forall|j: int|
                0 <= j < i ==> out[j].0@ == fields[j].0@ && out[j].1@ == fields[j].1@,
        decreases fields.len() - i,
    {
        out.push((fields[i].0.clone(), fields[i].1.clone()));
        i += 1;
    }
    assert(fields_view(out@) =~= fields_view(fields@));
    out
}

impl Clone for Value {
    /// A deep copy: it stands for the same tree.
    fn clone(&self) -> (res: Value)
        ensures
            res@ == self@,
        decreases self, 1nat,
    {
        match self {
            Value::Null => Value::Null,
            Value::Bool(b) => Value::Bool(*b),
            Value::Number(n) => Value::Number(*n),
            Value::Text(s) => Value::Text(s.clone()),
            Value::List(items) => {
                let out = copy_items(items);
                proof {
                    lemma_list_view(*items);
                    lemma_list_view(out);
                }
                Value::List(out)
            },
            Value::Object(fields) => {
                let out = copy_fields(fields);
                proof {
                    lemma_object_view(*fields);
                    lemma_object_view(out);
                }
                Value::Object(out)
            },
        }
    }
}

impl Value {
    /// The field `key` of an object; `None` for a missing field and for
    /// anything that is no object.
    pub fn get(&self, key: &String) -> (res: Option<&Value>)
        ensures
            match res {
                Some(v) => self@.field(key@) == Some(v@),
                None => self@.field(key@) is None,
            },
    {
        match self {
            Value::Object(fields) => {
                proof {
                    lemma_object_view(*fields);
                    assert(crate::keyed::keys(fields_view(fields@)) =~= crate::keyed::names(
                        fields@,
                    ));
                }
                match find(fields, key) {
                    Some(i) => Some(&fields[i].1),
                    None => None,
                }
            },
            _ => {
                proof {
                    assert(crate::keyed::keys(self@.fields()) =~= Seq::<Seq<char>>::empty());
                }
                None
            },
        }
    }

    /// A new object with the fields of `self` shadowed by `bindings`; `self`
    /// is left as it is. A field that `bindings` names keeps its place and
    /// takes the new value, the other bindings follow in their order. Where
    /// `self` is no object the result holds the bindings alone.
    pub fn extend(&self, bindings: &Vec<(String, Value)>) -> (res: Value)
        ensures
            res@ == self@.extended(fields_view(bindings@)),
            crate::keyed::distinct(crate::keyed::keys(self@.fields())) ==> crate::keyed::distinct(
                crate::keyed::keys(res@.fields()),
            ),
    {
        proof {
            if crate::keyed::distinct(crate::keyed::keys(self@.fields())) {
                crate::keyed::lemma_put_all_distinct(self@.fields(), fields_view(bindings@));
            }
        }
        let mut out: Vec<(String, Value)> = match self {
            Value::Object(fields) => {
                proof {
                    lemma_object_view(*fields);
                }
                copy_fields(fields)
            },
            _ => Vec::new(),
        };
        assert(fields_view(out@) =~= self@.fields());
        let ghost more = fields_view(bindings@);
        let mut i: usize = 0;
        while i < bindings.len()
            invariant
                i <= bindings.len(),
                more == fields_view(bindings@),
                fields_view(out@) == crate::keyed::put_all(self@.fields(), more.subrange(0, i as int)),
            decreases bindings.len() - i,
        {
            let ghost before = out@;
            let key = bindings[i].0.clone();
            let value = bindings[i].1.clone();
            bind(&mut out, key, value);
            proof {
                let head = more.subrange(0, i + 1);
                assert(head.drop_last() =~= more.subrange(0, i as int));
                assert(head.last() == more[i as int]);
                lemma_bind_view(before, out@, key, value);
            }
            i += 1;
        }
        assert(more.subrange(0, more.len() as int) =~= more);
        proof {
            lemma_object_view(out);
        }
        Value::Object(out)
    }
}

/// What `bind` does to a table of named values, said of what they stand for.
pub proof fn lemma_bind_view(
    before: Seq<(String, Value)>,
    after: Seq<(String, Value)>,
    key: String,
    value: Value,
)
    requires
        match crate::keyed::position(crate::keyed::names(before), key@) {
            Some(i) => after == before.update(i, (key, value)),
            None => after == before.push((key, value)),
        },
    ensures
        fields_view(after) == crate::keyed::put(fields_view(before), key@, value@),
{
    assert(crate::keyed::keys(fields_view(before)) =~= crate::keyed::names(before));
    crate::keyed::lemma_position_is_first(crate::keyed::names(before), key@);
    assert(fields_view(after) =~= crate::keyed::put(fields_view(before), key@, value@));
}

} // verus!
