//! The decoded value model: a JSON-shaped tree of strings, numbers,
//! booleans, arrays and key-value objects.

use vstd::prelude::*;

verus! {

broadcast use vstd::std_specs::vec::group_vec_axioms;

/// The mathematical shape of a decoded value: strings as character
/// sequences, containers as sequences of models.
pub enum ValueModel {
    Text(Seq<char>),
    Number(Seq<char>),
    Bool(bool),
    Array(Seq<ValueModel>),
    Object(Seq<(Seq<char>, ValueModel)>),
}

/// A decoded value.
///
/// A number is kept as its validated decimal literal; an object keeps
/// every key-value pair in encounter order, duplicate keys included
/// (the consumer chooses how to resolve duplicates).
#[derive(Debug, PartialEq, Eq)]
pub enum Value {
    Text(String),
    Number(String),
    Bool(bool),
    Array(Vec<Value>),
    Object(Vec<(String, Value)>),
}

/// The models of a sequence of nodes, element by element.
pub open spec fn models_of(vs: Seq<Value>) -> Seq<ValueModel>
    decreases vs,
{
    if vs.len() == 0 {
        Seq::empty()
    } else {
        models_of(vs.drop_last()).push(vs.last().model())
    }
}

/// The models of a sequence of key-value pairs, element by element.
pub open spec fn pair_models_of(ps: Seq<(String, Value)>) -> Seq<(Seq<char>, ValueModel)>
    decreases ps,
{
    if ps.len() == 0 {
        Seq::empty()
    } else {
        pair_models_of(ps.drop_last()).push((ps.last().0@, ps.last().1.model()))
    }
}

impl Value {
    /// The abstract value this node stands for.
    pub open spec fn model(self) -> ValueModel
        decreases self,
    {
        match self {
            Value::Text(s) => ValueModel::Text(s@),
            Value::Number(s) => ValueModel::Number(s@),
            Value::Bool(b) => ValueModel::Bool(b),
            Value::Array(vs) => ValueModel::Array(models_of(vs@)),
            Value::Object(ps) => ValueModel::Object(pair_models_of(ps@)),
        }
    }
}

/// `models_of` maps the sequence element by element.
pub proof fn lemma_models_of(vs: Seq<Value>)
    ensures
        models_of(vs).len() == vs.len(),
        forall|i: int| 0 <= i < vs.len() ==> models_of(vs)[i] == vs[i].model(),
    decreases vs.len(),
{
    if vs.len() > 0 {
        lemma_models_of(vs.drop_last());
    }
}

/// `pair_models_of` maps the sequence element by element.
pub proof fn lemma_pair_models_of(ps: Seq<(String, Value)>)
    ensures
        pair_models_of(ps).len() == ps.len(),
        forall|i: int| 0 <= i < ps.len() ==> pair_models_of(ps)[i] == (ps[i].0@, ps[i].1.model()),
    decreases ps.len(),
{
    if ps.len() > 0 {
        lemma_pair_models_of(ps.drop_last());
    }
}

/// Appending one node appends its model.
pub proof fn lemma_models_of_push(vs: Seq<Value>, v: Value)
    ensures
        models_of(vs.push(v)) == models_of(vs).push(v.model()),
{
    assert(vs.push(v).drop_last() =~= vs);
}

/// Appending one pair appends its model.
pub proof fn lemma_pair_models_of_push(ps: Seq<(String, Value)>, k: String, v: Value)
    ensures
        pair_models_of(ps.push((k, v))) == pair_models_of(ps).push((k@, v.model())),
{
    assert(ps.push((k, v)).drop_last() =~= ps);
}

} // verus!
