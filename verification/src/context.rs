//! The rendering context: an insertion-ordered map from identifiers to
//! structured values, consumed by the template engine and mutated by actions.

use vstd::prelude::*;

verus! {

broadcast use vstd::std_specs::vec::axiom_vec_index_decreases;

/// A structured value held by the rendering context: a string, an integer,
/// a boolean, an ordered list, or a nested map.
pub enum Value {
    Str(String),
    Int(i64),
    Bool(bool),
    List(Vec<Value>),
    Dict(Vec<(String, Value)>),
}

/// The mathematical model of a `Value`.
#[verifier::ext_equal]
pub enum ValueModel {
    Str(Seq<char>),
    Int(int),
    Bool(bool),
    List(Seq<ValueModel>),
    Dict(Seq<(Seq<char>, ValueModel)>),
}

/// The model of a list value: the models of its items, from `i` on.
pub open spec fn list_model_from(items: &Vec<Value>, i: int) -> Seq<ValueModel>
    decreases items, items@.len() - i, 0int,
{
    if i < 0 || i >= items@.len() {
        Seq::empty()
    } else {
        seq![value_model(&items[i])] + list_model_from(items, i + 1)
    }
}

/// The model of a map value: the models of its entries, from `i` on.
pub open spec fn dict_model_from(entries: &Vec<(String, Value)>, i: int) -> Seq<(Seq<char>, ValueModel)>
    decreases entries, entries@.len() - i, 0int,
{
    if i < 0 || i >= entries@.len() {
        Seq::empty()
    } else {
        seq![(entries[i].0@, value_model(&entries[i].1))] + dict_model_from(entries, i + 1)
    }
}

/// The mathematical model of a value.
pub open spec fn value_model(v: &Value) -> ValueModel
    decreases v, 0int, 1int,
{
    match v {
        Value::Str(s) => ValueModel::Str(s@),
        Value::Int(i) => ValueModel::Int(*i as int),
        Value::Bool(b) => ValueModel::Bool(*b),
        Value::List(items) => ValueModel::List(list_model_from(items, 0)),
        Value::Dict(entries) => ValueModel::Dict(dict_model_from(entries, 0)),
    }
}

impl View for Value {
    type V = ValueModel;

    open spec fn view(&self) -> ValueModel {
        value_model(self)
    }
}

/// Model-level lookup in an ordered association list: the last entry with a
/// matching key wins.
pub open spec fn model_lookup(m: Seq<(Seq<char>, ValueModel)>, key: Seq<char>) -> Option<ValueModel>
    decreases m.len(),
{
    if m.len() == 0 {
        None
    } else if m.last().0 == key {
        Some(m.last().1)
    } else {
        model_lookup(m.drop_last(), key)
    }
}

/// The model of entries `i..` is the entries' keys paired with their values' models.
pub proof fn lemma_dict_model_index(e: &Vec<(String, Value)>, i: int)
    requires
        0 <= i <= e@.len(),
    ensures
        dict_model_from(e, i).len() == e@.len() - i,
        forall|j: int|
            i <= j < e@.len() ==> dict_model_from(e, i)[j - i] == (e@[j].0@, value_model(&e@[j].1)),
    decreases e@.len() - i,
{
    if i < e@.len() {
        lemma_dict_model_index(e, i + 1);
    }
}

/// The model of items `i..` is the sequence of the items' models.
pub proof fn lemma_list_model_index(e: &Vec<Value>, i: int)
    requires
        0 <= i <= e@.len(),
    ensures
        list_model_from(e, i).len() == e@.len() - i,
        forall|j: int| i <= j < e@.len() ==> list_model_from(e, i)[j - i] == value_model(&e@[j]),
    decreases e@.len() - i,
{
    if i < e@.len() {
        lemma_list_model_index(e, i + 1);
    }
}

/// Entry vectors whose elements have equal keys and equal value models have
/// equal dictionary models.
pub proof fn lemma_dict_model_congruence(a: &Vec<(String, Value)>, b: &Vec<(String, Value)>)
    requires
        a@.len() == b@.len(),
        forall|j: int|
            0 <= j < a@.len() ==> a@[j].0@ == b@[j].0@ && value_model(&a@[j].1) == value_model(
                &b@[j].1,
            ),
    ensures
        dict_model_from(a, 0) == dict_model_from(b, 0),
{
    lemma_dict_model_index(a, 0);
    lemma_dict_model_index(b, 0);
    assert forall|j: int| 0 <= j < a@.len() implies dict_model_from(a, 0)[j] == dict_model_from(
        b,
        0,
    )[j] by {
        assert(dict_model_from(a, 0)[j - 0] == (a@[j].0@, value_model(&a@[j].1)));
        assert(dict_model_from(b, 0)[j - 0] == (b@[j].0@, value_model(&b@[j].1)));
    }
    assert(dict_model_from(a, 0) =~= dict_model_from(b, 0));
}

/// Item vectors with pointwise-equal value models have equal list models.
pub proof fn lemma_list_model_congruence(a: &Vec<Value>, b: &Vec<Value>)
    requires
        a@.len() == b@.len(),
        forall|j: int| 0 <= j < a@.len() ==> value_model(&a@[j]) == value_model(&b@[j]),
    ensures
        list_model_from(a, 0) == list_model_from(b, 0),
{
    lemma_list_model_index(a, 0);
    lemma_list_model_index(b, 0);
    assert forall|j: int| 0 <= j < a@.len() implies list_model_from(a, 0)[j] == list_model_from(
        b,
        0,
    )[j] by {
        assert(list_model_from(a, 0)[j - 0] == value_model(&a@[j]));
        assert(list_model_from(b, 0)[j - 0] == value_model(&b@[j]));
    }
    assert(list_model_from(a, 0) =~= list_model_from(b, 0));
}

/// A deep copy of a value, with the same model.
#[verifier::loop_isolation(false)]
pub fn dup_value(v: &Value) -> (r: Value)
    ensures
        value_model(&r) == value_model(v),
    decreases v,
{
    match v {
        Value::Str(s) => Value::Str(s.clone()),
        Value::Int(i) => Value::Int(*i),
        Value::Bool(b) => Value::Bool(*b),
        Value::List(items) => {
            let n = items.len();
            let mut out: Vec<Value> = Vec::new();
            for j in 0..n
                invariant
                    n == items@.len(),
                    out@.len() == j,
                    forall|k: int| 0 <= k < j ==> value_model(&out@[k]) == value_model(&items@[k]),
            {
                proof {
                    vstd::std_specs::vec::axiom_vec_index_decreases(*items, j as int);
                }
                out.push(dup_value(&items[j]));
            }
            proof {
                lemma_list_model_congruence(&out, items);
            }
            Value::List(out)
        },
        Value::Dict(entries) => {
            let n = entries.len();
            let mut out: Vec<(String, Value)> = Vec::new();
            for j in 0..n
                invariant
                    n == entries@.len(),
                    out@.len() == j,
                    forall|k: int|
                        0 <= k < j ==> out@[k].0@ == entries@[k].0@ && value_model(&out@[k].1)
                            == value_model(&entries@[k].1),
            {
                proof {
                    vstd::std_specs::vec::axiom_vec_index_decreases(*entries, j as int);
                }
                let key = entries[j].0.clone();
                let val = dup_value(&entries[j].1);
                out.push((key, val));
            }
            proof {
                lemma_dict_model_congruence(&out, entries);
            }
            Value::Dict(out)
        },
    }
}

/// The rendering context: an insertion-ordered association from identifiers
/// to values. A later entry for the same key shadows an earlier one.
pub struct Context {
    entries: Vec<(String, Value)>,
}

impl View for Context {
    type V = Seq<(Seq<char>, ValueModel)>;

    closed spec fn view(&self) -> Seq<(Seq<char>, ValueModel)> {
        dict_model_from(&self.entries, 0)
    }
}

impl Context {
    /// An empty context.
    pub fn new() -> (r: Context)
        ensures
            r@ == Seq::<(Seq<char>, ValueModel)>::empty(),
    {
        Context { entries: Vec::new() }
    }

    /// The value bound to `key`, when a binding exists.
    pub open spec fn spec_get(&self, key: Seq<char>) -> Option<ValueModel> {
        model_lookup(self@, key)
    }

    /// Binds `key` to `value`, shadowing any earlier binding.
    pub fn insert(&mut self, key: &str, value: Value)
        ensures
            final(self)@ == old(self)@.push((key@, value_model(&value))),
    {
        proof {
            lemma_dict_model_index(&self.entries, 0);
        }
        let ghost old_entries = self.entries;
        let ghost pushed = (key@, value_model(&value));
        self.entries.push((key.to_owned(), value));
        proof {
            lemma_dict_model_index(&old_entries, 0);
            lemma_dict_model_index(&self.entries, 0);
            let a = dict_model_from(&old_entries, 0);
            let b = dict_model_from(&self.entries, 0);
            assert forall|j: int| 0 <= j < b.len() implies b[j] == a.push(pushed)[j] by {
                assert(b[j - 0] == (self.entries@[j].0@, value_model(&self.entries@[j].1)));
                if j < a.len() {
                    assert(a[j - 0] == (old_entries@[j].0@, value_model(&old_entries@[j].1)));
                    assert(self.entries@[j] == old_entries@[j]);
                }
            }
            assert(b =~= a.push(pushed));
        }
    }

    /// Looks `key` up; the last binding wins.
    pub fn get<'a>(&'a self, key: &str) -> (r: Option<&'a Value>)
        ensures
            match r {
                Some(v) => self.spec_get(key@) == Some(value_model(v)),
                None => self.spec_get(key@) is None,
            },
    {
        proof {
            lemma_dict_model_index(&self.entries, 0);
            assert(self@.subrange(0, self@.len() as int) =~= self@);
        }
        let mut i = self.entries.len();
        while i > 0
            invariant
                i <= self.entries@.len(),
                dict_model_from(&self.entries, 0).len() == self.entries@.len(),
                forall|j: int|
                    0 <= j < self.entries@.len() ==> dict_model_from(&self.entries, 0)[j] == (
                        self.entries@[j].0@,
                        value_model(&self.entries@[j].1),
                    ),
                model_lookup(self@.subrange(0, i as int), key@) == model_lookup(self@, key@),
            decreases i,
        {
            i = i - 1;
            if crate::strings::str_eq(self.entries[i].0.as_str(), key) {
                proof {
                    assert(self@.subrange(0, i + 1 as int).last() == (
                        self.entries@[i as int].0@,
                        value_model(&self.entries@[i as int].1),
                    ));
                }
                return Some(&self.entries[i].1);
            }
            proof {
                assert(self@.subrange(0, i + 1 as int).drop_last() =~= self@.subrange(
                    0,
                    i as int,
                ));
            }
        }
        proof {
            assert(self@.subrange(0, 0) =~= Seq::<(Seq<char>, ValueModel)>::empty());
        }
        None
    }

    /// A deep copy of the context, with the same model.
    pub fn duplicate(&self) -> (r: Context)
        ensures
            r@ == self@,
    {
        let n = self.entries.len();
        let mut out: Vec<(String, Value)> = Vec::new();
        for j in 0..n
            invariant
                n == self.entries@.len(),
                out@.len() == j,
                forall|k: int|
                    0 <= k < j ==> out@[k].0@ == self.entries@[k].0@ && value_model(&out@[k].1)
                        == value_model(&self.entries@[k].1),
        {
            let key = self.entries[j].0.clone();
            let val = dup_value(&self.entries[j].1);
            out.push((key, val));
        }
        proof {
            lemma_dict_model_congruence(&out, &self.entries);
        }
        Context { entries: out }
    }
}

/// Looks `key` up inside a dictionary value; `None` on any other value.
pub fn value_dict_get<'a>(v: &'a Value, key: &str) -> (r: Option<&'a Value>)
    ensures
        match value_model(v) {
            ValueModel::Dict(m) => match r {
                Some(inner) => model_lookup(m, key@) == Some(value_model(inner)),
                None => model_lookup(m, key@) is None,
            },
            _ => r is None,
        },
{
    match v {
        Value::Dict(entries) => {
            proof {
                lemma_dict_model_index(entries, 0);
            }
            let ghost m = dict_model_from(entries, 0);
            proof {
                assert(m.subrange(0, m.len() as int) =~= m);
            }
            let mut i = entries.len();
            while i > 0
                invariant
                    i <= entries@.len(),
                    value_model(v) == ValueModel::Dict(m),
                    m == dict_model_from(entries, 0),
                    m.len() == entries@.len(),
                    forall|j: int|
                        0 <= j < entries@.len() ==> m[j] == (
                            entries@[j].0@,
                            value_model(&entries@[j].1),
                        ),
                    model_lookup(m.subrange(0, i as int), key@) == model_lookup(m, key@),
                decreases i,
            {
                i = i - 1;
                if crate::strings::str_eq(entries[i].0.as_str(), key) {
                    proof {
                        assert(m.subrange(0, i + 1 as int).last() == (
                            entries@[i as int].0@,
                            value_model(&entries@[i as int].1),
                        ));
                    }
                    return Some(&entries[i].1);
                }
                proof {
                    assert(m.subrange(0, i + 1 as int).drop_last() =~= m.subrange(0, i as int));
                }
            }
            proof {
                assert(m.subrange(0, 0) =~= Seq::<(Seq<char>, ValueModel)>::empty());
            }
            None
        },
        _ => None,
    }
}

} // verus!
