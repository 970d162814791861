//! The values a document holds.
use vstd::prelude::*;
use crate::api::firebase::json::{names_distinct, Number};
use crate::utils::text::str_eq;

verus! {

/// A value stored in a document: a tree of scalars, arrays and named fields.
///
/// Whether a number is an integer or a double is part of the value. The wire
/// format cannot recover the difference from a bare number, so it is fixed
/// here, where the value is made.
#[derive(Debug, PartialEq, Eq)]
pub enum DocumentValue {
    Null,
    Bool(bool),
    Number(Number),
    Text(String),
    /// A point in time, as RFC 3339 text.
    Timestamp(String),
    Array(Vec<DocumentValue>),
    /// Named fields, in the order they were given.
    Fields(Vec<(String, DocumentValue)>),
}

/// The mathematical value of a [`DocumentValue`].
pub enum ValueModel {
    Null,
    Bool(bool),
    Number(Number),
    Text(Seq<char>),
    Timestamp(Seq<char>),
    Array(Seq<ValueModel>),
    Fields(Seq<(Seq<char>, ValueModel)>),
}

impl ValueModel {
    /// Whether the value is a proper document value: wherever it holds
    /// named fields, at every depth, each name occurs once.
    pub open spec fn well_formed(self) -> bool
        decreases self,
    {
        match self {
            ValueModel::Array(items) => forall|i: int|
                0 <= i < items.len() ==> (#[trigger] items[i]).well_formed(),
            ValueModel::Fields(members) => names_distinct(members) && forall|i: int|
                0 <= i < members.len() ==> (#[trigger] members[i]).1.well_formed(),
            _ => true,
        }
    }
}

/// An item of a proper array is proper, and so is the value of a field
/// of proper named fields.
pub proof fn lemma_parts_well_formed(value: ValueModel, i: int)
    requires
        value.well_formed(),
    ensures
        value matches ValueModel::Array(items) ==> (0 <= i < items.len() ==> items[i].well_formed()),
        value matches ValueModel::Fields(members) ==> (0 <= i < members.len()
            ==> members[i].1.well_formed()),
{
}

/// The mathematical value of a document value.
pub open spec fn value_model(value: DocumentValue) -> ValueModel
    decreases value,
{
    match value {
        DocumentValue::Null => ValueModel::Null,
        DocumentValue::Bool(b) => ValueModel::Bool(b),
        DocumentValue::Number(n) => ValueModel::Number(n),
        DocumentValue::Text(s) => ValueModel::Text(s@),
        DocumentValue::Timestamp(s) => ValueModel::Timestamp(s@),
        DocumentValue::Array(items) => ValueModel::Array(
            Seq::new(
                items@.len(),
                |i: int|
                    if 0 <= i < items@.len() {
                        value_model(items@[i])
                    } else {
                        ValueModel::Null
                    },
            ),
        ),
        DocumentValue::Fields(members) => ValueModel::Fields(
            Seq::new(
                members@.len(),
                |i: int|
                    if 0 <= i < members@.len() {
                        (members@[i].0@, value_model(members@[i].1))
                    } else {
                        (Seq::empty(), ValueModel::Null)
                    },
            ),
        ),
    }
}

impl View for DocumentValue {
    type V = ValueModel;

    open spec fn view(&self) -> ValueModel {
        value_model(*self)
    }
}

/// The models of a vector of values.
pub open spec fn values_model(items: Seq<DocumentValue>) -> Seq<ValueModel> {
    Seq::new(items.len(), |i: int| items[i]@)
}

/// The models of a run of named fields.
pub open spec fn fields_model(members: Seq<(String, DocumentValue)>) -> Seq<
    (Seq<char>, ValueModel),
> {
    Seq::new(members.len(), |i: int| (members[i].0@, members[i].1@))
}

/// The names of a run of fields, in order.
pub open spec fn field_names<T>(members: Seq<(Seq<char>, T)>) -> Seq<Seq<char>> {
    Seq::new(members.len(), |i: int| members[i].0)
}

/// The view of an array is the views of its items.
pub proof fn lemma_array_value_view(items: Vec<DocumentValue>)
    ensures
        DocumentValue::Array(items)@ == ValueModel::Array(values_model(items@)),
{
    assert(DocumentValue::Array(items)@->Array_0 =~= values_model(items@));
}

/// The view of a run of fields is the views of its members.
pub proof fn lemma_fields_value_view(members: Vec<(String, DocumentValue)>)
    ensures
        DocumentValue::Fields(members)@ == ValueModel::Fields(fields_model(members@)),
{
    assert(DocumentValue::Fields(members)@->Fields_0 =~= fields_model(members@));
}

impl DocumentValue {
    /// A text value with the characters of `s`.
    pub fn text(s: &str) -> (value: DocumentValue)
        ensures
            value@ == ValueModel::Text(s@),
    {
        DocumentValue::Text(s.to_string())
    }

    /// A timestamp with the given RFC 3339 text.
    pub fn timestamp(rfc3339: &str) -> (value: DocumentValue)
        ensures
            value@ == ValueModel::Timestamp(rfc3339@),
    {
        DocumentValue::Timestamp(rfc3339.to_string())
    }

    /// An integer value.
    pub fn integer(n: i64) -> (value: DocumentValue)
        ensures
            value@ == ValueModel::Number(Number::Integer(n)),
    {
        DocumentValue::Number(Number::Integer(n))
    }

    /// A double, given by its IEEE-754 bit pattern.
    pub fn double_from_bits(bits: u64) -> (value: DocumentValue)
        ensures
            value@ == ValueModel::Number(Number::Double(bits)),
    {
        DocumentValue::Number(Number::Double(bits))
    }

    /// Whether each name occurs once wherever the value holds named fields.
    pub fn is_well_formed(&self) -> (proper: bool)
        ensures
            proper == self@.well_formed(),
        decreases self,
    {
        match self {
            DocumentValue::Array(items) => {
                proof {
                    lemma_array_value_view(*items);
                }
                let mut i: usize = 0;
                while i < items.len()
                    invariant
                        i <= items.len(),
                        self == DocumentValue::Array(*items),
                        self@ == ValueModel::Array(values_model(items@)),
                        forall|k: int| 0 <= k < i ==> (#[trigger] items@[k])@.well_formed(),
                    decreases items.len() - i,
                {
                    proof {
                        assert(decreases_to!(self => self->Array_0));
                        assert(decreases_to!(*items => items[i as int]));
                    }
                    if !items[i].is_well_formed() {
                        assert(values_model(items@)[i as int] == items@[i as int]@);
                        let ghost model = values_model(items@);
                        assert(0 <= i < model.len());
                        assert(!model[i as int].well_formed());
                        proof {
                            if ValueModel::Array(model).well_formed() {
                                lemma_parts_well_formed(ValueModel::Array(model), i as int);
                            }
                        }
                        return false;
                    }
                    i += 1;
                }
                assert forall|k: int| 0 <= k < values_model(items@).len() implies (
                #[trigger] values_model(items@)[k]).well_formed() by {
                    assert(items@[k]@.well_formed());
                }
                true
            },
            DocumentValue::Fields(members) => {
                proof {
                    lemma_fields_value_view(*members);
                }
                let ghost model = fields_model(members@);
                let mut i: usize = 0;
                while i < members.len()
                    invariant
                        i <= members.len(),
                        self == DocumentValue::Fields(*members),
                        self@ == ValueModel::Fields(model),
                        model == fields_model(members@),
                        forall|k: int| 0 <= k < i ==> (#[trigger] members@[k]).1@.well_formed(),
                        forall|a: int, b: int| 0 <= a < b < i ==> model[a].0 != model[b].0,
                    decreases members.len() - i,
                {
                    proof {
                        assert(decreases_to!(self => self->Fields_0));
                        assert(decreases_to!(*members => members[i as int]));
                        assert(decreases_to!(members[i as int] => members[i as int].1));
                        assert(model[i as int] == (members@[i as int].0@, members@[i as int].1@));
                    }
                    if !members[i].1.is_well_formed() {
                        assert(!model[i as int].1.well_formed());
                        return false;
                    }
                    let mut j: usize = 0;
                    while j < i
                        invariant
                            j <= i < members.len(),
                            model == fields_model(members@),
                            self@ == ValueModel::Fields(model),
                            forall|a: int| 0 <= a < j ==> model[a].0 != model[i as int].0,
                        decreases i - j,
                    {
                        assert(model[j as int] == (members@[j as int].0@, members@[j as int].1@));
                        assert(model[i as int] == (members@[i as int].0@, members@[i as int].1@));
                        if str_eq(members[j].0.as_str(), members[i].0.as_str()) {
                            assert(model[j as int].0 == model[i as int].0);
                            assert(!names_distinct(model));
                            return false;
                        }
                        j += 1;
                    }
                    i += 1;
                }
                assert forall|k: int| 0 <= k < model.len() implies (#[trigger] model[k]).1.well_formed() by {
                    assert(members@[k].1@.well_formed());
                }
                true
            },
            _ => true,
        }
    }

    /// A copy of the whole value.
    pub fn deep_clone(&self) -> (copy: DocumentValue)
        ensures
            copy@ == self@,
        decreases self,
    {
        match self {
            DocumentValue::Null => DocumentValue::Null,
            DocumentValue::Bool(b) => DocumentValue::Bool(*b),
            DocumentValue::Number(n) => DocumentValue::Number(*n),
            DocumentValue::Text(s) => DocumentValue::Text(s.clone()),
            DocumentValue::Timestamp(s) => DocumentValue::Timestamp(s.clone()),
            DocumentValue::Array(items) => {
                let mut out: Vec<DocumentValue> = Vec::new();
                let mut i: usize = 0;
                while i < items.len()
                    invariant
                        i <= items.len(),
                        out@.len() == i,
                        self == DocumentValue::Array(*items),
                        forall|k: int| 0 <= k < i ==> out@[k]@ == items@[k]@,
                    decreases items.len() - i,
                {
                    proof {
                        assert(decreases_to!(self => self->Array_0));
                        assert(decreases_to!(*items => items[i as int]));
                    }
                    out.push(items[i].deep_clone());
                    i += 1;
                }
                proof {
                    lemma_array_value_view(*items);
                    lemma_array_value_view(out);
                    assert(values_model(out@) =~= values_model(items@));
                }
                DocumentValue::Array(out)
            },
            DocumentValue::Fields(members) => {
                let mut out: Vec<(String, DocumentValue)> = Vec::new();
                let mut i: usize = 0;
                while i < members.len()
                    invariant
                        i <= members.len(),
                        out@.len() == i,
                        self == DocumentValue::Fields(*members),
                        forall|k: int|
                            0 <= k < i ==> out@[k].0@ == members@[k].0@ && out@[k].1@
                                == members@[k].1@,
                    decreases members.len() - i,
                {
                    proof {
                        assert(decreases_to!(self => self->Fields_0));
                        assert(decreases_to!(*members => members[i as int]));
                        assert(decreases_to!(members[i as int] => members[i as int].1));
                    }
                    out.push((members[i].0.clone(), members[i].1.deep_clone()));
                    i += 1;
                }
                proof {
                    lemma_fields_value_view(*members);
                    lemma_fields_value_view(out);
                    assert(fields_model(out@) =~= fields_model(members@));
                }
                DocumentValue::Fields(out)
            },
        }
    }
}

} // verus!
