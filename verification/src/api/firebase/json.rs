//! A plain model of JSON documents, as they travel to and from the store.
use vstd::prelude::*;
use crate::utils::text::str_eq;

verus! {

/// A JSON number together with its kind. The kind belongs to the value: it is
/// chosen where the number is made and never guessed from its digits.
#[derive(Clone, Copy, Debug, PartialEq, Eq)]
pub enum Number {
    /// A 64-bit signed integer.
    Integer(i64),
    /// A double, held as its IEEE-754 bit pattern.
    Double(u64),
}

/// A JSON document. An object keeps its members in the order they were given.
#[derive(Debug, PartialEq, Eq)]
pub enum Json {
    Null,
    Bool(bool),
    Number(Number),
    Text(String),
    Array(Vec<Json>),
    Object(Vec<(String, Json)>),
}

/// The mathematical value of a [`Json`].
pub enum JsonModel {
    Null,
    Bool(bool),
    Number(Number),
    Text(Seq<char>),
    Array(Seq<JsonModel>),
    Object(Seq<(Seq<char>, JsonModel)>),
}

/// The value under the first member named `key`, if there is one.
pub open spec fn lookup<T>(members: Seq<(Seq<char>, T)>, key: Seq<char>) -> Option<T>
    decreases members.len(),
{
    if members.len() == 0 {
        None
    } else if members[0].0 == key {
        Some(members[0].1)
    } else {
        lookup(members.drop_first(), key)
    }
}

/// Whether no two members have the same name.
pub open spec fn names_distinct<T>(members: Seq<(Seq<char>, T)>) -> bool {
    forall|i: int, j: int| 0 <= i < j < members.len() ==> members[i].0 != members[j].0
}

impl JsonModel {
    /// Whether the document is a proper JSON document: in every object, at
    /// every depth, each name occurs once.
    pub open spec fn well_formed(self) -> bool
        decreases self,
    {
        match self {
            JsonModel::Array(items) => forall|i: int|
                0 <= i < items.len() ==> (#[trigger] items[i]).well_formed(),
            JsonModel::Object(members) => names_distinct(members) && forall|i: int|
                0 <= i < members.len() ==> (#[trigger] members[i]).1.well_formed(),
            _ => true,
        }
    }

    /// The member `key` of an object; `None` for anything that is not an
    /// object or has no such member.
    pub open spec fn get(self, key: Seq<char>) -> Option<JsonModel> {
        match self {
            JsonModel::Object(members) => lookup(members, key),
            _ => None,
        }
    }

    /// The characters of a JSON string.
    pub open spec fn as_str(self) -> Option<Seq<char>> {
        match self {
            JsonModel::Text(s) => Some(s),
            _ => None,
        }
    }

    /// The items of a JSON array.
    pub open spec fn as_array(self) -> Option<Seq<JsonModel>> {
        match self {
            JsonModel::Array(items) => Some(items),
            _ => None,
        }
    }

    /// The members of a JSON object.
    pub open spec fn as_object(self) -> Option<Seq<(Seq<char>, JsonModel)>> {
        match self {
            JsonModel::Object(members) => Some(members),
            _ => None,
        }
    }

    /// An object with a single member.
    pub open spec fn single(key: Seq<char>, value: JsonModel) -> JsonModel {
        JsonModel::Object(seq![(key, value)])
    }

    /// An object with two members, in the order given.
    pub open spec fn pair(
        key1: Seq<char>,
        value1: JsonModel,
        key2: Seq<char>,
        value2: JsonModel,
    ) -> JsonModel {
        JsonModel::Object(seq![(key1, value1), (key2, value2)])
    }

    /// An object with three members, in the order given.
    pub open spec fn triple(
        key1: Seq<char>,
        value1: JsonModel,
        key2: Seq<char>,
        value2: JsonModel,
        key3: Seq<char>,
        value3: JsonModel,
    ) -> JsonModel {
        JsonModel::Object(seq![(key1, value1), (key2, value2), (key3, value3)])
    }
}

/// The models of a vector of documents.
pub open spec fn items_model(items: Seq<Json>) -> Seq<JsonModel> {
    Seq::new(items.len(), |i: int| items[i]@)
}

/// The models of the members of an object.
pub open spec fn members_model(members: Seq<(String, Json)>) -> Seq<(Seq<char>, JsonModel)> {
    Seq::new(members.len(), |i: int| (members[i].0@, members[i].1@))
}

/// The mathematical value of a document.
pub open spec fn json_model(json: Json) -> JsonModel
    decreases json,
{
    match json {
        Json::Null => JsonModel::Null,
        Json::Bool(b) => JsonModel::Bool(b),
        Json::Number(n) => JsonModel::Number(n),
        Json::Text(s) => JsonModel::Text(s@),
        Json::Array(items) => JsonModel::Array(
            Seq::new(
                items@.len(),
                |i: int|
                    if 0 <= i < items@.len() {
                        json_model(items@[i])
                    } else {
                        JsonModel::Null
                    },
            ),
        ),
        Json::Object(members) => JsonModel::Object(
            Seq::new(
                members@.len(),
                |i: int|
                    if 0 <= i < members@.len() {
                        (members@[i].0@, json_model(members@[i].1))
                    } else {
                        (Seq::empty(), JsonModel::Null)
                    },
            ),
        ),
    }
}

impl View for Json {
    type V = JsonModel;

    open spec fn view(&self) -> JsonModel {
        json_model(*self)
    }
}

/// The view of an array is the views of its items.
pub proof fn lemma_array_view(items: Vec<Json>)
    ensures
        Json::Array(items)@ == JsonModel::Array(items_model(items@)),
{
    assert(Json::Array(items)@->Array_0 =~= items_model(items@));
}

/// The view of an object is the views of its members.
pub proof fn lemma_object_view(members: Vec<(String, Json)>)
    ensures
        Json::Object(members)@ == JsonModel::Object(members_model(members@)),
{
    assert(Json::Object(members)@->Object_0 =~= members_model(members@));
}

impl Json {
    /// A JSON string with the characters of `s`.
    pub fn text(s: &str) -> (json: Json)
        ensures
            json@ == JsonModel::Text(s@),
    {
        Json::Text(s.to_string())
    }

    /// A JSON integer.
    pub fn integer(n: i64) -> (json: Json)
        ensures
            json@ == JsonModel::Number(Number::Integer(n)),
    {
        Json::Number(Number::Integer(n))
    }

    /// An object with the single member `key`.
    pub fn single(key: &str, value: Json) -> (json: Json)
        ensures
            json@ == JsonModel::single(key@, value@),
    {
        let mut members: Vec<(String, Json)> = Vec::new();
        members.push((key.to_string(), value));
        proof {
            lemma_object_view(members);
            assert(members_model(members@) =~= seq![(key@, value@)]);
        }
        Json::Object(members)
    }

    /// An object with two members, in the order given.
    pub fn pair(key1: &str, value1: Json, key2: &str, value2: Json) -> (json: Json)
        ensures
            json@ == JsonModel::pair(key1@, value1@, key2@, value2@),
    {
        let mut members: Vec<(String, Json)> = Vec::new();
        members.push((key1.to_string(), value1));
        members.push((key2.to_string(), value2));
        proof {
            lemma_object_view(members);
            assert(members_model(members@) =~= seq![(key1@, value1@), (key2@, value2@)]);
        }
        Json::Object(members)
    }

    /// An object with three members, in the order given.
    pub fn triple(
        key1: &str,
        value1: Json,
        key2: &str,
        value2: Json,
        key3: &str,
        value3: Json,
    ) -> (json: Json)
        ensures
            json@ == JsonModel::triple(key1@, value1@, key2@, value2@, key3@, value3@),
    {
        let mut members: Vec<(String, Json)> = Vec::new();
        members.push((key1.to_string(), value1));
        members.push((key2.to_string(), value2));
        members.push((key3.to_string(), value3));
        proof {
            lemma_object_view(members);
            assert(members_model(members@) =~= seq![
                (key1@, value1@),
                (key2@, value2@),
                (key3@, value3@),
            ]);
        }
        Json::Object(members)
    }

    /// An array with the given items.
    pub fn array(items: Vec<Json>) -> (json: Json)
        ensures
            json@ == JsonModel::Array(items_model(items@)),
    {
        proof {
            lemma_array_view(items);
        }
        Json::Array(items)
    }

    /// An object with the given members.
    pub fn object(members: Vec<(String, Json)>) -> (json: Json)
        ensures
            json@ == JsonModel::Object(members_model(members@)),
    {
        proof {
            lemma_object_view(members);
        }
        Json::Object(members)
    }

    /// The member `key` of an object; `None` for anything that is not an
    /// object or has no such member.
    pub fn get(&self, key: &str) -> (found: Option<&Json>)
        ensures
            found matches Some(j) ==> self@.get(key@) == Some(j@),
            found is None ==> self@.get(key@) is None,
    {
        match self {
            Json::Object(members) => {
                proof {
                    lemma_object_view(*members);
                }
                let ghost model = members_model(members@);
                assert(model.skip(0) =~= model);
                let mut i: usize = 0;
                while i < members.len()
                    invariant
                        i <= members.len(),
                        model == members_model(members@),
                        self@ == JsonModel::Object(model),
                        lookup(model, key@) == lookup(model.skip(i as int), key@),
                    decreases members.len() - i,
                {
                    let ghost rest = model.skip(i as int);
                    assert(rest[0] == model[i as int]);
                    assert(rest.drop_first() =~= model.skip(i + 1));
                    if str_eq(members[i].0.as_str(), key) {
                        return Some(&members[i].1);
                    }
                    i += 1;
                }
                None
            },
            _ => None,
        }
    }

    /// The characters of a JSON string.
    pub fn as_str(&self) -> (s: Option<&str>)
        ensures
            s matches Some(t) ==> self@.as_str() == Some(t@),
            s is None ==> self@.as_str() is None,
    {
        match self {
            Json::Text(s) => Some(s.as_str()),
            _ => None,
        }
    }

    /// The items of a JSON array.
    pub fn as_array(&self) -> (items: Option<&Vec<Json>>)
        ensures
            items matches Some(v) ==> self@.as_array() == Some(items_model(v@)),
            items is None ==> self@.as_array() is None,
    {
        match self {
            Json::Array(items) => {
                proof {
                    lemma_array_view(*items);
                }
                Some(items)
            },
            _ => None,
        }
    }

    /// The members of a JSON object.
    pub fn as_object(&self) -> (members: Option<&Vec<(String, Json)>>)
        ensures
            members matches Some(v) ==> self@.as_object() == Some(members_model(v@)),
            members is None ==> self@.as_object() is None,
    {
        match self {
            Json::Object(members) => {
                proof {
                    lemma_object_view(*members);
                }
                Some(members)
            },
            _ => None,
        }
    }

    /// A copy of the whole document.
    pub fn deep_clone(&self) -> (copy: Json)
        ensures
            copy@ == self@,
        decreases self,
    {
        match self {
            Json::Null => Json::Null,
            Json::Bool(b) => Json::Bool(*b),
            Json::Number(n) => Json::Number(*n),
            Json::Text(s) => Json::Text(s.clone()),
            Json::Array(items) => {
                let mut out: Vec<Json> = Vec::new();
                let mut i: usize = 0;
                while i < items.len()
                    invariant
                        i <= items.len(),
                        out@.len() == i,
                        self == Json::Array(*items),
                        forall|k: int| 0 <= k < i ==> out@[k]@ == items@[k]@,
                    decreases items.len() - i,
                {
                    proof {
                        assert(decreases_to!(self => self->Array_0));
                        assert(decreases_to!(*items => items[i as int]));
                    }
                    out.push(items[i].deep_clone());
                    i += 1;
                }
                proof {
                    lemma_array_view(*items);
                    lemma_array_view(out);
                    assert(items_model(out@) =~= items_model(items@));
                }
                Json::Array(out)
            },
            Json::Object(members) => {
                let mut out: Vec<(String, Json)> = Vec::new();
                let mut i: usize = 0;
                while i < members.len()
                    invariant
                        i <= members.len(),
                        out@.len() == i,
                        self == Json::Object(*members),
                        forall|k: int|
                            0 <= k < i ==> out@[k].0@ == members@[k].0@ && out@[k].1@
                                == members@[k].1@,
                    decreases members.len() - i,
                {
                    proof {
                        assert(decreases_to!(self => self->Object_0));
                        assert(decreases_to!(*members => members[i as int]));
                        assert(decreases_to!(members[i as int] => members[i as int].1));
                    }
                    out.push((members[i].0.clone(), members[i].1.deep_clone()));
                    i += 1;
                }
                proof {
                    lemma_object_view(*members);
                    lemma_object_view(out);
                    assert(members_model(out@) =~= members_model(members@));
                }
                Json::Object(out)
            },
        }
    }
}

} // verus!
