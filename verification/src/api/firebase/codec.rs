//! The codec between document values and the store's typed wire format.
//!
//! On the wire every value is a JSON object with a single member whose name
//! says what the value is: `stringValue`, `integerValue`, `doubleValue`,
//! `booleanValue`, `timestampValue`, `nullValue`, `arrayValue` or `mapValue`.
use vstd::prelude::*;
use crate::api::firebase::decimal::{
    decimal_text, decimal_to_i64, i64_to_decimal, lemma_parse_decimal_text, parse_i64,
};
use crate::api::firebase::double::{double_bits, i64_to_double_bits};
use crate::api::firebase::json::{
    items_model, lemma_array_view, lemma_object_view, lookup, members_model, names_distinct, Json,
    JsonModel, Number,
};
use crate::api::firebase::value::{
    fields_model, lemma_array_value_view, lemma_fields_value_view, values_model, DocumentValue,
    ValueModel,
};

verus! {

/// The wire form of a value.
pub open spec fn encode_value(value: ValueModel) -> JsonModel
    decreases value, 0nat,
{
    match value {
        ValueModel::Null => JsonModel::single("nullValue"@, JsonModel::Null),
        ValueModel::Bool(b) => JsonModel::single("booleanValue"@, JsonModel::Bool(b)),
        ValueModel::Number(Number::Integer(i)) => JsonModel::single(
            "integerValue"@,
            JsonModel::Text(decimal_text(i as int)),
        ),
        ValueModel::Number(Number::Double(bits)) => JsonModel::single(
            "doubleValue"@,
            JsonModel::Number(Number::Double(bits)),
        ),
        ValueModel::Text(s) => JsonModel::single("stringValue"@, JsonModel::Text(s)),
        ValueModel::Timestamp(s) => JsonModel::single("timestampValue"@, JsonModel::Text(s)),
        ValueModel::Array(items) => JsonModel::single(
            "arrayValue"@,
            JsonModel::single("values"@, JsonModel::Array(encode_items(items))),
        ),
        ValueModel::Fields(members) => JsonModel::single(
            "mapValue"@,
            JsonModel::single("fields"@, JsonModel::Object(encode_members(members))),
        ),
    }
}

/// The wire forms of the items of an array, in order.
pub open spec fn encode_items(items: Seq<ValueModel>) -> Seq<JsonModel>
    decreases items, 1nat,
{
    Seq::new(
        items.len(),
        |i: int|
            if 0 <= i < items.len() {
                encode_value(items[i])
            } else {
                JsonModel::Null
            },
    )
}

/// The named fields of a document with each value in its wire form; names
/// and order stay as they are.
pub open spec fn encode_members(members: Seq<(Seq<char>, ValueModel)>) -> Seq<
    (Seq<char>, JsonModel),
>
    decreases members, 1nat,
{
    Seq::new(
        members.len(),
        |i: int|
            if 0 <= i < members.len() {
                (members[i].0, encode_value(members[i].1))
            } else {
                (Seq::empty(), JsonModel::Null)
            },
    )
}

/// A JSON document taken as a value as it stands: numbers keep their kind,
/// strings become text, arrays and objects are taken item by item.
pub open spec fn plain_value(json: JsonModel) -> ValueModel
    decreases json, 0nat,
{
    match json {
        JsonModel::Null => ValueModel::Null,
        JsonModel::Bool(b) => ValueModel::Bool(b),
        JsonModel::Number(n) => ValueModel::Number(n),
        JsonModel::Text(s) => ValueModel::Text(s),
        JsonModel::Array(items) => ValueModel::Array(plain_items(items)),
        JsonModel::Object(members) => ValueModel::Fields(plain_members(members)),
    }
}

/// The items of a JSON array, each taken as it stands.
pub open spec fn plain_items(items: Seq<JsonModel>) -> Seq<ValueModel>
    decreases items, 1nat,
{
    Seq::new(
        items.len(),
        |i: int|
            if 0 <= i < items.len() {
                plain_value(items[i])
            } else {
                ValueModel::Null
            },
    )
}

/// The members of a JSON object, each value taken as it stands.
pub open spec fn plain_members(members: Seq<(Seq<char>, JsonModel)>) -> Seq<
    (Seq<char>, ValueModel),
>
    decreases members, 1nat,
{
    Seq::new(
        members.len(),
        |i: int|
            if 0 <= i < members.len() {
                (members[i].0, plain_value(members[i].1))
            } else {
                (Seq::empty(), ValueModel::Null)
            },
    )
}

/// The items under `arrayValue.values`, where that is an array.
pub open spec fn wire_array(wire: JsonModel) -> Option<Seq<JsonModel>> {
    match wire.get("arrayValue"@) {
        Some(inner) => match inner.get("values"@) {
            Some(values) => values.as_array(),
            None => None,
        },
        None => None,
    }
}

/// The members under `mapValue.fields`, where that is an object.
pub open spec fn wire_fields(wire: JsonModel) -> Option<Seq<(Seq<char>, JsonModel)>> {
    match wire.get("mapValue"@) {
        Some(inner) => match inner.get("fields"@) {
            Some(fields) => fields.as_object(),
            None => None,
        },
        None => None,
    }
}

/// A member found by `lookup` lies inside the members searched.
pub proof fn lemma_lookup_decreases<T>(members: Seq<(Seq<char>, T)>, key: Seq<char>)
    ensures
        lookup(members, key) matches Some(v) ==> decreases_to!(members => v),
    decreases members.len(),
{
    if members.len() == 0 {
    } else if members[0].0 == key {
        assert(decreases_to!(members => members[0]));
        assert(decreases_to!(members[0] => members[0].1));
    } else {
        lemma_lookup_decreases(members.drop_first(), key);
        assert(members.drop_first() == members.subrange(1, members.len() as int));
        assert(decreases_to!(members => members.subrange(1, members.len() as int)));
    }
}

/// A member of a document lies inside the document.
pub proof fn lemma_get_decreases(json: JsonModel, key: Seq<char>)
    ensures
        json.get(key) matches Some(v) ==> decreases_to!(json => v),
{
    match json {
        JsonModel::Object(members) => {
            lemma_lookup_decreases(members, key);
            assert(decreases_to!(json => json->Object_0));
        },
        _ => {},
    }
}

/// What `wire_array` and `wire_fields` find lies inside the document.
pub proof fn lemma_wire_parts_decrease(wire: JsonModel)
    ensures
        wire_array(wire) matches Some(items) ==> decreases_to!(wire => items),
        wire_fields(wire) matches Some(members) ==> decreases_to!(wire => members),
{
    lemma_get_decreases(wire, "arrayValue"@);
    if let Some(inner) = wire.get("arrayValue"@) {
        lemma_get_decreases(inner, "values"@);
        if let Some(values) = inner.get("values"@) {
            if let JsonModel::Array(items) = values {
                assert(decreases_to!(values => values->Array_0));
            }
        }
    }
    lemma_get_decreases(wire, "mapValue"@);
    if let Some(inner) = wire.get("mapValue"@) {
        lemma_get_decreases(inner, "fields"@);
        if let Some(fields) = inner.get("fields"@) {
            if let JsonModel::Object(members) = fields {
                assert(decreases_to!(fields => fields->Object_0));
            }
        }
    }
}

/// The value that a wire document stands for.
///
/// The first of the names below that the document has decides. The payload
/// of `stringValue` and `booleanValue` is taken as it stands; a number under
/// `doubleValue` is a double, also where it is written without a fraction;
/// a text under `integerValue` is read as a decimal integer, with zero for a
/// text that spells none; a text under `timestampValue` is a timestamp. A
/// document with none of the names, or with an `arrayValue` or `mapValue` of
/// another shape, stands for `Null`.
pub open spec fn decode_value(wire: JsonModel) -> ValueModel
    decreases wire, 0nat,
{
    if let Some(payload) = wire.get("stringValue"@) {
        plain_value(payload)
    } else if let Some(payload) = wire.get("integerValue"@) {
        match payload {
            JsonModel::Text(s) => ValueModel::Number(
                Number::Integer(
                    match parse_i64(s) {
                        Some(i) => i,
                        None => 0i64,
                    },
                ),
            ),
            _ => plain_value(payload),
        }
    } else if let Some(payload) = wire.get("doubleValue"@) {
        match payload {
            JsonModel::Number(Number::Integer(i)) => ValueModel::Number(
                Number::Double(double_bits(i as int) as u64),
            ),
            _ => plain_value(payload),
        }
    } else if let Some(payload) = wire.get("booleanValue"@) {
        plain_value(payload)
    } else if let Some(payload) = wire.get("timestampValue"@) {
        match payload {
            JsonModel::Text(s) => ValueModel::Timestamp(s),
            _ => plain_value(payload),
        }
    } else if wire.get("nullValue"@) is Some {
        ValueModel::Null
    } else if let Some(items) = wire_array(wire) {
        proof {
            lemma_wire_parts_decrease(wire);
        }
        ValueModel::Array(decode_items(items))
    } else if let Some(members) = wire_fields(wire) {
        proof {
            lemma_wire_parts_decrease(wire);
        }
        ValueModel::Fields(decode_members(members))
    } else {
        ValueModel::Null
    }
}

/// The values that the items of a wire array stand for, in order.
pub open spec fn decode_items(items: Seq<JsonModel>) -> Seq<ValueModel>
    decreases items, 1nat,
{
    Seq::new(
        items.len(),
        |i: int|
            if 0 <= i < items.len() {
                decode_value(items[i])
            } else {
                ValueModel::Null
            },
    )
}

/// The named fields that the members of a wire map stand for; names and
/// order stay as they are.
pub open spec fn decode_members(members: Seq<(Seq<char>, JsonModel)>) -> Seq<
    (Seq<char>, ValueModel),
>
    decreases members, 1nat,
{
    Seq::new(
        members.len(),
        |i: int|
            if 0 <= i < members.len() {
                (members[i].0, decode_value(members[i].1))
            } else {
                (Seq::empty(), ValueModel::Null)
            },
    )
}

/// The eight names that say what a wire value is are pairwise different, and
/// none of them is `values` or `fields`.
pub proof fn lemma_discriminators_distinct()
    ensures
        "stringValue"@ != "integerValue"@,
        "stringValue"@ != "doubleValue"@,
        "stringValue"@ != "booleanValue"@,
        "stringValue"@ != "timestampValue"@,
        "stringValue"@ != "nullValue"@,
        "stringValue"@ != "arrayValue"@,
        "stringValue"@ != "mapValue"@,
        "integerValue"@ != "doubleValue"@,
        "integerValue"@ != "booleanValue"@,
        "integerValue"@ != "timestampValue"@,
        "integerValue"@ != "nullValue"@,
        "integerValue"@ != "arrayValue"@,
        "integerValue"@ != "mapValue"@,
        "doubleValue"@ != "booleanValue"@,
        "doubleValue"@ != "timestampValue"@,
        "doubleValue"@ != "nullValue"@,
        "doubleValue"@ != "arrayValue"@,
        "doubleValue"@ != "mapValue"@,
        "booleanValue"@ != "timestampValue"@,
        "booleanValue"@ != "nullValue"@,
        "booleanValue"@ != "arrayValue"@,
        "booleanValue"@ != "mapValue"@,
        "timestampValue"@ != "nullValue"@,
        "timestampValue"@ != "arrayValue"@,
        "timestampValue"@ != "mapValue"@,
        "nullValue"@ != "arrayValue"@,
        "nullValue"@ != "mapValue"@,
        "arrayValue"@ != "mapValue"@,
{
    reveal_strlit("stringValue");
    reveal_strlit("integerValue");
    reveal_strlit("doubleValue");
    reveal_strlit("booleanValue");
    reveal_strlit("timestampValue");
    reveal_strlit("nullValue");
    reveal_strlit("arrayValue");
    reveal_strlit("mapValue");
    assert("stringValue"@.len() == 11);
    assert("integerValue"@.len() == 12);
    assert("doubleValue"@.len() == 11);
    assert("booleanValue"@.len() == 12);
    assert("timestampValue"@.len() == 14);
    assert("nullValue"@.len() == 9);
    assert("arrayValue"@.len() == 10);
    assert("mapValue"@.len() == 8);
    assert("stringValue"@[0] != "doubleValue"@[0]);
    assert("integerValue"@[0] != "booleanValue"@[0]);
}

/// Looking a name up in an object with a single member.
pub proof fn lemma_single_get(key: Seq<char>, value: JsonModel, name: Seq<char>)
    ensures
        JsonModel::single(key, value).get(name) == if key == name {
            Some(value)
        } else {
            None::<JsonModel>
        },
{
    let members = seq![(key, value)];
    assert(members[0] == (key, value));
    assert(lookup(members.drop_first(), name) is None);
}

/// Round trip: decoding the wire form of a value gives the value back.
pub proof fn lemma_round_trip(value: ValueModel)
    ensures
        decode_value(encode_value(value)) == value,
    decreases value,
{
    lemma_discriminators_distinct();
    let wire = encode_value(value);
    match value {
        ValueModel::Null => {
            lemma_single_get("nullValue"@, JsonModel::Null, "stringValue"@);
            lemma_single_get("nullValue"@, JsonModel::Null, "integerValue"@);
            lemma_single_get("nullValue"@, JsonModel::Null, "doubleValue"@);
            lemma_single_get("nullValue"@, JsonModel::Null, "booleanValue"@);
            lemma_single_get("nullValue"@, JsonModel::Null, "timestampValue"@);
            lemma_single_get("nullValue"@, JsonModel::Null, "nullValue"@);
        },
        ValueModel::Bool(b) => {
            let p = JsonModel::Bool(b);
            lemma_single_get("booleanValue"@, p, "stringValue"@);
            lemma_single_get("booleanValue"@, p, "integerValue"@);
            lemma_single_get("booleanValue"@, p, "doubleValue"@);
            lemma_single_get("booleanValue"@, p, "booleanValue"@);
        },
        ValueModel::Number(Number::Integer(i)) => {
            let p = JsonModel::Text(decimal_text(i as int));
            lemma_single_get("integerValue"@, p, "stringValue"@);
            lemma_single_get("integerValue"@, p, "integerValue"@);
            lemma_parse_decimal_text(i as int);
        },
        ValueModel::Number(Number::Double(bits)) => {
            let p = JsonModel::Number(Number::Double(bits));
            lemma_single_get("doubleValue"@, p, "stringValue"@);
            lemma_single_get("doubleValue"@, p, "integerValue"@);
            lemma_single_get("doubleValue"@, p, "doubleValue"@);
        },
        ValueModel::Text(s) => {
            lemma_single_get("stringValue"@, JsonModel::Text(s), "stringValue"@);
        },
        ValueModel::Timestamp(s) => {
            let p = JsonModel::Text(s);
            lemma_single_get("timestampValue"@, p, "stringValue"@);
            lemma_single_get("timestampValue"@, p, "integerValue"@);
            lemma_single_get("timestampValue"@, p, "doubleValue"@);
            lemma_single_get("timestampValue"@, p, "booleanValue"@);
            lemma_single_get("timestampValue"@, p, "timestampValue"@);
        },
        ValueModel::Array(items) => {
            let values = JsonModel::Array(encode_items(items));
            let p = JsonModel::single("values"@, values);
            lemma_single_get("arrayValue"@, p, "stringValue"@);
            lemma_single_get("arrayValue"@, p, "integerValue"@);
            lemma_single_get("arrayValue"@, p, "doubleValue"@);
            lemma_single_get("arrayValue"@, p, "booleanValue"@);
            lemma_single_get("arrayValue"@, p, "timestampValue"@);
            lemma_single_get("arrayValue"@, p, "nullValue"@);
            lemma_single_get("arrayValue"@, p, "arrayValue"@);
            lemma_single_get("values"@, values, "values"@);
            assert(wire_array(wire) == Some(encode_items(items)));
            assert forall|i: int| 0 <= i < items.len() implies decode_value(
                #[trigger] encode_items(items)[i],
            ) == items[i] by {
                lemma_round_trip(items[i]);
            }
            assert(decode_items(encode_items(items)) =~= items);
        },
        ValueModel::Fields(members) => {
            let fields = JsonModel::Object(encode_members(members));
            let p = JsonModel::single("fields"@, fields);
            lemma_single_get("mapValue"@, p, "stringValue"@);
            lemma_single_get("mapValue"@, p, "integerValue"@);
            lemma_single_get("mapValue"@, p, "doubleValue"@);
            lemma_single_get("mapValue"@, p, "booleanValue"@);
            lemma_single_get("mapValue"@, p, "timestampValue"@);
            lemma_single_get("mapValue"@, p, "nullValue"@);
            lemma_single_get("mapValue"@, p, "arrayValue"@);
            lemma_single_get("mapValue"@, p, "mapValue"@);
            lemma_single_get("fields"@, fields, "fields"@);
            assert(wire_array(wire) is None);
            assert(wire_fields(wire) == Some(encode_members(members)));
            assert forall|i: int| 0 <= i < members.len() implies decode_value(
                #[trigger] encode_members(members)[i].1,
            ) == members[i].1 by {
                lemma_round_trip(members[i].1);
            }
            assert(decode_members(encode_members(members)) =~= members);
        },
    }
}

/// The wire form of a proper value is a proper JSON document.
pub proof fn lemma_encode_well_formed(value: ValueModel)
    requires
        value.well_formed(),
    ensures
        encode_value(value).well_formed(),
    decreases value,
{
    match value {
        ValueModel::Array(items) => {
            assert forall|i: int| 0 <= i < items.len() implies (#[trigger] encode_items(
                items,
            )[i]).well_formed() by {
                assert(items[i].well_formed());
                lemma_encode_well_formed(items[i]);
            }
            let values = JsonModel::Array(encode_items(items));
            assert(values.well_formed());
            lemma_single_well_formed("values"@, values);
            lemma_single_well_formed("arrayValue"@, JsonModel::single("values"@, values));
        },
        ValueModel::Fields(members) => {
            lemma_encode_members_well_formed(members);
            let fields = JsonModel::Object(encode_members(members));
            lemma_single_well_formed("fields"@, fields);
            lemma_single_well_formed("mapValue"@, JsonModel::single("fields"@, fields));
        },
        ValueModel::Null => {
            lemma_single_well_formed("nullValue"@, JsonModel::Null);
        },
        ValueModel::Bool(b) => {
            lemma_single_well_formed("booleanValue"@, JsonModel::Bool(b));
        },
        ValueModel::Number(Number::Integer(i)) => {
            lemma_single_well_formed("integerValue"@, JsonModel::Text(decimal_text(i as int)));
        },
        ValueModel::Number(Number::Double(bits)) => {
            lemma_single_well_formed("doubleValue"@, JsonModel::Number(Number::Double(bits)));
        },
        ValueModel::Text(s) => {
            lemma_single_well_formed("stringValue"@, JsonModel::Text(s));
        },
        ValueModel::Timestamp(s) => {
            lemma_single_well_formed("timestampValue"@, JsonModel::Text(s));
        },
    }
}

/// An object with a single member is proper where the member is.
pub proof fn lemma_single_well_formed(key: Seq<char>, value: JsonModel)
    requires
        value.well_formed(),
    ensures
        JsonModel::single(key, value).well_formed(),
{
    let members = seq![(key, value)];
    assert forall|i: int| 0 <= i < members.len() implies (#[trigger] members[i]).1.well_formed() by {
        assert(members[i] == (key, value));
    }
}

/// Encoding the fields of a proper value keeps their names, each of which
/// still occurs once, and gives proper wire values.
pub proof fn lemma_encode_members_well_formed(members: Seq<(Seq<char>, ValueModel)>)
    requires
        ValueModel::Fields(members).well_formed(),
    ensures
        JsonModel::Object(encode_members(members)).well_formed(),
        encode_members(members).len() == members.len(),
        forall|i: int| 0 <= i < members.len() ==> (#[trigger] encode_members(members)[i]).0
            == members[i].0,
    decreases members, 0nat,
{
    let encoded = encode_members(members);
    assert forall|i: int| 0 <= i < encoded.len() implies (#[trigger] encoded[i]).1.well_formed() by {
        assert(members[i].1.well_formed());
        lemma_encode_well_formed(members[i].1);
    }
    assert(names_distinct(encoded)) by {
        assert forall|i: int, j: int| 0 <= i < j < encoded.len() implies encoded[i].0
            != encoded[j].0 by {
            assert(encoded[i].0 == members[i].0);
            assert(encoded[j].0 == members[j].0);
        }
    }
}

/// A member found in a proper object is proper.
pub proof fn lemma_lookup_well_formed(members: Seq<(Seq<char>, JsonModel)>, key: Seq<char>)
    requires
        forall|i: int| 0 <= i < members.len() ==> (#[trigger] members[i]).1.well_formed(),
    ensures
        lookup(members, key) matches Some(v) ==> v.well_formed(),
    decreases members.len(),
{
    if members.len() > 0 && members[0].0 != key {
        let rest = members.drop_first();
        assert forall|i: int| 0 <= i < rest.len() implies (#[trigger] rest[i]).1.well_formed() by {
            assert(rest[i] == members[i + 1]);
        }
        lemma_lookup_well_formed(rest, key);
    }
}

/// A member of a proper document is proper.
pub proof fn lemma_get_well_formed(json: JsonModel, key: Seq<char>)
    requires
        json.well_formed(),
    ensures
        json.get(key) matches Some(v) ==> v.well_formed(),
{
    match json {
        JsonModel::Object(members) => {
            lemma_lookup_well_formed(members, key);
        },
        _ => {},
    }
}

/// A proper JSON document, taken as it stands, is a proper value.
pub proof fn lemma_plain_well_formed(json: JsonModel)
    requires
        json.well_formed(),
    ensures
        plain_value(json).well_formed(),
    decreases json,
{
    match json {
        JsonModel::Array(items) => {
            assert forall|i: int| 0 <= i < items.len() implies (#[trigger] plain_items(
                items,
            )[i]).well_formed() by {
                assert(items[i].well_formed());
                lemma_plain_well_formed(items[i]);
            }
            assert(ValueModel::Array(plain_items(items)).well_formed());
        },
        JsonModel::Object(members) => {
            let plain = plain_members(members);
            assert forall|i: int| 0 <= i < plain.len() implies (#[trigger] plain[i]).1.well_formed() by {
                assert(members[i].1.well_formed());
                lemma_plain_well_formed(members[i].1);
            }
            assert forall|i: int, j: int| 0 <= i < j < plain.len() implies plain[i].0
                != plain[j].0 by {
                assert(plain[i].0 == members[i].0);
                assert(plain[j].0 == members[j].0);
            }
            assert(names_distinct(plain));
            assert(ValueModel::Fields(plain).well_formed());
        },
        _ => {},
    }
}

/// The value that a proper wire document stands for is a proper value.
pub proof fn lemma_decode_well_formed(wire: JsonModel)
    requires
        wire.well_formed(),
    ensures
        decode_value(wire).well_formed(),
    decreases wire,
{
    lemma_get_well_formed(wire, "stringValue"@);
    lemma_get_well_formed(wire, "integerValue"@);
    lemma_get_well_formed(wire, "doubleValue"@);
    lemma_get_well_formed(wire, "booleanValue"@);
    lemma_get_well_formed(wire, "timestampValue"@);
    lemma_get_well_formed(wire, "arrayValue"@);
    lemma_get_well_formed(wire, "mapValue"@);
    if let Some(payload) = wire.get("stringValue"@) {
        lemma_plain_well_formed(payload);
    } else if let Some(payload) = wire.get("integerValue"@) {
        lemma_plain_well_formed(payload);
    } else if let Some(payload) = wire.get("doubleValue"@) {
        lemma_plain_well_formed(payload);
    } else if let Some(payload) = wire.get("booleanValue"@) {
        lemma_plain_well_formed(payload);
    } else if let Some(payload) = wire.get("timestampValue"@) {
        lemma_plain_well_formed(payload);
    } else if wire.get("nullValue"@) is Some {
    } else if let Some(items) = wire_array(wire) {
        lemma_wire_parts_decrease(wire);
        let inner = wire.get("arrayValue"@).unwrap();
        lemma_get_well_formed(inner, "values"@);
        let values = inner.get("values"@).unwrap();
        assert(values == JsonModel::Array(items));
        assert(values.well_formed());
        assert forall|i: int| 0 <= i < items.len() implies (#[trigger] decode_items(
            items,
        )[i]).well_formed() by {
            assert(items[i].well_formed());
            lemma_decode_well_formed(items[i]);
        }
        assert(ValueModel::Array(decode_items(items)).well_formed());
    } else if let Some(members) = wire_fields(wire) {
        lemma_wire_parts_decrease(wire);
        let inner = wire.get("mapValue"@).unwrap();
        lemma_get_well_formed(inner, "fields"@);
        let fields = inner.get("fields"@).unwrap();
        assert(fields == JsonModel::Object(members));
        lemma_decode_members_well_formed(members);
    }
}

/// Decoding the members of a proper wire map keeps their names, each of
/// which still occurs once, and gives proper values.
pub proof fn lemma_decode_members_well_formed(members: Seq<(Seq<char>, JsonModel)>)
    requires
        JsonModel::Object(members).well_formed(),
    ensures
        ValueModel::Fields(decode_members(members)).well_formed(),
    decreases members, 0nat,
{
    let decoded = decode_members(members);
    assert forall|i: int| 0 <= i < decoded.len() implies (#[trigger] decoded[i]).1.well_formed() by {
        assert(members[i].1.well_formed());
        lemma_decode_well_formed(members[i].1);
    }
    assert forall|i: int, j: int| 0 <= i < j < decoded.len() implies decoded[i].0
        != decoded[j].0 by {
        assert(decoded[i].0 == members[i].0);
        assert(decoded[j].0 == members[j].0);
    }
}

/// The wire form of the top-level fields of a document: the encoded members
/// of a value that holds named fields, and no members for any other value.
pub open spec fn encode_fields(data: ValueModel) -> JsonModel {
    match data {
        ValueModel::Fields(members) => JsonModel::Object(encode_members(members)),
        _ => JsonModel::Object(Seq::empty()),
    }
}

/// The wire form of a whole document: its encoded fields under `fields`.
pub open spec fn encode_document(data: ValueModel) -> JsonModel {
    JsonModel::single("fields"@, encode_fields(data))
}

/// The value of a wire document: the decoded members of the object under
/// `fields`, and `Null` where the document has no `fields` or they are no
/// object.
pub open spec fn decode_document(doc: JsonModel) -> ValueModel {
    match doc.get("fields"@) {
        Some(JsonModel::Object(members)) => ValueModel::Fields(decode_members(members)),
        _ => ValueModel::Null,
    }
}

/// Round trip for whole documents: a document that holds named fields comes
/// back unchanged from its wire form.
pub proof fn lemma_document_round_trip(data: ValueModel)
    requires
        data is Fields,
    ensures
        decode_document(encode_document(data)) == data,
{
    let members = data->Fields_0;
    lemma_single_get("fields"@, encode_fields(data), "fields"@);
    assert forall|i: int| 0 <= i < members.len() implies decode_value(
        #[trigger] encode_members(members)[i].1,
    ) == members[i].1 by {
        lemma_round_trip(members[i].1);
    }
    assert(decode_members(encode_members(members)) =~= members);
}

/// Takes a JSON document as a value as it stands.
pub fn plain_from_json(json: &Json) -> (value: DocumentValue)
    ensures
        value@ == plain_value(json@),
    decreases json,
{
    match json {
        Json::Null => DocumentValue::Null,
        Json::Bool(b) => DocumentValue::Bool(*b),
        Json::Number(n) => DocumentValue::Number(*n),
        Json::Text(s) => DocumentValue::Text(s.clone()),
        Json::Array(items) => {
            let mut out: Vec<DocumentValue> = Vec::new();
            let mut i: usize = 0;
            while i < items.len()
                invariant
                    i <= items.len(),
                    out@.len() == i,
                    json == Json::Array(*items),
                    forall|k: int| 0 <= k < i ==> out@[k]@ == plain_value(items@[k]@),
                decreases items.len() - i,
            {
                proof {
                    assert(decreases_to!(json => json->Array_0));
                    assert(decreases_to!(*items => items[i as int]));
                }
                out.push(plain_from_json(&items[i]));
                i += 1;
            }
            proof {
                lemma_array_view(*items);
                lemma_array_value_view(out);
                assert(values_model(out@) =~= plain_items(items_model(items@)));
            }
            DocumentValue::Array(out)
        },
        Json::Object(members) => {
            let mut out: Vec<(String, DocumentValue)> = Vec::new();
            let mut i: usize = 0;
            while i < members.len()
                invariant
                    i <= members.len(),
                    out@.len() == i,
                    json == Json::Object(*members),
                    forall|k: int|
                        0 <= k < i ==> out@[k].0@ == members@[k].0@ && out@[k].1@ == plain_value(
                            members@[k].1@,
                        ),
                decreases members.len() - i,
            {
                proof {
                    assert(decreases_to!(json => json->Object_0));
                    assert(decreases_to!(*members => members[i as int]));
                    assert(decreases_to!(members[i as int] => members[i as int].1));
                }
                out.push((members[i].0.clone(), plain_from_json(&members[i].1)));
                i += 1;
            }
            proof {
                lemma_object_view(*members);
                lemma_fields_value_view(out);
                assert(fields_model(out@) =~= plain_members(members_model(members@)));
            }
            DocumentValue::Fields(out)
        },
    }
}

/// Encodes a value in the store's wire format.
///
/// Integers travel as decimal text, doubles as JSON numbers; arrays and
/// named fields are encoded item by item.
pub fn to_firestore_value(value: &DocumentValue) -> (wire: Json)
    ensures
        wire@ == encode_value(value@),
    decreases value, 0nat,
{
    match value {
        DocumentValue::Null => Json::single("nullValue", Json::Null),
        DocumentValue::Bool(b) => Json::single("booleanValue", Json::Bool(*b)),
        DocumentValue::Number(Number::Integer(i)) => Json::single(
            "integerValue",
            Json::Text(i64_to_decimal(*i)),
        ),
        DocumentValue::Number(Number::Double(bits)) => Json::single(
            "doubleValue",
            Json::Number(Number::Double(*bits)),
        ),
        DocumentValue::Text(s) => Json::single("stringValue", Json::Text(s.clone())),
        DocumentValue::Timestamp(s) => Json::single("timestampValue", Json::Text(s.clone())),
        DocumentValue::Array(items) => {
            let mut out: Vec<Json> = Vec::new();
            let mut i: usize = 0;
            while i < items.len()
                invariant
                    i <= items.len(),
                    out@.len() == i,
                    value == DocumentValue::Array(*items),
                    forall|k: int| 0 <= k < i ==> out@[k]@ == encode_value(items@[k]@),
                decreases items.len() - i,
            {
                proof {
                    assert(decreases_to!(value => value->Array_0));
                    assert(decreases_to!(*items => items[i as int]));
                }
                out.push(to_firestore_value(&items[i]));
                i += 1;
            }
            proof {
                lemma_array_value_view(*items);
                lemma_array_view(out);
                assert(items_model(out@) =~= encode_items(values_model(items@)));
            }
            Json::single("arrayValue", Json::single("values", Json::Array(out)))
        },
        DocumentValue::Fields(members) => {
            proof {
                lemma_fields_value_view(*members);
                assert(decreases_to!(value => value->Fields_0));
            }
            let encoded = encode_member_list(members);
            proof {
                lemma_object_view(encoded);
            }
            Json::single("mapValue", Json::single("fields", Json::Object(encoded)))
        },
    }
}

/// Encodes each of a run of named fields; names and order stay as they are.
pub fn encode_member_list(members: &Vec<(String, DocumentValue)>) -> (encoded: Vec<
    (String, Json),
>)
    ensures
        members_model(encoded@) == encode_members(fields_model(members@)),
    decreases members, 1nat,
{
    let mut out: Vec<(String, Json)> = Vec::new();
    let mut i: usize = 0;
    while i < members.len()
        invariant
            i <= members.len(),
            out@.len() == i,
            forall|k: int|
                0 <= k < i ==> out@[k].0@ == members@[k].0@ && out@[k].1@ == encode_value(
                    members@[k].1@,
                ),
        decreases members.len() - i,
    {
        proof {
            assert(decreases_to!(*members => members[i as int]));
            assert(decreases_to!(members[i as int] => members[i as int].1));
        }
        out.push((members[i].0.clone(), to_firestore_value(&members[i].1)));
        i += 1;
    }
    proof {
        assert(members_model(out@) =~= encode_members(fields_model(members@)));
    }
    out
}

/// Encodes the top-level fields of a document: the members of a value that
/// holds named fields, and an empty object for any other value.
pub fn to_firestore_fields(data: &DocumentValue) -> (wire: Json)
    ensures
        wire@ == encode_fields(data@),
{
    match data {
        DocumentValue::Fields(members) => {
            proof {
                lemma_fields_value_view(*members);
            }
            let encoded = encode_member_list(members);
            proof {
                lemma_object_view(encoded);
            }
            Json::Object(encoded)
        },
        _ => {
            let empty: Vec<(String, Json)> = Vec::new();
            proof {
                lemma_object_view(empty);
                assert(members_model(empty@) =~= Seq::empty());
            }
            Json::Object(empty)
        },
    }
}

/// Encodes a whole document: its fields under `fields`.
pub fn to_firestore_document(data: &DocumentValue) -> (wire: Json)
    ensures
        wire@ == encode_document(data@),
{
    Json::single("fields", to_firestore_fields(data))
}

/// Decodes each item of a wire array.
pub fn decode_item_list(items: &Vec<Json>) -> (decoded: Vec<DocumentValue>)
    ensures
        values_model(decoded@) == decode_items(items_model(items@)),
    decreases items_model(items@), 1nat,
{
    let mut out: Vec<DocumentValue> = Vec::new();
    let mut i: usize = 0;
    while i < items.len()
        invariant
            i <= items.len(),
            out@.len() == i,
            forall|k: int| 0 <= k < i ==> out@[k]@ == decode_value(items@[k]@),
        decreases items.len() - i,
    {
        proof {
            assert(items_model(items@)[i as int] == items@[i as int]@);
            assert(decreases_to!(items_model(items@) => items_model(items@)[i as int]));
        }
        out.push(from_firestore_value(&items[i]));
        i += 1;
    }
    proof {
        assert(values_model(out@) =~= decode_items(items_model(items@)));
    }
    out
}

/// Decodes each member of a wire map; names and order stay as they are.
pub fn decode_member_list(members: &Vec<(String, Json)>) -> (decoded: Vec<
    (String, DocumentValue),
>)
    ensures
        fields_model(decoded@) == decode_members(members_model(members@)),
    decreases members_model(members@), 1nat,
{
    let mut out: Vec<(String, DocumentValue)> = Vec::new();
    let mut i: usize = 0;
    while i < members.len()
        invariant
            i <= members.len(),
            out@.len() == i,
            forall|k: int|
                0 <= k < i ==> out@[k].0@ == members@[k].0@ && out@[k].1@ == decode_value(
                    members@[k].1@,
                ),
        decreases members.len() - i,
    {
        proof {
            let model = members_model(members@);
            assert(model[i as int] == (members@[i as int].0@, members@[i as int].1@));
            assert(decreases_to!(model => model[i as int]));
            assert(decreases_to!(model[i as int] => model[i as int].1));
        }
        out.push((members[i].0.clone(), from_firestore_value(&members[i].1)));
        i += 1;
    }
    proof {
        assert(fields_model(out@) =~= decode_members(members_model(members@)));
    }
    out
}

/// Decodes a value from the store's wire format.
///
/// Lenient: a wire document that names no known kind of value decodes to
/// `Null`.
pub fn from_firestore_value(wire: &Json) -> (value: DocumentValue)
    ensures
        value@ == decode_value(wire@),
    decreases wire@, 0nat,
{
    if let Some(payload) = wire.get("stringValue") {
        return plain_from_json(payload);
    }
    if let Some(payload) = wire.get("integerValue") {
        if let Some(text) = payload.as_str() {
            let number = match decimal_to_i64(text) {
                Some(i) => i,
                None => 0,
            };
            return DocumentValue::Number(Number::Integer(number));
        }
        return plain_from_json(payload);
    }
    if let Some(payload) = wire.get("doubleValue") {
        if let Json::Number(Number::Integer(i)) = payload {
            return DocumentValue::Number(Number::Double(i64_to_double_bits(*i)));
        }
        return plain_from_json(payload);
    }
    if let Some(payload) = wire.get("booleanValue") {
        return plain_from_json(payload);
    }
    if let Some(payload) = wire.get("timestampValue") {
        if let Some(text) = payload.as_str() {
            return DocumentValue::Timestamp(text.to_string());
        }
        return plain_from_json(payload);
    }
    if wire.get("nullValue").is_some() {
        return DocumentValue::Null;
    }
    proof {
        lemma_wire_parts_decrease(wire@);
    }
    if let Some(inner) = wire.get("arrayValue") {
        if let Some(values) = inner.get("values") {
            if let Some(items) = values.as_array() {
                let decoded = decode_item_list(items);
                proof {
                    lemma_array_value_view(decoded);
                }
                return DocumentValue::Array(decoded);
            }
        }
    }
    if let Some(inner) = wire.get("mapValue") {
        if let Some(fields) = inner.get("fields") {
            if let Some(members) = fields.as_object() {
                let decoded = decode_member_list(members);
                proof {
                    lemma_fields_value_view(decoded);
                }
                return DocumentValue::Fields(decoded);
            }
        }
    }
    DocumentValue::Null
}

/// Decodes a whole document: the fields under `fields`, or `Null` where the
/// document has none. `Null` therefore stands both for a document without
/// fields and for an answer that is no document at all.
pub fn from_firestore_document(doc: &Json) -> (value: DocumentValue)
    ensures
        value@ == decode_document(doc@),
{
    if let Some(fields) = doc.get("fields") {
        if let Some(members) = fields.as_object() {
            let decoded = decode_member_list(members);
            proof {
                lemma_fields_value_view(decoded);
            }
            return DocumentValue::Fields(decoded);
        }
    }
    DocumentValue::Null
}

} // verus!
