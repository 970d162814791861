use yuyuko::api::firebase::codec::{
    from_firestore_document, from_firestore_value, plain_from_json, to_firestore_document,
    to_firestore_fields, to_firestore_value,
};
use yuyuko::api::firebase::decimal::{decimal_to_i64, i64_to_decimal, u64_to_decimal};
use yuyuko::api::firebase::json::{Json, Number};
use yuyuko::api::firebase::value::DocumentValue;

fn sample_document() -> DocumentValue {
    DocumentValue::Fields(vec![
        ("title".to_string(), DocumentValue::text("Steins;Gate")),
        ("pages".to_string(), DocumentValue::integer(350)),
        ("score".to_string(), DocumentValue::double_from_bits(8.5f64.to_bits())),
        ("done".to_string(), DocumentValue::Bool(true)),
        ("note".to_string(), DocumentValue::Null),
        ("created".to_string(), DocumentValue::timestamp("2024-01-16T01:30:00Z")),
        (
            "tags".to_string(),
            DocumentValue::Array(vec![
                DocumentValue::text("vn"),
                DocumentValue::integer(-7),
                DocumentValue::Array(vec![]),
            ]),
        ),
        (
            "nested".to_string(),
            DocumentValue::Fields(vec![
                ("min".to_string(), DocumentValue::integer(i64::MIN)),
                ("max".to_string(), DocumentValue::integer(i64::MAX)),
                ("empty".to_string(), DocumentValue::Fields(vec![])),
            ]),
        ),
    ])
}

#[test]
fn round_trip_of_a_document_tree() {
    let value = sample_document();
    let wire = to_firestore_value(&value);
    assert_eq!(from_firestore_value(&wire), value);
}

#[test]
fn round_trip_of_each_scalar() {
    let scalars = vec![
        DocumentValue::Null,
        DocumentValue::Bool(false),
        DocumentValue::Bool(true),
        DocumentValue::integer(0),
        DocumentValue::integer(-1),
        DocumentValue::integer(i64::MIN),
        DocumentValue::integer(i64::MAX),
        DocumentValue::double_from_bits(0.25f64.to_bits()),
        DocumentValue::double_from_bits(3.0f64.to_bits()),
        DocumentValue::text(""),
        DocumentValue::text("日本語"),
        DocumentValue::timestamp("2024-01-16T01:30:00Z"),
    ];
    for value in scalars {
        assert_eq!(from_firestore_value(&to_firestore_value(&value)), value);
    }
}

#[test]
fn an_integer_is_never_taken_for_a_double() {
    let three = DocumentValue::integer(3);
    let three_point_zero = DocumentValue::double_from_bits(3.0f64.to_bits());
    assert_ne!(to_firestore_value(&three), to_firestore_value(&three_point_zero));
    assert_eq!(from_firestore_value(&to_firestore_value(&three)), three);
    assert_eq!(
        from_firestore_value(&to_firestore_value(&three_point_zero)),
        three_point_zero
    );
}

#[test]
fn round_trip_of_a_whole_document() {
    let value = sample_document();
    let wire = to_firestore_document(&value);
    assert_eq!(from_firestore_document(&wire), value);
}

#[test]
fn encodes_an_integer_as_decimal_text() {
    assert_eq!(
        to_firestore_value(&DocumentValue::integer(42)),
        Json::single("integerValue", Json::text("42"))
    );
    assert_eq!(
        to_firestore_value(&DocumentValue::integer(-9007199254740993)),
        Json::single("integerValue", Json::text("-9007199254740993"))
    );
}

#[test]
fn encodes_a_double_as_a_number() {
    assert_eq!(
        to_firestore_value(&DocumentValue::double_from_bits(1.5f64.to_bits())),
        Json::single("doubleValue", Json::Number(Number::Double(1.5f64.to_bits())))
    );
}

#[test]
fn encodes_the_other_scalars() {
    assert_eq!(
        to_firestore_value(&DocumentValue::text("abc")),
        Json::single("stringValue", Json::text("abc"))
    );
    assert_eq!(
        to_firestore_value(&DocumentValue::Bool(true)),
        Json::single("booleanValue", Json::Bool(true))
    );
    assert_eq!(
        to_firestore_value(&DocumentValue::Null),
        Json::single("nullValue", Json::Null)
    );
    assert_eq!(
        to_firestore_value(&DocumentValue::timestamp("2024-01-16T01:30:00Z")),
        Json::single("timestampValue", Json::text("2024-01-16T01:30:00Z"))
    );
}

#[test]
fn encodes_arrays_and_maps_item_by_item() {
    let array = DocumentValue::Array(vec![DocumentValue::integer(1), DocumentValue::text("x")]);
    assert_eq!(
        to_firestore_value(&array),
        Json::single(
            "arrayValue",
            Json::single(
                "values",
                Json::array(vec![
                    Json::single("integerValue", Json::text("1")),
                    Json::single("stringValue", Json::text("x")),
                ])
            )
        )
    );
    let map = DocumentValue::Fields(vec![("a".to_string(), DocumentValue::Bool(false))]);
    assert_eq!(
        to_firestore_value(&map),
        Json::single(
            "mapValue",
            Json::single(
                "fields",
                Json::object(vec![(
                    "a".to_string(),
                    Json::single("booleanValue", Json::Bool(false))
                )])
            )
        )
    );
}

#[test]
fn a_document_wraps_its_fields() {
    let data = DocumentValue::Fields(vec![("a".to_string(), DocumentValue::integer(1))]);
    assert_eq!(
        to_firestore_document(&data),
        Json::single(
            "fields",
            Json::object(vec![(
                "a".to_string(),
                Json::single("integerValue", Json::text("1"))
            )])
        )
    );
    assert_eq!(to_firestore_fields(&DocumentValue::integer(1)), Json::object(vec![]));
    assert_eq!(
        to_firestore_document(&DocumentValue::Null),
        Json::single("fields", Json::object(vec![]))
    );
}

#[test]
fn an_unknown_discriminator_decodes_to_null() {
    assert_eq!(
        from_firestore_value(&Json::single("geoPointValue", Json::text("1,2"))),
        DocumentValue::Null
    );
    assert_eq!(from_firestore_value(&Json::object(vec![])), DocumentValue::Null);
    assert_eq!(from_firestore_value(&Json::text("bare")), DocumentValue::Null);
    assert_eq!(from_firestore_value(&Json::Null), DocumentValue::Null);
}

#[test]
fn an_array_or_map_of_another_shape_decodes_to_null() {
    assert_eq!(
        from_firestore_value(&Json::single("arrayValue", Json::object(vec![]))),
        DocumentValue::Null
    );
    assert_eq!(
        from_firestore_value(&Json::single(
            "arrayValue",
            Json::single("values", Json::text("no array"))
        )),
        DocumentValue::Null
    );
    assert_eq!(
        from_firestore_value(&Json::single(
            "mapValue",
            Json::single("fields", Json::array(vec![]))
        )),
        DocumentValue::Null
    );
}

#[test]
fn the_first_known_discriminator_decides() {
    let both = Json::pair(
        "nullValue",
        Json::Null,
        "stringValue",
        Json::text("wins"),
    );
    assert_eq!(from_firestore_value(&both), DocumentValue::text("wins"));
}

#[test]
fn integer_text_that_spells_no_integer_decodes_to_zero() {
    for text in ["", "abc", "1.5", "+5", "9223372036854775808", "--1", "1 "] {
        assert_eq!(
            from_firestore_value(&Json::single("integerValue", Json::text(text))),
            DocumentValue::integer(0),
            "{text:?}"
        );
    }
    assert_eq!(
        from_firestore_value(&Json::single("integerValue", Json::text("-9223372036854775808"))),
        DocumentValue::integer(i64::MIN)
    );
}

#[test]
fn a_payload_of_another_kind_is_taken_as_it_stands() {
    assert_eq!(
        from_firestore_value(&Json::single("integerValue", Json::integer(5))),
        DocumentValue::integer(5)
    );
    assert_eq!(
        from_firestore_value(&Json::single("doubleValue", Json::text("3"))),
        DocumentValue::text("3")
    );
    assert_eq!(
        from_firestore_value(&Json::single("timestampValue", Json::Bool(true))),
        DocumentValue::Bool(true)
    );
    assert_eq!(
        plain_from_json(&Json::object(vec![(
            "k".to_string(),
            Json::array(vec![Json::Null, Json::text("t")])
        )])),
        DocumentValue::Fields(vec![(
            "k".to_string(),
            DocumentValue::Array(vec![DocumentValue::Null, DocumentValue::text("t")])
        )])
    );
}

#[test]
fn a_document_without_fields_decodes_to_null() {
    assert_eq!(
        from_firestore_document(&Json::single("name", Json::text("projects/p/x"))),
        DocumentValue::Null
    );
    assert_eq!(
        from_firestore_document(&Json::single("fields", Json::text("no object"))),
        DocumentValue::Null
    );
    assert_eq!(
        from_firestore_document(&Json::single("fields", Json::object(vec![]))),
        DocumentValue::Fields(vec![])
    );
}

#[test]
fn decimal_text_of_integers() {
    assert_eq!(i64_to_decimal(0), "0");
    assert_eq!(i64_to_decimal(7), "7");
    assert_eq!(i64_to_decimal(-10), "-10");
    assert_eq!(i64_to_decimal(i64::MAX), "9223372036854775807");
    assert_eq!(i64_to_decimal(i64::MIN), "-9223372036854775808");
    assert_eq!(u64_to_decimal(u64::MAX), "18446744073709551615");
}

#[test]
fn reading_decimal_text() {
    assert_eq!(decimal_to_i64("0"), Some(0));
    assert_eq!(decimal_to_i64("-0"), Some(0));
    assert_eq!(decimal_to_i64("007"), Some(7));
    assert_eq!(decimal_to_i64("9223372036854775807"), Some(i64::MAX));
    assert_eq!(decimal_to_i64("-9223372036854775808"), Some(i64::MIN));
    assert_eq!(decimal_to_i64("9223372036854775808"), None);
    assert_eq!(decimal_to_i64("-9223372036854775809"), None);
    assert_eq!(decimal_to_i64("000000000000000000000000000012"), Some(12));
    assert_eq!(decimal_to_i64(""), None);
    assert_eq!(decimal_to_i64("-"), None);
    assert_eq!(decimal_to_i64("12a"), None);
    assert_eq!(decimal_to_i64("１２"), None);
}

#[test]
fn decimal_text_reads_back() {
    for n in [0i64, 1, -1, 10, -10, 99, 100, 1234567890123, i64::MIN, i64::MAX] {
        assert_eq!(decimal_to_i64(&i64_to_decimal(n)), Some(n));
    }
}

#[test]
fn deep_clone_copies_the_whole_tree() {
    let value = sample_document();
    assert_eq!(value.deep_clone(), value);
    let wire = to_firestore_value(&value);
    assert_eq!(wire.deep_clone(), wire);
}

#[test]
fn json_accessors() {
    let object = Json::triple("a", Json::integer(1), "b", Json::text("two"), "a", Json::Null);
    assert_eq!(object.get("a"), Some(&Json::integer(1)));
    assert_eq!(object.get("b").and_then(|b| b.as_str()), Some("two"));
    assert_eq!(object.get("c"), None);
    assert_eq!(Json::text("x").get("a"), None);
    assert_eq!(Json::integer(1).as_str(), None);
    assert_eq!(Json::array(vec![Json::Null]).as_array().map(|a| a.len()), Some(1));
    assert!(Json::Null.as_array().is_none());
    assert_eq!(object.as_object().map(|m| m.len()), Some(3));
    assert!(Json::array(vec![]).as_object().is_none());
}

#[test]
fn a_value_is_proper_when_no_name_occurs_twice() {
    assert!(sample_document().is_well_formed());
    assert!(DocumentValue::Null.is_well_formed());
    assert!(DocumentValue::Fields(vec![]).is_well_formed());
    let twice = DocumentValue::Fields(vec![
        ("a".to_string(), DocumentValue::Null),
        ("b".to_string(), DocumentValue::Null),
        ("a".to_string(), DocumentValue::integer(1)),
    ]);
    assert!(!twice.is_well_formed());
    assert!(!DocumentValue::Array(vec![DocumentValue::Null, twice]).is_well_formed());
    let nested = DocumentValue::Fields(vec![(
        "outer".to_string(),
        DocumentValue::Array(vec![DocumentValue::Fields(vec![
            ("x".to_string(), DocumentValue::Null),
            ("x".to_string(), DocumentValue::Null),
        ])]),
    )]);
    assert!(!nested.is_well_formed());
    let same_name_apart = DocumentValue::Fields(vec![
        ("a".to_string(), DocumentValue::Fields(vec![("a".to_string(), DocumentValue::Null)])),
        ("b".to_string(), DocumentValue::Fields(vec![("a".to_string(), DocumentValue::Null)])),
    ]);
    assert!(same_name_apart.is_well_formed());
}
