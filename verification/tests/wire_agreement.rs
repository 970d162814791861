//! The codec against the same rules written over `serde_json` values.
use serde_json::{Number as SerdeNumber, Value};
use yuyuko::api::firebase::codec::{
    from_firestore_document, from_firestore_value, to_firestore_document, to_firestore_fields,
    to_firestore_value,
};
use yuyuko::api::firebase::json::{Json, Number};
use yuyuko::api::firebase::value::DocumentValue;

fn number_from_serde(number: &SerdeNumber) -> Number {
    match number.as_i64() {
        Some(integer) => Number::Integer(integer),
        None => Number::Double(number.as_f64().unwrap_or(0.0).to_bits()),
    }
}

fn number_to_serde(number: &Number) -> Value {
    match number {
        Number::Integer(integer) => Value::from(*integer),
        Number::Double(bits) => Value::from(f64::from_bits(*bits)),
    }
}

fn json_from_serde(value: &Value) -> Json {
    match value {
        Value::Null => Json::Null,
        Value::Bool(b) => Json::Bool(*b),
        Value::Number(n) => Json::Number(number_from_serde(n)),
        Value::String(s) => Json::Text(s.clone()),
        Value::Array(items) => Json::Array(items.iter().map(json_from_serde).collect()),
        Value::Object(members) => {
            Json::Object(members.iter().map(|(k, v)| (k.clone(), json_from_serde(v))).collect())
        }
    }
}

fn json_to_serde(json: &Json) -> Value {
    match json {
        Json::Null => Value::Null,
        Json::Bool(b) => Value::Bool(*b),
        Json::Number(n) => number_to_serde(n),
        Json::Text(s) => Value::String(s.clone()),
        Json::Array(items) => Value::Array(items.iter().map(json_to_serde).collect()),
        Json::Object(members) => {
            Value::Object(members.iter().map(|(k, v)| (k.clone(), json_to_serde(v))).collect())
        }
    }
}

fn value_from_serde(value: &Value) -> DocumentValue {
    match value {
        Value::Null => DocumentValue::Null,
        Value::Bool(b) => DocumentValue::Bool(*b),
        Value::Number(n) => DocumentValue::Number(number_from_serde(n)),
        Value::String(s) => DocumentValue::Text(s.clone()),
        Value::Array(items) => DocumentValue::Array(items.iter().map(value_from_serde).collect()),
        Value::Object(members) => DocumentValue::Fields(
            members.iter().map(|(k, v)| (k.clone(), value_from_serde(v))).collect(),
        ),
    }
}

fn value_to_serde(value: &DocumentValue) -> Value {
    match value {
        DocumentValue::Null => Value::Null,
        DocumentValue::Bool(b) => Value::Bool(*b),
        DocumentValue::Number(n) => number_to_serde(n),
        DocumentValue::Text(s) | DocumentValue::Timestamp(s) => Value::String(s.clone()),
        DocumentValue::Array(items) => Value::Array(items.iter().map(value_to_serde).collect()),
        DocumentValue::Fields(members) => {
            Value::Object(members.iter().map(|(k, v)| (k.clone(), value_to_serde(v))).collect())
        }
    }
}

fn object(members: Vec<(&str, Value)>) -> Value {
    let mut map = serde_json::Map::new();
    for (key, value) in members {
        map.insert(key.to_string(), value);
    }
    Value::Object(map)
}

fn to_wire_with_serde(value: &Value) -> Value {
    match value {
        Value::String(s) => object(vec![("stringValue", Value::String(s.clone()))]),
        Value::Number(n) => {
            if n.is_f64() {
                object(vec![("doubleValue", Value::Number(n.clone()))])
            } else {
                object(vec![("integerValue", Value::String(n.to_string()))])
            }
        }
        Value::Bool(b) => object(vec![("booleanValue", Value::Bool(*b))]),
        Value::Array(arr) => {
            let values: Vec<Value> = arr.iter().map(to_wire_with_serde).collect();
            object(vec![("arrayValue", object(vec![("values", Value::Array(values))]))])
        }
        Value::Object(obj) => {
            object(vec![("mapValue", object(vec![("fields", fields_with_serde(obj))]))])
        }
        Value::Null => object(vec![("nullValue", Value::Null)]),
    }
}

fn fields_with_serde(obj: &serde_json::Map<String, Value>) -> Value {
    Value::Object(obj.iter().map(|(k, v)| (k.clone(), to_wire_with_serde(v))).collect())
}

fn from_wire_with_serde(value: &Value) -> Value {
    if let Some(s) = value.get("stringValue") {
        return s.clone();
    }
    if let Some(n) = value.get("integerValue") {
        if let Some(s) = n.as_str() {
            return Value::Number(s.parse().unwrap_or(0.into()));
        }
        return n.clone();
    }
    if let Some(n) = value.get("doubleValue") {
        if let Some(i) = n.as_i64() {
            return Value::from(i as f64);
        }
        return n.clone();
    }
    if let Some(b) = value.get("booleanValue") {
        return b.clone();
    }
    if let Some(ts) = value.get("timestampValue") {
        return ts.clone();
    }
    if value.get("nullValue").is_some() {
        return Value::Null;
    }
    if let Some(arr) =
        value.get("arrayValue").and_then(|a| a.get("values")).and_then(|v| v.as_array())
    {
        return Value::Array(arr.iter().map(from_wire_with_serde).collect());
    }
    if let Some(obj) =
        value.get("mapValue").and_then(|m| m.get("fields")).and_then(|f| f.as_object())
    {
        return Value::Object(
            obj.iter().map(|(k, v)| (k.clone(), from_wire_with_serde(v))).collect(),
        );
    }
    Value::Null
}

fn document_from_wire_with_serde(doc: &Value) -> Value {
    match doc.get("fields") {
        Some(fields) => from_wire_with_serde(&object(vec![(
            "mapValue",
            object(vec![("fields", fields.clone())]),
        )])),
        None => Value::Null,
    }
}

struct Generator(u64);

impl Generator {
    fn next(&mut self) -> u64 {
        self.0 = self.0.wrapping_mul(6364136223846793005).wrapping_add(1442695040888963407);
        self.0 >> 33
    }

    fn below(&mut self, bound: u64) -> u64 {
        self.next() % bound
    }

    fn name(&mut self) -> String {
        let names = ["a", "b", "title", "日本", "", "nullValue", "fields", "values", "x.y"];
        names[self.below(names.len() as u64) as usize].to_string()
    }

    fn integer(&mut self) -> i64 {
        let shift = self.below(64);
        ((self.next() << 31 ^ self.next()) as i64) >> shift
    }

    fn value(&mut self, depth: u32) -> Value {
        let kinds = if depth == 0 { 5 } else { 7 };
        match self.below(kinds) {
            0 => Value::Null,
            1 => Value::Bool(self.below(2) == 0),
            2 => Value::from(self.integer()),
            3 => Value::from(self.integer() as f64 / 8.0 + 0.125),
            4 => Value::String(self.name()),
            5 => Value::Array((0..self.below(4)).map(|_| self.value(depth - 1)).collect()),
            _ => {
                let mut map = serde_json::Map::new();
                for _ in 0..self.below(4) {
                    let name = self.name();
                    map.insert(name, self.value(depth - 1));
                }
                Value::Object(map)
            }
        }
    }

    /// A wire document: mostly the wire form of a value, sometimes a shape
    /// that no encoder makes.
    fn wire(&mut self, depth: u32) -> Value {
        match self.below(8) {
            0 => self.value(depth),
            1 => {
                let discriminators = [
                    "stringValue", "integerValue", "doubleValue", "booleanValue",
                    "timestampValue", "nullValue", "arrayValue", "mapValue", "geoPointValue",
                ];
                let mut map = serde_json::Map::new();
                for _ in 0..=self.below(2) {
                    let key = discriminators[self.below(9) as usize];
                    let payload = match self.below(4) {
                        0 => self.value(1),
                        1 => Value::String(self.integer().to_string()),
                        2 => object(vec![("values", self.value(2))]),
                        _ => object(vec![("fields", self.value(2))]),
                    };
                    map.insert(key.to_string(), payload);
                }
                Value::Object(map)
            }
            _ => to_wire_with_serde(&self.value(depth)),
        }
    }
}

#[test]
fn encoding_agrees_with_the_rules_over_serde_values() {
    let mut g = Generator(21);
    for _ in 0..3000 {
        let value = g.value(3);
        let encoded = to_firestore_value(&value_from_serde(&value));
        assert_eq!(json_to_serde(&encoded), to_wire_with_serde(&value), "{value}");
        let fields = to_firestore_fields(&value_from_serde(&value));
        let expected_fields = match &value {
            Value::Object(obj) => fields_with_serde(obj),
            _ => Value::Object(serde_json::Map::new()),
        };
        assert_eq!(json_to_serde(&fields), expected_fields, "{value}");
        let document = to_firestore_document(&value_from_serde(&value));
        assert_eq!(json_to_serde(&document), object(vec![("fields", expected_fields)]));
    }
}

#[test]
fn decoding_agrees_with_the_rules_over_serde_values() {
    let mut g = Generator(22);
    for _ in 0..4000 {
        let wire = g.wire(3);
        let decoded = from_firestore_value(&json_from_serde(&wire));
        assert_eq!(value_to_serde(&decoded), from_wire_with_serde(&wire), "{wire}");
        let document = from_firestore_document(&json_from_serde(&wire));
        assert_eq!(value_to_serde(&document), document_from_wire_with_serde(&wire), "{wire}");
    }
}

#[test]
fn every_value_comes_back_from_the_wire() {
    let mut g = Generator(23);
    for _ in 0..3000 {
        let value = value_from_serde(&g.value(4));
        assert!(value.is_well_formed());
        assert_eq!(from_firestore_value(&to_firestore_value(&value)), value);
        let with_time = DocumentValue::Array(vec![
            value.deep_clone(),
            DocumentValue::timestamp("2024-01-16T01:30:00Z"),
        ]);
        assert_eq!(from_firestore_value(&to_firestore_value(&with_time)), with_time);
    }
}
