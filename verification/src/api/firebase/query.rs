//! Structured queries: filters, ordering, a cursor and a limit, sent as one
//! request, and the reading of what comes back.
use vstd::prelude::*;
use crate::api::firebase::codec::{
    decode_document, encode_value, from_firestore_document, to_firestore_value,
};
use crate::api::firebase::json::{items_model, Json, JsonModel, Number};
use crate::api::firebase::value::{fields_model, DocumentValue, ValueModel};
use crate::utils::text::{last_path_segment, last_segment};

verus! {

/// The comparison of a filter.
#[derive(Clone, Copy, Debug, PartialEq, Eq)]
pub enum FilterOp {
    Equal,
    NotEqual,
    LessThan,
    LessThanOrEqual,
    GreaterThan,
    GreaterThanOrEqual,
}

impl FilterOp {
    /// The name of the comparison on the wire.
    pub open spec fn name(self) -> Seq<char> {
        match self {
            FilterOp::Equal => "EQUAL"@,
            FilterOp::NotEqual => "NOT_EQUAL"@,
            FilterOp::LessThan => "LESS_THAN"@,
            FilterOp::LessThanOrEqual => "LESS_THAN_OR_EQUAL"@,
            FilterOp::GreaterThan => "GREATER_THAN"@,
            FilterOp::GreaterThanOrEqual => "GREATER_THAN_OR_EQUAL"@,
        }
    }

    /// The name of the comparison on the wire.
    pub fn as_str(&self) -> (name: &'static str)
        ensures
            name@ == self.name(),
    {
        match self {
            FilterOp::Equal => "EQUAL",
            FilterOp::NotEqual => "NOT_EQUAL",
            FilterOp::LessThan => "LESS_THAN",
            FilterOp::LessThanOrEqual => "LESS_THAN_OR_EQUAL",
            FilterOp::GreaterThan => "GREATER_THAN",
            FilterOp::GreaterThanOrEqual => "GREATER_THAN_OR_EQUAL",
        }
    }
}

/// The direction of an ordering.
#[derive(Clone, Copy, Debug, PartialEq, Eq)]
pub enum Direction {
    Ascending,
    Descending,
}

impl Direction {
    /// The name of the direction on the wire.
    pub open spec fn name(self) -> Seq<char> {
        match self {
            Direction::Ascending => "ASCENDING"@,
            Direction::Descending => "DESCENDING"@,
        }
    }

    /// The name of the direction on the wire.
    pub fn as_str(&self) -> (name: &'static str)
        ensures
            name@ == self.name(),
    {
        match self {
            Direction::Ascending => "ASCENDING",
            Direction::Descending => "DESCENDING",
        }
    }
}

/// A condition on one field: the field's path, a comparison and the value to
/// compare with.
#[derive(Debug, PartialEq, Eq)]
pub struct QueryFilter {
    /// The path of the field, such as `timestamps.created`.
    pub field: String,
    pub op: FilterOp,
    pub value: DocumentValue,
}

/// The mathematical value of a [`QueryFilter`].
pub struct FilterModel {
    pub field: Seq<char>,
    pub op: FilterOp,
    pub value: ValueModel,
}

impl View for QueryFilter {
    type V = FilterModel;

    open spec fn view(&self) -> FilterModel {
        FilterModel { field: self.field@, op: self.op, value: self.value@ }
    }
}

impl QueryFilter {
    /// A filter that asks for `field` to equal the text `value`.
    pub fn string_eq(field: &str, value: &str) -> (filter: QueryFilter)
        ensures
            filter@ == (FilterModel {
                field: field@,
                op: FilterOp::Equal,
                value: ValueModel::Text(value@),
            }),
    {
        QueryFilter {
            field: field.to_string(),
            op: FilterOp::Equal,
            value: DocumentValue::text(value),
        }
    }

    /// A filter that asks for `field` to lie at or after the instant
    /// `rfc3339`.
    pub fn timestamp_gte(field: &str, rfc3339: &str) -> (filter: QueryFilter)
        ensures
            filter@ == (FilterModel {
                field: field@,
                op: FilterOp::GreaterThanOrEqual,
                value: ValueModel::Timestamp(rfc3339@),
            }),
    {
        QueryFilter {
            field: field.to_string(),
            op: FilterOp::GreaterThanOrEqual,
            value: DocumentValue::timestamp(rfc3339),
        }
    }
}

/// An ordering of the results by one field.
#[derive(Clone, Debug, PartialEq, Eq)]
pub struct OrderBy {
    pub field: String,
    pub direction: Direction,
}

/// A structured query on one collection.
#[derive(Debug, PartialEq, Eq)]
pub struct QuerySpec {
    /// The identifier of the collection to search.
    pub collection: String,
    /// The conditions; a document must meet all of them.
    pub filters: Vec<QueryFilter>,
    pub order_by: Option<OrderBy>,
    /// The most documents to return. The query does not go on past it.
    pub limit: u32,
    /// Where to start: results come strictly after this value of the
    /// ordering field.
    pub start_after: Option<DocumentValue>,
}

/// The mathematical value of a [`QuerySpec`].
pub struct QueryModel {
    pub collection: Seq<char>,
    pub filters: Seq<FilterModel>,
    pub order_by: Option<(Seq<char>, Direction)>,
    pub limit: u32,
    pub start_after: Option<ValueModel>,
}

/// The models of a vector of filters.
pub open spec fn filters_model(filters: Seq<QueryFilter>) -> Seq<FilterModel> {
    Seq::new(filters.len(), |i: int| filters[i]@)
}

impl View for QuerySpec {
    type V = QueryModel;

    open spec fn view(&self) -> QueryModel {
        QueryModel {
            collection: self.collection@,
            filters: filters_model(self.filters@),
            order_by: match self.order_by {
                Some(order) => Some((order.field@, order.direction)),
                None => None,
            },
            limit: self.limit,
            start_after: match self.start_after {
                Some(value) => Some(value@),
                None => None,
            },
        }
    }
}

/// A reference to a field by its path.
pub open spec fn field_reference(path: Seq<char>) -> JsonModel {
    JsonModel::single("fieldPath"@, JsonModel::Text(path))
}

/// The wire form of one filter.
pub open spec fn field_filter(filter: FilterModel) -> JsonModel {
    JsonModel::single(
        "fieldFilter"@,
        JsonModel::triple(
            "field"@,
            field_reference(filter.field),
            "op"@,
            JsonModel::Text(filter.op.name()),
            "value"@,
            encode_value(filter.value),
        ),
    )
}

/// The wire forms of a run of filters, in order.
pub open spec fn field_filters(filters: Seq<FilterModel>) -> Seq<JsonModel> {
    Seq::new(filters.len(), |i: int| field_filter(filters[i]))
}

/// The predicate of a query: none without filters, the bare filter where
/// there is one, and a single `AND` node over all of them, in order, where
/// there are more.
pub open spec fn where_clause(filters: Seq<FilterModel>) -> Option<JsonModel> {
    if filters.len() == 0 {
        None
    } else if filters.len() == 1 {
        Some(field_filter(filters[0]))
    } else {
        Some(
            JsonModel::single(
                "compositeFilter"@,
                JsonModel::pair(
                    "filters"@,
                    JsonModel::Array(field_filters(filters)),
                    "op"@,
                    JsonModel::Text("AND"@),
                ),
            ),
        )
    }
}

/// The ordering of a query: a list with the one field and its direction.
pub open spec fn order_clause(field: Seq<char>, direction: Direction) -> JsonModel {
    JsonModel::Array(
        seq![
            JsonModel::pair(
                "direction"@,
                JsonModel::Text(direction.name()),
                "field"@,
                field_reference(field),
            ),
        ],
    )
}

/// The cursor of a query: start strictly after the value.
pub open spec fn cursor_clause(value: ValueModel) -> JsonModel {
    JsonModel::pair(
        "before"@,
        JsonModel::Bool(false),
        "values"@,
        JsonModel::Array(seq![encode_value(value)]),
    )
}

/// One member if the value is there, none otherwise.
pub open spec fn optional_member(key: Seq<char>, value: Option<JsonModel>) -> Seq<
    (Seq<char>, JsonModel),
> {
    match value {
        Some(v) => seq![(key, v)],
        None => Seq::empty(),
    }
}

/// The structured query: always the collection and the limit; the
/// ordering, the cursor and the predicate only where the query has them.
pub open spec fn structured_query(query: QueryModel) -> JsonModel {
    JsonModel::Object(
        seq![
            (
                "from"@,
                JsonModel::Array(
                    seq![JsonModel::single("collectionId"@, JsonModel::Text(query.collection))],
                ),
            ),
            ("limit"@, JsonModel::Number(Number::Integer(query.limit as i64))),
        ] + optional_member(
            "orderBy"@,
            match query.order_by {
                Some((field, direction)) => Some(order_clause(field, direction)),
                None => None,
            },
        ) + optional_member(
            "startAt"@,
            match query.start_after {
                Some(value) => Some(cursor_clause(value)),
                None => None,
            },
        ) + optional_member("where"@, where_clause(query.filters)),
    )
}

/// The body of a query request.
pub open spec fn query_body(query: QueryModel) -> JsonModel {
    JsonModel::single("structuredQuery"@, structured_query(query))
}

/// Filter composition: no filter leaves the predicate out, one filter stands
/// bare, and two or more stand under one `AND` node that holds exactly those
/// filters in the order given.
pub proof fn lemma_filter_composition(filters: Seq<FilterModel>)
    ensures
        filters.len() == 0 ==> where_clause(filters) is None,
        filters.len() == 1 ==> where_clause(filters) == Some(field_filter(filters[0])),
        filters.len() >= 2 ==> {
            &&& where_clause(filters) matches Some(node)
            &&& node.get("compositeFilter"@) matches Some(composite)
            &&& composite.get("op"@) == Some(JsonModel::Text("AND"@))
            &&& composite.get("filters"@) matches Some(JsonModel::Array(list))
            &&& list.len() == filters.len()
            &&& forall|i: int| 0 <= i < filters.len() ==> list[i] == field_filter(filters[i])
        },
{
    if filters.len() >= 2 {
        reveal_strlit("filters");
        reveal_strlit("op");
        let composite = JsonModel::pair(
            "filters"@,
            JsonModel::Array(field_filters(filters)),
            "op"@,
            JsonModel::Text("AND"@),
        );
        let node = JsonModel::single("compositeFilter"@, composite);
        let outer = node->Object_0;
        assert(outer[0] == ("compositeFilter"@, composite));
        let inner = composite->Object_0;
        assert(inner[0] == ("filters"@, JsonModel::Array(field_filters(filters))));
        assert(inner.drop_first()[0] == inner[1]);
        assert("filters"@.len() != "op"@.len());
        assert(crate::api::firebase::json::lookup(inner.drop_first(), "op"@) == Some(
            JsonModel::Text("AND"@),
        ));
        assert(composite.get("op"@) == Some(JsonModel::Text("AND"@)));
        assert(composite.get("filters"@) == Some(JsonModel::Array(field_filters(filters))));
        assert(node.get("compositeFilter"@) == Some(composite));
    }
}

/// Encodes one filter.
pub fn encode_filter(filter: &QueryFilter) -> (wire: Json)
    ensures
        wire@ == field_filter(filter@),
{
    Json::single(
        "fieldFilter",
        Json::triple(
            "field",
            Json::single("fieldPath", Json::text(filter.field.as_str())),
            "op",
            Json::text(filter.op.as_str()),
            "value",
            to_firestore_value(&filter.value),
        ),
    )
}

/// Builds the body of a query request.
pub fn build_query(query: &QuerySpec) -> (body: Json)
    ensures
        body@ == query_body(query@),
{
    let mut members: Vec<(String, Json)> = Vec::new();
    let mut from: Vec<Json> = Vec::new();
    from.push(Json::single("collectionId", Json::text(query.collection.as_str())));
    let from_json = Json::array(from);
    assert(from_json@->Array_0 =~= seq![
        JsonModel::single("collectionId"@, JsonModel::Text(query.collection@)),
    ]);
    members.push(("from".to_string(), from_json));
    members.push(("limit".to_string(), Json::integer(query.limit as i64)));
    let ghost base = crate::api::firebase::json::members_model(members@);
    assert(base =~= seq![
        (
            "from"@,
            JsonModel::Array(
                seq![JsonModel::single("collectionId"@, JsonModel::Text(query.collection@))],
            ),
        ),
        ("limit"@, JsonModel::Number(Number::Integer(query.limit as i64))),
    ]);
    match &query.order_by {
        Some(order) => {
            let mut list: Vec<Json> = Vec::new();
            list.push(
                Json::pair(
                    "direction",
                    Json::text(order.direction.as_str()),
                    "field",
                    Json::single("fieldPath", Json::text(order.field.as_str())),
                ),
            );
            let clause = Json::array(list);
            assert(clause@->Array_0 =~= order_clause(order.field@, order.direction)->Array_0);
            members.push(("orderBy".to_string(), clause));
        },
        None => {},
    }
    let ghost with_order = crate::api::firebase::json::members_model(members@);
    assert(with_order =~= base + optional_member(
        "orderBy"@,
        match query@.order_by {
            Some((field, direction)) => Some(order_clause(field, direction)),
            None => None,
        },
    ));
    match &query.start_after {
        Some(value) => {
            let mut values: Vec<Json> = Vec::new();
            values.push(to_firestore_value(value));
            let list = Json::array(values);
            assert(list@->Array_0 =~= seq![encode_value(value@)]);
            members.push(
                ("startAt".to_string(), Json::pair("before", Json::Bool(false), "values", list)),
            );
        },
        None => {},
    }
    let ghost with_cursor = crate::api::firebase::json::members_model(members@);
    assert(with_cursor =~= with_order + optional_member(
        "startAt"@,
        match query@.start_after {
            Some(value) => Some(cursor_clause(value)),
            None => None,
        },
    ));
    let n = query.filters.len();
    if n == 1 {
        members.push(("where".to_string(), encode_filter(&query.filters[0])));
    } else if n >= 2 {
        let mut clauses: Vec<Json> = Vec::new();
        let mut i: usize = 0;
        while i < n
            invariant
                i <= n,
                n == query.filters.len(),
                clauses@.len() == i,
                forall|k: int| 0 <= k < i ==> clauses@[k]@ == field_filter(query.filters@[k]@),
            decreases n - i,
        {
            clauses.push(encode_filter(&query.filters[i]));
            i += 1;
        }
        let list = Json::array(clauses);
        assert(list@->Array_0 =~= field_filters(filters_model(query.filters@)));
        members.push(
            (
                "where".to_string(),
                Json::single("compositeFilter", Json::pair("filters", list, "op", Json::text("AND"))),
            ),
        );
    }
    assert(crate::api::firebase::json::members_model(members@) =~= with_cursor + optional_member(
        "where"@,
        where_clause(filters_model(query.filters@)),
    ));
    Json::single("structuredQuery", Json::object(members))
}

/// The identifier and content of a wire document that has a name; `None`
/// for one without.
pub open spec fn named_document(doc: JsonModel) -> Option<(Seq<char>, ValueModel)> {
    match doc.get("name"@) {
        Some(JsonModel::Text(name)) => Some((last_segment(name), decode_document(doc))),
        _ => None,
    }
}

/// What one entry of a query answer holds: the document under `document`,
/// where the entry has one and it has a name. An entry without a document
/// is a marker of progress or read time.
pub open spec fn query_entry(entry: JsonModel) -> Option<(Seq<char>, ValueModel)> {
    match entry.get("document"@) {
        Some(doc) => named_document(doc),
        None => None,
    }
}

/// The documents of a query answer, in order; markers are passed over.
pub open spec fn query_documents(entries: Seq<JsonModel>) -> Seq<(Seq<char>, ValueModel)>
    decreases entries.len(),
{
    if entries.len() == 0 {
        Seq::empty()
    } else {
        let front = query_documents(entries.drop_last());
        match query_entry(entries.last()) {
            Some(found) => front.push(found),
            None => front,
        }
    }
}

/// The documents of a listing, in order; one without a name is passed over.
pub open spec fn listed_documents(docs: Seq<JsonModel>) -> Seq<(Seq<char>, ValueModel)>
    decreases docs.len(),
{
    if docs.len() == 0 {
        Seq::empty()
    } else {
        let front = listed_documents(docs.drop_last());
        match named_document(docs.last()) {
            Some(found) => front.push(found),
            None => front,
        }
    }
}

/// Reads a wire document that has a name.
pub fn read_named_document(doc: &Json) -> (found: Option<(String, DocumentValue)>)
    ensures
        found is Some <==> named_document(doc@) is Some,
        found matches Some(pair) ==> named_document(doc@) == Some((pair.0@, pair.1@)),
{
    match doc.get("name") {
        Some(name) => match name.as_str() {
            Some(text) => Some((last_path_segment(text), from_firestore_document(doc))),
            None => None,
        },
        None => None,
    }
}

/// Reads the entries of a query answer.
pub fn read_query_entries(entries: &Vec<Json>) -> (docs: Vec<(String, DocumentValue)>)
    ensures
        fields_model(docs@) == query_documents(items_model(entries@)),
{
    let mut docs: Vec<(String, DocumentValue)> = Vec::new();
    let ghost all = items_model(entries@);
    let mut i: usize = 0;
    while i < entries.len()
        invariant
            i <= entries.len(),
            all == items_model(entries@),
            fields_model(docs@) == query_documents(all.take(i as int)),
        decreases entries.len() - i,
    {
        let ghost before = fields_model(docs@);
        proof {
            let next = all.take(i + 1);
            assert(next.drop_last() =~= all.take(i as int));
            assert(next.last() == entries@[i as int]@);
        }
        if let Some(doc) = entries[i].get("document") {
            if let Some(pair) = read_named_document(doc) {
                let ghost found = (pair.0@, pair.1@);
                docs.push(pair);
                assert(fields_model(docs@) =~= before.push(found));
            }
        }
        i += 1;
    }
    proof {
        assert(all.take(entries.len() as int) =~= all);
    }
    docs
}

/// Reads the documents of a listing.
pub fn read_listed_documents(listed: &Vec<Json>) -> (docs: Vec<(String, DocumentValue)>)
    ensures
        fields_model(docs@) == listed_documents(items_model(listed@)),
{
    let mut docs: Vec<(String, DocumentValue)> = Vec::new();
    let ghost all = items_model(listed@);
    let mut i: usize = 0;
    while i < listed.len()
        invariant
            i <= listed.len(),
            all == items_model(listed@),
            fields_model(docs@) == listed_documents(all.take(i as int)),
        decreases listed.len() - i,
    {
        let ghost before = fields_model(docs@);
        proof {
            let next = all.take(i + 1);
            assert(next.drop_last() =~= all.take(i as int));
            assert(next.last() == listed@[i as int]@);
        }
        if let Some(pair) = read_named_document(&listed[i]) {
            let ghost found = (pair.0@, pair.1@);
            docs.push(pair);
            assert(fields_model(docs@) =~= before.push(found));
        }
        i += 1;
    }
    proof {
        assert(all.take(listed.len() as int) =~= all);
    }
    docs
}

} // verus!
