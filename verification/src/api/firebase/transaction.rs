//! Atomic batches of writes, committed under a transaction that the store
//! issued.
use vstd::prelude::*;
use crate::api::firebase::codec::{encode_fields, to_firestore_fields};
use crate::api::firebase::json::{items_model, Json, JsonModel};
use crate::api::firebase::value::{lemma_fields_value_view, DocumentValue, ValueModel};

verus! {

/// One write of an atomic batch.
#[derive(Debug, PartialEq, Eq)]
pub enum TransactionWrite {
    /// Delete the document at a path such as `users/123/immersion_logs/abc`.
    Delete { document_path: String },
    /// Set the given top-level fields of the document at a path and leave
    /// its other fields as they are.
    Update { document_path: String, fields: DocumentValue },
}

/// The mathematical value of a [`TransactionWrite`].
pub enum WriteModel {
    Delete { document_path: Seq<char> },
    Update { document_path: Seq<char>, fields: ValueModel },
}

impl View for TransactionWrite {
    type V = WriteModel;

    open spec fn view(&self) -> WriteModel {
        match self {
            TransactionWrite::Delete { document_path } => WriteModel::Delete {
                document_path: document_path@,
            },
            TransactionWrite::Update { document_path, fields } => WriteModel::Update {
                document_path: document_path@,
                fields: fields@,
            },
        }
    }
}

/// The models of a batch of writes.
pub open spec fn writes_model(writes: Seq<TransactionWrite>) -> Seq<WriteModel> {
    Seq::new(writes.len(), |i: int| writes[i]@)
}

/// The full resource name of the document at `document_path`.
pub open spec fn resource_path(project: Seq<char>, document_path: Seq<char>) -> Seq<char> {
    "projects/"@ + project + "/databases/(default)/documents/"@ + document_path
}

/// The names of the top-level fields of a value, as JSON strings.
pub open spec fn mask_paths(fields: ValueModel) -> Seq<JsonModel> {
    match fields {
        ValueModel::Fields(members) => Seq::new(
            members.len(),
            |i: int| JsonModel::Text(members[i].0),
        ),
        _ => Seq::empty(),
    }
}

/// The wire form of one write. A deletion names the document. An update
/// carries the document's name and the encoded fields, together with a mask
/// that holds exactly the names of those fields.
pub open spec fn write_object(project: Seq<char>, write: WriteModel) -> JsonModel {
    match write {
        WriteModel::Delete { document_path } => JsonModel::single(
            "delete"@,
            JsonModel::Text(resource_path(project, document_path)),
        ),
        WriteModel::Update { document_path, fields } => JsonModel::pair(
            "update"@,
            JsonModel::pair(
                "fields"@,
                encode_fields(fields),
                "name"@,
                JsonModel::Text(resource_path(project, document_path)),
            ),
            "updateMask"@,
            JsonModel::single("fieldPaths"@, JsonModel::Array(mask_paths(fields))),
        ),
    }
}

/// The wire forms of a batch of writes, in order.
pub open spec fn write_objects(project: Seq<char>, writes: Seq<WriteModel>) -> Seq<JsonModel> {
    Seq::new(writes.len(), |i: int| write_object(project, writes[i]))
}

/// The body of a commit: the transaction and all of its writes, in order,
/// in one request.
pub open spec fn commit_body(
    project: Seq<char>,
    transaction_id: Seq<char>,
    writes: Seq<WriteModel>,
) -> JsonModel {
    JsonModel::pair(
        "transaction"@,
        JsonModel::Text(transaction_id),
        "writes"@,
        JsonModel::Array(write_objects(project, writes)),
    )
}

/// The full resource name of the document at `document_path`.
pub fn full_document_path(project: &str, document_path: &str) -> (path: String)
    ensures
        path@ == resource_path(project@, document_path@),
{
    let mut path = String::from_str("projects/");
    path.append(project);
    path.append("/databases/(default)/documents/");
    path.append(document_path);
    path
}

/// The names of the top-level fields of a value, as a JSON array.
pub fn mask_field_paths(fields: &DocumentValue) -> (paths: Json)
    ensures
        paths@ == JsonModel::Array(mask_paths(fields@)),
{
    let mut names: Vec<Json> = Vec::new();
    match fields {
        DocumentValue::Fields(members) => {
            proof {
                lemma_fields_value_view(*members);
            }
            let mut i: usize = 0;
            while i < members.len()
                invariant
                    i <= members.len(),
                    names@.len() == i,
                    forall|k: int| 0 <= k < i ==> names@[k]@ == JsonModel::Text(members@[k].0@),
                decreases members.len() - i,
            {
                names.push(Json::text(members[i].0.as_str()));
                i += 1;
            }
            assert(items_model(names@) =~= mask_paths(fields@));
        },
        _ => {
            assert(items_model(names@) =~= mask_paths(fields@));
        },
    }
    Json::array(names)
}

/// Encodes one write of a batch.
pub fn encode_write(project: &str, write: &TransactionWrite) -> (wire: Json)
    ensures
        wire@ == write_object(project@, write@),
{
    match write {
        TransactionWrite::Delete { document_path } => Json::single(
            "delete",
            Json::Text(full_document_path(project, document_path.as_str())),
        ),
        TransactionWrite::Update { document_path, fields } => Json::pair(
            "update",
            Json::pair(
                "fields",
                to_firestore_fields(fields),
                "name",
                Json::Text(full_document_path(project, document_path.as_str())),
            ),
            "updateMask",
            Json::single("fieldPaths", mask_field_paths(fields)),
        ),
    }
}

/// Whether every update of a batch gives proper fields: no name twice, at
/// any depth.
pub open spec fn writes_well_formed(writes: Seq<WriteModel>) -> bool {
    forall|i: int|
        0 <= i < writes.len() ==> ((#[trigger] writes[i]) matches WriteModel::Update { fields, .. }
            ==> fields.well_formed())
}

/// Whether every update of a batch gives proper fields.
pub fn check_writes(writes: &Vec<TransactionWrite>) -> (proper: bool)
    ensures
        proper == writes_well_formed(writes_model(writes@)),
{
    let mut i: usize = 0;
    while i < writes.len()
        invariant
            i <= writes.len(),
            forall|k: int|
                0 <= k < i ==> ((#[trigger] writes_model(writes@)[k]) matches WriteModel::Update {
                    fields,
                    ..
                } ==> fields.well_formed()),
        decreases writes.len() - i,
    {
        assert(writes_model(writes@)[i as int] == writes@[i as int]@);
        match &writes[i] {
            TransactionWrite::Update { document_path, fields } => {
                if !fields.is_well_formed() {
                    return false;
                }
            },
            TransactionWrite::Delete { document_path } => {},
        }
        i += 1;
    }
    true
}

/// Builds the body of a commit; `None` for a batch in which an update gives
/// a field twice under one name.
pub fn build_commit(project: &str, transaction_id: &str, writes: &Vec<TransactionWrite>) -> (body:
    Option<Json>)
    ensures
        match body {
            Some(json) => writes_well_formed(writes_model(writes@)) && json@ == commit_body(
                project@,
                transaction_id@,
                writes_model(writes@),
            ),
            None => !writes_well_formed(writes_model(writes@)),
        },
{
    if !check_writes(writes) {
        return None;
    }
    let mut objects: Vec<Json> = Vec::new();
    let mut i: usize = 0;
    while i < writes.len()
        invariant
            i <= writes.len(),
            objects@.len() == i,
            forall|k: int| 0 <= k < i ==> objects@[k]@ == write_object(project@, writes@[k]@),
        decreases writes.len() - i,
    {
        objects.push(encode_write(project, &writes[i]));
        i += 1;
    }
    assert(items_model(objects@) =~= write_objects(project@, writes_model(writes@)));
    Some(Json::pair("transaction", Json::text(transaction_id), "writes", Json::array(objects)))
}

/// A commit sends every write of the batch, in order, in one body; and the
/// mask of an update holds exactly the names of the fields it sets.
pub proof fn lemma_commit_holds_every_write(
    project: Seq<char>,
    transaction_id: Seq<char>,
    writes: Seq<WriteModel>,
)
    ensures
        commit_body(project, transaction_id, writes).get("writes"@) matches Some(
            JsonModel::Array(list),
        ) && list.len() == writes.len() && (forall|i: int|
            0 <= i < writes.len() ==> list[i] == write_object(project, writes[i])),
        forall|i: int|
            0 <= i < writes.len() && writes[i] is Update ==> (#[trigger] write_object(
                project,
                writes[i],
            )).get("updateMask"@) == Some(
                JsonModel::single(
                    "fieldPaths"@,
                    JsonModel::Array(mask_paths(writes[i]->Update_fields)),
                ),
            ),
{
    reveal_strlit("transaction");
    reveal_strlit("writes");
    reveal_strlit("update");
    reveal_strlit("updateMask");
    let body = commit_body(project, transaction_id, writes);
    let members = body->Object_0;
    assert(members[0].0 == "transaction"@);
    assert("transaction"@.len() != "writes"@.len());
    assert(members.drop_first()[0] == members[1]);
    assert(crate::api::firebase::json::lookup(members.drop_first(), "writes"@) == Some(
        JsonModel::Array(write_objects(project, writes)),
    ));
    assert forall|i: int| 0 <= i < writes.len() && writes[i] is Update implies (
    #[trigger] write_object(project, writes[i])).get("updateMask"@) == Some(
        JsonModel::single(
            "fieldPaths"@,
            JsonModel::Array(mask_paths(writes[i]->Update_fields)),
        ),
    ) by {
        let object = write_object(project, writes[i]);
        let inner = object->Object_0;
        assert(inner[0].0 == "update"@);
        assert("update"@.len() != "updateMask"@.len());
        assert(inner.drop_first()[0] == inner[1]);
        assert(crate::api::firebase::json::lookup(inner.drop_first(), "updateMask"@) == Some(
            inner[1].1,
        ));
    }
}

} // verus!
