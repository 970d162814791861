//! Access layer for the remote document store.
//!
//! Every operation comes as a pair. A function whose name ends in `_request`
//! builds what has to be sent; the function named after the operation reads
//! the answer. The transport between the two is the caller's.
pub mod codec;
pub mod decimal;
pub mod double;
pub mod http;
pub mod json;
pub mod query;
pub mod token;
pub mod transaction;
pub mod value;

use vstd::prelude::*;
use crate::api::firebase::codec::{
    decode_document, encode_document, from_firestore_document, to_firestore_document,
};
use crate::api::firebase::http::{
    is_success, Body, BodyModel, FirebaseError, Method, Request, RequestModel, Response,
    ResponseModel, NOT_FOUND,
};
use crate::api::firebase::json::{Json, JsonModel};
use crate::api::firebase::query::{
    build_query, listed_documents, query_body, query_documents, read_listed_documents,
    read_query_entries, QuerySpec,
};
use crate::api::firebase::token::{
    access_token, claims_at, exchange_request, read_token_exchange, signed_assertion,
    signed_exchange_request, usable_token, FRESHNESS_BUFFER, TOKEN_LIFETIME,
};
use crate::api::firebase::transaction::{
    build_commit, commit_body, writes_model, writes_well_formed, TransactionWrite,
};
use crate::api::firebase::value::{
    field_names, fields_model, lemma_fields_value_view, values_model, DocumentValue, ValueModel,
};
use crate::utils::text::{last_path_segment, last_segment, str_eq};

verus! {

/// The identity of a service account: who signs, and for which project.
#[derive(Clone, Debug, PartialEq, Eq)]
pub struct ServiceAccount {
    pub project_id: String,
    /// The RSA private key, PEM-encoded.
    pub private_key: String,
    pub client_email: String,
}

/// A bearer token and the instant, in seconds since the epoch, at which it
/// was obtained. It expires one lifetime of a token later.
#[derive(Clone, Debug, PartialEq, Eq)]
pub struct CachedToken {
    pub token: String,
    pub obtained_at: u64,
}

/// The client of the document store: the service account it acts for and
/// the bearer token it last obtained.
pub struct FirebaseClient {
    service_account: ServiceAccount,
    token_cache: Option<CachedToken>,
}

/// The root of all documents of a project.
pub open spec fn documents_root(project: Seq<char>) -> Seq<char> {
    "https://firestore.googleapis.com/v1/projects/"@ + project + "/databases/(default)/documents"@
}

/// The address of the document `doc_id` of `collection`.
pub open spec fn document_url(project: Seq<char>, collection: Seq<char>, doc_id: Seq<char>) -> Seq<
    char,
> {
    documents_root(project) + "/"@ + collection + "/"@ + doc_id
}

/// The address of a subcollection of a document.
pub open spec fn subcollection_url(
    project: Seq<char>,
    collection: Seq<char>,
    doc_id: Seq<char>,
    subcollection: Seq<char>,
) -> Seq<char> {
    document_url(project, collection, doc_id) + "/"@ + subcollection
}

/// The names of the top-level fields of a document; none for a value that
/// holds no named fields.
pub open spec fn top_level_names(data: ValueModel) -> Seq<Seq<char>> {
    match data {
        ValueModel::Fields(members) => field_names(members),
        _ => Seq::empty(),
    }
}

/// The query string that names the fields a partial write may touch: one
/// `updateMask.fieldPaths=` entry for each name, in order, joined by `&`.
pub open spec fn update_mask_query(names: Seq<Seq<char>>) -> Seq<char>
    decreases names.len(),
{
    if names.len() == 0 {
        Seq::empty()
    } else if names.len() == 1 {
        "updateMask.fieldPaths="@ + names[0]
    } else {
        update_mask_query(names.drop_last()) + "&"@ + "updateMask.fieldPaths="@ + names.last()
    }
}

/// Update-mask isolation. The mask of a merging write names a field exactly
/// when the write gives that field, and names the fields in the order
/// given: a field that the write does not give is outside the mask, so the
/// store leaves it as it is.
pub proof fn lemma_update_mask_isolation(data: ValueModel, name: Seq<char>)
    ensures
        top_level_names(data).contains(name) <==> (data matches ValueModel::Fields(members)
            && exists|i: int| 0 <= i < members.len() && (#[trigger] members[i]).0 == name),
        data matches ValueModel::Fields(members) ==> top_level_names(data).len() == members.len()
            && forall|i: int|
            0 <= i < members.len() ==> top_level_names(data)[i] == (#[trigger] members[i]).0,
{
    match data {
        ValueModel::Fields(members) => {
            let names = top_level_names(data);
            if names.contains(name) {
                let i = choose|i: int| 0 <= i < names.len() && names[i] == name;
                assert(members[i].0 == name);
            }
            if exists|i: int| 0 <= i < members.len() && (#[trigger] members[i]).0 == name {
                let i = choose|i: int| 0 <= i < members.len() && (#[trigger] members[i]).0 == name;
                assert(names[i] == name);
            }
        },
        _ => {
            assert(!top_level_names(data).contains(name));
        },
    }
}

/// Why a merging write of `data` is not sent, if it is not: the data gives a
/// field twice under one name, or it gives no field at all.
pub open spec fn merge_refusal(data: ValueModel) -> Option<FirebaseError> {
    if !data.well_formed() {
        Some(FirebaseError::RepeatedField)
    } else if top_level_names(data).len() == 0 {
        Some(FirebaseError::EmptyWrite)
    } else {
        None
    }
}

/// An authenticated request without a body.
pub open spec fn bare_request(method: Method, url: Seq<char>, token: Seq<char>) -> RequestModel {
    RequestModel { method, url, bearer: Some(token), body: BodyModel::Empty }
}

/// An authenticated request that carries a JSON document.
pub open spec fn document_request(
    method: Method,
    url: Seq<char>,
    token: Seq<char>,
    body: JsonModel,
) -> RequestModel {
    RequestModel { method, url, bearer: Some(token), body: BodyModel::Document(body) }
}

/// The answer to a point read: absent for "not found", the store's refusal
/// for any other status outside 200 to 299, the decoded document otherwise.
pub open spec fn read_outcome(
    response: http::ResponseModel,
    outcome: Result<Option<DocumentValue>, FirebaseError>,
) -> bool {
    if response.status == NOT_FOUND {
        outcome == Ok::<Option<DocumentValue>, FirebaseError>(None)
    } else if !is_success(response.status) {
        outcome matches Err(e) && e.is_store_error_of(response)
    } else {
        match response.json {
            None => outcome == Err::<Option<DocumentValue>, FirebaseError>(
                FirebaseError::MalformedResponse,
            ),
            Some(doc) => outcome matches Ok(Some(value)) && value@ == decode_document(doc),
        }
    }
}

/// The outcome of a call whose answer carries nothing to read: success
/// for a status from 200 to 299, the store's refusal otherwise.
pub open spec fn write_outcome(response: ResponseModel, outcome: Result<(), FirebaseError>) -> bool {
    if is_success(response.status) {
        outcome is Ok
    } else {
        outcome matches Err(e) && e.is_store_error_of(response)
    }
}

/// The address of one page of a listing: pages of 300 documents, and the
/// page token where the listing continues an earlier page.
pub open spec fn page_url(
    project: Seq<char>,
    collection: Seq<char>,
    doc_id: Seq<char>,
    subcollection: Seq<char>,
    page_token: Option<Seq<char>>,
) -> Seq<char> {
    let first = subcollection_url(project, collection, doc_id, subcollection) + "?pageSize=300"@;
    match page_token {
        Some(token) => first + "&pageToken="@ + token,
        None => first,
    }
}

/// The documents on one page of a listing.
pub open spec fn page_documents(page: JsonModel) -> Seq<(Seq<char>, ValueModel)> {
    match page.get("documents"@) {
        Some(JsonModel::Array(docs)) => listed_documents(docs),
        _ => Seq::empty(),
    }
}

/// The token of the page that follows, where the store names one.
pub open spec fn next_page_token(page: JsonModel) -> Option<Seq<char>> {
    match page.get("nextPageToken"@) {
        Some(JsonModel::Text(token)) => Some(token),
        _ => None,
    }
}

/// The named fields `members` with the field `name` set to `value`: the
/// first field of that name is replaced, and where there is none the field
/// is added at the end.
pub open spec fn with_member(
    members: Seq<(Seq<char>, ValueModel)>,
    name: Seq<char>,
    value: ValueModel,
) -> Seq<(Seq<char>, ValueModel)>
    decreases members.len(),
{
    if members.len() == 0 {
        seq![(name, value)]
    } else if members[0].0 == name {
        seq![(name, value)] + members.drop_first()
    } else {
        seq![members[0]] + with_member(members.drop_first(), name, value)
    }
}

/// A user document with the user's identifier in the field `_id`.
pub open spec fn with_id(parsed: ValueModel, id: Seq<char>) -> ValueModel {
    match parsed {
        ValueModel::Fields(members) => ValueModel::Fields(
            with_member(members, "_id"@, ValueModel::Text(id)),
        ),
        _ => ValueModel::Fields(seq![("_id"@, ValueModel::Text(id))]),
    }
}

/// One user of the listing of users: the decoded document, with the last
/// segment of its name under `_id` where it has a name.
pub open spec fn user_document(doc: JsonModel) -> ValueModel {
    match doc.get("name"@) {
        Some(JsonModel::Text(name)) => with_id(decode_document(doc), last_segment(name)),
        _ => decode_document(doc),
    }
}

/// The users that a listing of users holds, in order.
pub open spec fn user_documents(page: JsonModel) -> Seq<ValueModel> {
    match page.get("documents"@) {
        Some(JsonModel::Array(docs)) => Seq::new(docs.len(), |i: int| user_document(docs[i])),
        _ => Seq::empty(),
    }
}

/// The transaction that the store issued: the text under `transaction`.
pub open spec fn issued_transaction(answer: JsonModel) -> Option<Seq<char>> {
    match answer.get("transaction"@) {
        Some(JsonModel::Text(id)) => Some(id),
        _ => None,
    }
}

/// The progress of a listing that walks a whole subcollection page by page.
#[derive(Debug, PartialEq, Eq)]
pub struct Listing {
    /// The documents gathered so far: identifier and content.
    pub documents: Vec<(String, DocumentValue)>,
    /// The token of the page to ask for next; `None` for the first page.
    pub page_token: Option<String>,
    /// Whether the store has said that no page follows.
    pub finished: bool,
}

/// The mathematical value of a [`Listing`].
pub struct ListingModel {
    pub gathered: Seq<(Seq<char>, ValueModel)>,
    pub token: Option<Seq<char>>,
    pub finished: bool,
}

impl View for Listing {
    type V = ListingModel;

    open spec fn view(&self) -> ListingModel {
        ListingModel { gathered: self.gathered(), token: self.token(), finished: self.finished }
    }
}

/// The listing that has not asked for any page yet.
pub open spec fn listing_start() -> ListingModel {
    ListingModel { gathered: Seq::empty(), token: None, finished: false }
}

/// A listing after one more page: the documents of the page follow those
/// gathered before, and the listing goes on exactly when the page names a
/// next page.
pub open spec fn listing_step(before: ListingModel, page: JsonModel) -> ListingModel {
    ListingModel {
        gathered: before.gathered + page_documents(page),
        token: next_page_token(page),
        finished: next_page_token(page) is None,
    }
}

/// The documents of the first `upto` pages, page after page.
pub open spec fn documents_of_pages(pages: Seq<JsonModel>, upto: int) -> Seq<
    (Seq<char>, ValueModel),
>
    decreases upto,
{
    if upto <= 0 {
        Seq::empty()
    } else {
        documents_of_pages(pages, upto - 1) + page_documents(pages[upto - 1])
    }
}

/// Pagination exhaustiveness. A listing that starts with nothing and takes
/// the pages one after the other has, after each page, gathered exactly the
/// documents of the pages so far: every document once, in the order of the
/// pages, wherever the pages end. It asks for the page that the last one
/// named, and it is finished exactly when the last one named none.
pub proof fn lemma_listing_is_exhaustive(states: Seq<ListingModel>, pages: Seq<JsonModel>, upto: int)
    requires
        states.len() == pages.len() + 1,
        states[0] == listing_start(),
        forall|k: int|
            0 <= k < pages.len() ==> states[k + 1] == listing_step(states[k], #[trigger] pages[k]),
        0 <= upto <= pages.len(),
    ensures
        states[upto].gathered == documents_of_pages(pages, upto),
        upto > 0 ==> states[upto].token == next_page_token(pages[upto - 1]) && (
        states[upto].finished <==> next_page_token(pages[upto - 1]) is None),
    decreases upto,
{
    if upto > 0 {
        lemma_listing_is_exhaustive(states, pages, upto - 1);
        assert(states[upto - 1 + 1] == listing_step(states[upto - 1], pages[upto - 1]));
    }
}

impl Listing {
    /// The documents gathered so far.
    pub open spec fn gathered(&self) -> Seq<(Seq<char>, ValueModel)> {
        fields_model(self.documents@)
    }

    /// The token of the page to ask for next.
    pub open spec fn token(&self) -> Option<Seq<char>> {
        match self.page_token {
            Some(token) => Some(token@),
            None => None,
        }
    }

    /// A listing that has not asked for any page yet.
    pub fn new() -> (listing: Listing)
        ensures
            listing@ == listing_start(),
    {
        let listing = Listing { documents: Vec::new(), page_token: None, finished: false };
        assert(listing.gathered() =~= Seq::empty());
        listing
    }
}

/// A field of a service-account key: the text under `name`.
pub open spec fn credential_field(key_file: JsonModel, name: Seq<char>) -> Option<Seq<char>> {
    match key_file.get(name) {
        Some(JsonModel::Text(value)) => Some(value),
        _ => None,
    }
}

/// A field of a service-account key.
fn read_credential_field(key_file: &Json, name: &str) -> (field: Option<String>)
    ensures
        match field {
            Some(value) => credential_field(key_file@, name@) == Some(value@),
            None => credential_field(key_file@, name@) is None,
        },
{
    match key_file.get(name) {
        Some(found) => match found.as_str() {
            Some(value) => Some(value.to_string()),
            None => None,
        },
        None => None,
    }
}

/// The store's refusal, with the status and body of the answer.
fn store_error(response: &Response) -> (e: FirebaseError)
    ensures
        e.is_store_error_of(response@),
{
    FirebaseError::Store { status: response.status, body: response.text.clone() }
}

/// Reads the answer to a point read.
fn read_document(response: &Response) -> (outcome: Result<Option<DocumentValue>, FirebaseError>)
    ensures
        read_outcome(response@, outcome),
{
    if response.status == NOT_FOUND {
        return Ok(None);
    }
    if !response.succeeded() {
        return Err(store_error(response));
    }
    match &response.json {
        None => Err(FirebaseError::MalformedResponse),
        Some(doc) => Ok(Some(from_firestore_document(doc))),
    }
}

impl FirebaseClient {
    /// The project that the client works on.
    pub closed spec fn project(&self) -> Seq<char> {
        self.service_account.project_id@
    }

    /// The service account's email address.
    pub closed spec fn email(&self) -> Seq<char> {
        self.service_account.client_email@
    }

    /// The token the client holds and its expiry, if it holds one.
    pub closed spec fn cached(&self) -> Option<(Seq<char>, int)> {
        match self.token_cache {
            Some(cached) => Some((cached.token@, cached.obtained_at + TOKEN_LIFETIME)),
            None => None,
        }
    }

    /// The PEM text of the service account's private key.
    pub closed spec fn private_key(&self) -> Seq<char> {
        self.service_account.private_key@
    }

    /// A client for the service account whose key file holds `key_file`.
    /// The key must name the project, the private key and the account's
    /// email address, each as text; a key that lacks one of them is
    /// malformed.
    pub fn from_file(key_file: &Json) -> (outcome: Result<FirebaseClient, FirebaseError>)
        ensures
            match (
                credential_field(key_file@, "project_id"@),
                credential_field(key_file@, "private_key"@),
                credential_field(key_file@, "client_email"@),
            ) {
                (Some(project), Some(key), Some(email)) => outcome matches Ok(client)
                    && client.project() == project && client.private_key() == key
                    && client.email() == email && client.cached() is None,
                _ => outcome matches Err(e) && e == FirebaseError::MalformedCredential,
            },
    {
        let project_id = read_credential_field(key_file, "project_id");
        let private_key = read_credential_field(key_file, "private_key");
        let client_email = read_credential_field(key_file, "client_email");
        match (project_id, private_key, client_email) {
            (Some(project_id), Some(private_key), Some(client_email)) => Ok(
                FirebaseClient {
                    service_account: ServiceAccount { project_id, private_key, client_email },
                    token_cache: None,
                },
            ),
            _ => Err(FirebaseError::MalformedCredential),
        }
    }

    /// A client for `service_account` that holds no token yet.
    pub fn new(service_account: ServiceAccount) -> (client: FirebaseClient)
        ensures
            client.project() == service_account.project_id@,
            client.email() == service_account.client_email@,
            client.private_key() == service_account.private_key@,
            client.cached() is None,
    {
        FirebaseClient { service_account, token_cache: None }
    }

    /// The root address of the project's documents.
    pub fn base_url(&self) -> (url: String)
        ensures
            url@ == documents_root(self.project()),
    {
        let mut url = String::from_str("https://firestore.googleapis.com/v1/projects/");
        url.append(self.service_account.project_id.as_str());
        url.append("/databases/(default)/documents");
        url
    }

    /// The address of a document.
    fn document_address(&self, collection: &str, doc_id: &str) -> (url: String)
        ensures
            url@ == document_url(self.project(), collection@, doc_id@),
    {
        let mut url = self.base_url();
        url.append("/");
        url.append(collection);
        url.append("/");
        url.append(doc_id);
        url
    }

    /// The request that reads the document `doc_id` of `collection`.
    pub fn get_document_request(&self, token: &str, collection: &str, doc_id: &str) -> (request:
        Request)
        ensures
            request@ == bare_request(
                Method::Get,
                document_url(self.project(), collection@, doc_id@),
                token@,
            ),
    {
        Request {
            method: Method::Get,
            url: self.document_address(collection, doc_id),
            bearer: Some(token.to_string()),
            body: Body::Empty,
        }
    }

    /// Reads the answer to `get_document_request`: `None` for a document
    /// that does not exist, the decoded document otherwise.
    pub fn get_document(response: &Response) -> (outcome: Result<
        Option<DocumentValue>,
        FirebaseError,
    >)
        ensures
            read_outcome(response@, outcome),
    {
        read_document(response)
    }

    /// The request that reads a document inside a transaction, pinned to the
    /// transaction's snapshot.
    pub fn get_document_in_transaction_request(
        &self,
        token: &str,
        transaction_id: &str,
        collection: &str,
        doc_id: &str,
    ) -> (request: Request)
        ensures
            request@ == bare_request(
                Method::Get,
                document_url(self.project(), collection@, doc_id@) + "?transaction="@
                    + transaction_id@,
                token@,
            ),
    {
        let mut url = self.document_address(collection, doc_id);
        url.append("?transaction=");
        url.append(transaction_id);
        Request { method: Method::Get, url, bearer: Some(token.to_string()), body: Body::Empty }
    }

    /// Reads the answer to `get_document_in_transaction_request`, as
    /// `get_document` does.
    pub fn get_document_in_transaction(response: &Response) -> (outcome: Result<
        Option<DocumentValue>,
        FirebaseError,
    >)
        ensures
            read_outcome(response@, outcome),
    {
        read_document(response)
    }

    /// The request that deletes a document.
    pub fn delete_document_request(&self, token: &str, collection: &str, doc_id: &str) -> (request:
        Request)
        ensures
            request@ == bare_request(
                Method::Delete,
                document_url(self.project(), collection@, doc_id@),
                token@,
            ),
    {
        Request {
            method: Method::Delete,
            url: self.document_address(collection, doc_id),
            bearer: Some(token.to_string()),
            body: Body::Empty,
        }
    }

    /// Reads the answer to `delete_document_request`. Deleting is idempotent:
    /// "not found" counts as success.
    pub fn delete_document(response: &Response) -> (outcome: Result<(), FirebaseError>)
        ensures
            is_success(response.status) || response.status == NOT_FOUND ==> outcome is Ok,
            !is_success(response.status) && response.status != NOT_FOUND ==> (outcome matches Err(
                e,
            ) && e.is_store_error_of(response@)),
    {
        if !response.succeeded() && response.status != NOT_FOUND {
            return Err(store_error(response));
        }
        Ok(())
    }

    /// The query string that limits a partial write to the top-level fields
    /// of `data`.
    pub fn update_mask(data: &DocumentValue) -> (query: String)
        ensures
            query@ == update_mask_query(top_level_names(data@)),
    {
        let mut query = String::new();
        match data {
            DocumentValue::Fields(members) => {
                proof {
                    lemma_fields_value_view(*members);
                }
                let ghost names = field_names(fields_model(members@));
                let mut i: usize = 0;
                while i < members.len()
                    invariant
                        i <= members.len(),
                        names == field_names(fields_model(members@)),
                        query@ == update_mask_query(names.take(i as int)),
                    decreases members.len() - i,
                {
                    proof {
                        let next = names.take(i + 1);
                        assert(next.drop_last() =~= names.take(i as int));
                        assert(next.last() == members@[i as int].0@);
                        assert(next[0] == next.last() || next.len() > 1);
                    }
                    if i > 0 {
                        query.append("&");
                    }
                    query.append("updateMask.fieldPaths=");
                    query.append(members[i].0.as_str());
                    proof {
                        if i == 0 {
                            assert(query@ =~= "updateMask.fieldPaths="@ + members@[0].0@);
                        }
                    }
                    i += 1;
                }
                proof {
                    assert(names.take(members.len() as int) =~= names);
                }
            },
            _ => {},
        }
        query
    }

    /// The request of a merging write: it sets the top-level fields of
    /// `data` and, through the update mask, leaves every other field of the
    /// remote document as it is. No request is made for data that gives no
    /// field, since a write without a mask would replace the whole
    /// document, nor for data that gives a field twice.
    pub fn set_document_request(
        &self,
        token: &str,
        collection: &str,
        doc_id: &str,
        data: &DocumentValue,
    ) -> (outcome: Result<Request, FirebaseError>)
        ensures
            match outcome {
                Ok(request) => merge_refusal(data@) is None && request@ == document_request(
                    Method::Patch,
                    document_url(self.project(), collection@, doc_id@) + "?"@ + update_mask_query(
                        top_level_names(data@),
                    ),
                    token@,
                    encode_document(data@),
                ),
                Err(e) => merge_refusal(data@) == Some(e),
            },
    {
        if !data.is_well_formed() {
            return Err(FirebaseError::RepeatedField);
        }
        match data {
            DocumentValue::Fields(members) => {
                proof {
                    lemma_fields_value_view(*members);
                }
                if members.len() == 0 {
                    return Err(FirebaseError::EmptyWrite);
                }
            },
            _ => {
                return Err(FirebaseError::EmptyWrite);
            },
        }
        let mut url = self.document_address(collection, doc_id);
        url.append("?");
        let mask = Self::update_mask(data);
        url.append(mask.as_str());
        Ok(
            Request {
                method: Method::Patch,
                url,
                bearer: Some(token.to_string()),
                body: Body::Document(to_firestore_document(data)),
            },
        )
    }

    /// Reads the answer to `set_document_request`.
    pub fn set_document(response: &Response) -> (outcome: Result<(), FirebaseError>)
        ensures
            is_success(response.status) ==> outcome is Ok,
            !is_success(response.status) ==> (outcome matches Err(e) && e.is_store_error_of(
                response@,
            )),
    {
        if !response.succeeded() {
            return Err(store_error(response));
        }
        Ok(())
    }

    /// The request that adds a document to a subcollection; the store picks
    /// its identifier. No request is made for data that gives a field
    /// twice.
    pub fn add_to_subcollection_request(
        &self,
        token: &str,
        collection: &str,
        doc_id: &str,
        subcollection: &str,
        data: &DocumentValue,
    ) -> (outcome: Result<Request, FirebaseError>)
        ensures
            match outcome {
                Ok(request) => data@.well_formed() && request@ == document_request(
                    Method::Post,
                    subcollection_url(self.project(), collection@, doc_id@, subcollection@),
                    token@,
                    encode_document(data@),
                ),
                Err(e) => e == FirebaseError::RepeatedField && !data@.well_formed(),
            },
    {
        if !data.is_well_formed() {
            return Err(FirebaseError::RepeatedField);
        }
        let mut url = self.document_address(collection, doc_id);
        url.append("/");
        url.append(subcollection);
        Ok(
            Request {
                method: Method::Post,
                url,
                bearer: Some(token.to_string()),
                body: Body::Document(to_firestore_document(data)),
            },
        )
    }

    /// Reads the answer to `add_to_subcollection_request`: the identifier of
    /// the new document, which is the last segment of the resource name the
    /// store returns (empty where it returns no name).
    pub fn add_to_subcollection(response: &Response) -> (outcome: Result<String, FirebaseError>)
        ensures
            !is_success(response.status) ==> (outcome matches Err(e) && e.is_store_error_of(
                response@,
            )),
            is_success(response.status) && response.json is None ==> outcome == Err::<
                String,
                FirebaseError,
            >(FirebaseError::MalformedResponse),
            is_success(response.status) && response.json is Some ==> (outcome matches Ok(id)
                && id@ == last_segment(resource_name(response.json.unwrap()@))),
    {
        if !response.succeeded() {
            return Err(store_error(response));
        }
        match &response.json {
            None => Err(FirebaseError::MalformedResponse),
            Some(doc) => Ok(last_path_segment(name_of(doc))),
        }
    }

    /// The request for one page of a listing of a subcollection.
    pub fn query_subcollection_with_ids_request(
        &self,
        token: &str,
        collection: &str,
        doc_id: &str,
        subcollection: &str,
        listing: &Listing,
    ) -> (request: Request)
        ensures
            request@ == bare_request(
                Method::Get,
                page_url(self.project(), collection@, doc_id@, subcollection@, listing.token()),
                token@,
            ),
    {
        let mut url = self.document_address(collection, doc_id);
        url.append("/");
        url.append(subcollection);
        url.append("?pageSize=300");
        match &listing.page_token {
            Some(page_token) => {
                url.append("&pageToken=");
                url.append(page_token.as_str());
            },
            None => {},
        }
        Request { method: Method::Get, url, bearer: Some(token.to_string()), body: Body::Empty }
    }

    /// Takes one page into a listing. The documents of the page follow those
    /// gathered before, in order. The listing goes on exactly when the page
    /// names a next page; otherwise it is finished. A refusal ends the
    /// listing with the store's error.
    pub fn query_subcollection_with_ids(listing: Listing, response: &Response) -> (outcome: Result<
        Listing,
        FirebaseError,
    >)
        ensures
            !is_success(response.status) ==> (outcome matches Err(e) && e.is_store_error_of(
                response@,
            )),
            is_success(response.status) && response.json is None ==> outcome == Err::<
                Listing,
                FirebaseError,
            >(FirebaseError::MalformedResponse),
            is_success(response.status) && response.json is Some ==> (outcome matches Ok(next)
                && next@ == listing_step(listing@, response.json.unwrap()@)),
    {
        if !response.succeeded() {
            return Err(store_error(response));
        }
        match &response.json {
            None => Err(FirebaseError::MalformedResponse),
            Some(page) => {
                let mut documents = listing.documents;
                let ghost before = fields_model(documents@);
                if let Some(found) = page.get("documents") {
                    if let Some(listed) = found.as_array() {
                        let mut fresh = read_listed_documents(listed);
                        let ghost added = fields_model(fresh@);
                        documents.append(&mut fresh);
                        assert(fields_model(documents@) =~= before + added);
                    }
                }
                assert(fields_model(documents@) =~= before + page_documents(page@));
                let page_token = match page.get("nextPageToken") {
                    Some(found) => match found.as_str() {
                        Some(text) => Some(text.to_string()),
                        None => None,
                    },
                    None => None,
                };
                let finished = page_token.is_none();
                Ok(Listing { documents, page_token, finished })
            },
        }
    }

    /// The content of listed documents without their identifiers.
    pub fn query_subcollection(documents: Vec<(String, DocumentValue)>) -> (contents: Vec<
        DocumentValue,
    >)
        ensures
            contents@.len() == documents@.len(),
            forall|i: int| 0 <= i < documents@.len() ==> contents@[i]@ == documents@[i].1@,
    {
        let mut contents: Vec<DocumentValue> = Vec::new();
        for pair in it: documents
            invariant
                contents@.len() == it.index(),
                forall|k: int| 0 <= k < it.index() ==> contents@[k] == it.seq()[k].1,
        {
            contents.push(pair.1);
        }
        contents
    }

    /// The request that lists the collection of users.
    pub fn get_all_users_request(&self, token: &str) -> (request: Request)
        ensures
            request@ == bare_request(
                Method::Get,
                documents_root(self.project()) + "/users"@,
                token@,
            ),
    {
        let mut url = self.base_url();
        url.append("/users");
        Request { method: Method::Get, url, bearer: Some(token.to_string()), body: Body::Empty }
    }

    /// Reads the answer to `get_all_users_request`: every user document,
    /// with the user's identifier in its field `_id`.
    pub fn get_all_users(response: &Response) -> (outcome: Result<Vec<DocumentValue>, FirebaseError>)
        ensures
            !is_success(response.status) ==> (outcome matches Err(e) && e.is_store_error_of(
                response@,
            )),
            is_success(response.status) && response.json is None ==> outcome == Err::<
                Vec<DocumentValue>,
                FirebaseError,
            >(FirebaseError::MalformedResponse),
            is_success(response.status) && response.json is Some ==> (outcome matches Ok(users)
                && values_model(users@) == user_documents(response.json.unwrap()@)),
    {
        if !response.succeeded() {
            return Err(store_error(response));
        }
        match &response.json {
            None => Err(FirebaseError::MalformedResponse),
            Some(page) => {
                let mut users: Vec<DocumentValue> = Vec::new();
                if let Some(found) = page.get("documents") {
                    if let Some(docs) = found.as_array() {
                        let mut i: usize = 0;
                        while i < docs.len()
                            invariant
                                i <= docs.len(),
                                users@.len() == i,
                                forall|k: int|
                                    0 <= k < i ==> users@[k]@ == user_document(docs@[k]@),
                            decreases docs.len() - i,
                        {
                            users.push(read_user_document(&docs[i]));
                            i += 1;
                        }
                        assert(values_model(users@) =~= user_documents(page@));
                        return Ok(users);
                    }
                }
                assert(values_model(users@) =~= user_documents(page@));
                Ok(users)
            },
        }
    }

    /// The request of a structured query on a subcollection of the document
    /// `parent_doc_id` of `parent_collection`.
    pub fn run_query_request(
        &self,
        token: &str,
        parent_collection: &str,
        parent_doc_id: &str,
        query: &QuerySpec,
    ) -> (request: Request)
        ensures
            request@ == document_request(
                Method::Post,
                document_url(self.project(), parent_collection@, parent_doc_id@) + ":runQuery"@,
                token@,
                query_body(query@),
            ),
    {
        let mut url = self.document_address(parent_collection, parent_doc_id);
        url.append(":runQuery");
        Request {
            method: Method::Post,
            url,
            bearer: Some(token.to_string()),
            body: Body::Document(build_query(query)),
        }
    }

    /// Reads the answer to `run_query_request`: the documents among the
    /// entries, in order. Entries without a document are markers and are
    /// passed over. The answer is bounded by the query's limit; nothing
    /// asks for more.
    pub fn run_query(response: &Response) -> (outcome: Result<
        Vec<(String, DocumentValue)>,
        FirebaseError,
    >)
        ensures
            !is_success(response.status) ==> (outcome matches Err(e) && e.is_store_error_of(
                response@,
            )),
            is_success(response.status) ==> match response@.json {
                Some(JsonModel::Array(entries)) => outcome matches Ok(docs) && fields_model(docs@)
                    == query_documents(entries),
                _ => outcome == Err::<Vec<(String, DocumentValue)>, FirebaseError>(
                    FirebaseError::MalformedResponse,
                ),
            },
    {
        if !response.succeeded() {
            return Err(store_error(response));
        }
        match &response.json {
            Some(answer) => match answer.as_array() {
                Some(entries) => Ok(read_query_entries(entries)),
                None => Err(FirebaseError::MalformedResponse),
            },
            None => Err(FirebaseError::MalformedResponse),
        }
    }

    /// The request that begins a transaction.
    pub fn begin_transaction_request(&self, token: &str) -> (request: Request)
        ensures
            request@ == document_request(
                Method::Post,
                documents_root(self.project()) + ":beginTransaction"@,
                token@,
                JsonModel::Object(Seq::empty()),
            ),
    {
        let mut url = self.base_url();
        url.append(":beginTransaction");
        let empty: Vec<(String, Json)> = Vec::new();
        let body = Json::object(empty);
        assert(body@->Object_0 =~= Seq::empty());
        Request {
            method: Method::Post,
            url,
            bearer: Some(token.to_string()),
            body: Body::Document(body),
        }
    }

    /// Reads the answer to `begin_transaction_request`: the identifier of
    /// the transaction that the store issued.
    pub fn begin_transaction(response: &Response) -> (outcome: Result<String, FirebaseError>)
        ensures
            !is_success(response.status) ==> (outcome matches Err(e) && e.is_store_error_of(
                response@,
            )),
            is_success(response.status) ==> match response@.json {
                Some(answer) => match issued_transaction(answer) {
                    Some(id) => outcome matches Ok(t) && t@ == id,
                    None => outcome == Err::<String, FirebaseError>(
                        FirebaseError::MalformedResponse,
                    ),
                },
                None => outcome == Err::<String, FirebaseError>(FirebaseError::MalformedResponse),
            },
    {
        if !response.succeeded() {
            return Err(store_error(response));
        }
        match &response.json {
            Some(answer) => match answer.get("transaction") {
                Some(found) => match found.as_str() {
                    Some(id) => Ok(id.to_string()),
                    None => Err(FirebaseError::MalformedResponse),
                },
                None => Err(FirebaseError::MalformedResponse),
            },
            None => Err(FirebaseError::MalformedResponse),
        }
    }

    /// The request that commits a transaction: all writes of the batch, in
    /// order, in a single body, so that the store applies all of them or
    /// none. No request is made for a batch in which an update gives a
    /// field twice.
    pub fn commit_transaction_request(
        &self,
        token: &str,
        transaction_id: &str,
        writes: &Vec<TransactionWrite>,
    ) -> (outcome: Result<Request, FirebaseError>)
        ensures
            match outcome {
                Ok(request) => writes_well_formed(writes_model(writes@)) && request@
                    == document_request(
                    Method::Post,
                    documents_root(self.project()) + ":commit"@,
                    token@,
                    commit_body(self.project(), transaction_id@, writes_model(writes@)),
                ),
                Err(e) => e == FirebaseError::RepeatedField && !writes_well_formed(
                    writes_model(writes@),
                ),
            },
    {
        let mut url = self.base_url();
        url.append(":commit");
        match build_commit(self.service_account.project_id.as_str(), transaction_id, writes) {
            Some(body) => Ok(
                Request {
                    method: Method::Post,
                    url,
                    bearer: Some(token.to_string()),
                    body: Body::Document(body),
                },
            ),
            None => Err(FirebaseError::RepeatedField),
        }
    }

    /// Reads the answer to `commit_transaction_request`. A refusal is one
    /// error for the whole batch.
    pub fn commit_transaction(response: &Response) -> (outcome: Result<(), FirebaseError>)
        ensures
            write_outcome(response@, outcome),
    {
        if !response.succeeded() {
            return Err(store_error(response));
        }
        Ok(())
    }

    /// The cached token, if it may still be used at `now`: the client holds
    /// one, and more than the buffer of its validity remains. `None` tells
    /// the caller to exchange a new assertion.
    pub fn get_access_token(&self, now: u64) -> (token: Option<String>)
        ensures
            match token {
                Some(t) => usable_token(self.cached(), now as int) == Some(t@),
                None => usable_token(self.cached(), now as int) is None,
            },
    {
        match &self.token_cache {
            Some(cached) => {
                if now < cached.obtained_at || now - cached.obtained_at < TOKEN_LIFETIME
                    - FRESHNESS_BUFFER {
                    Some(cached.token.clone())
                } else {
                    None
                }
            },
            None => None,
        }
    }

    /// The request that exchanges a freshly signed assertion of the service
    /// account for a token.
    pub fn generate_access_token_request(&self, now: u64) -> (outcome: Result<
        Request,
        FirebaseError,
    >)
        requires
            now + TOKEN_LIFETIME <= u64::MAX,
        ensures
            match outcome {
                Ok(request) => signed_assertion(self.private_key(), claims_at(self.email(), now))
                    matches Some(assertion) && request@ == exchange_request(assertion),
                Err(e) => e == FirebaseError::Signing && signed_assertion(
                    self.private_key(),
                    claims_at(self.email(), now),
                ) is None,
            },
    {
        signed_exchange_request(
            self.service_account.client_email.as_str(),
            self.service_account.private_key.as_str(),
            now,
        )
    }

    /// Reads the answer to `generate_access_token_request`.
    pub fn generate_access_token(response: &Response) -> (outcome: Result<String, FirebaseError>)
        ensures
            !is_success(response.status) ==> (outcome matches Err(e) && e.is_auth_error_of(
                response@,
            )),
            is_success(response.status) ==> match access_token(response@.json) {
                Some(token) => outcome matches Ok(t) && t@ == token,
                None => outcome == Err::<String, FirebaseError>(FirebaseError::MalformedResponse),
            },
    {
        read_token_exchange(response)
    }

    /// Replaces the cached token by `token`, obtained at `now` and taken to
    /// be valid for the lifetime of a token.
    pub fn store_access_token(&mut self, token: &str, now: u64)
        ensures
            final(self).cached() == Some((token@, now + TOKEN_LIFETIME)),
            final(self).project() == old(self).project(),
            final(self).email() == old(self).email(),
            final(self).private_key() == old(self).private_key(),
    {
        self.token_cache = Some(
            CachedToken { token: token.to_string(), obtained_at: now },
        );
    }
}

/// The resource name of a wire document: its `name` where that is text, and
/// the empty text otherwise.
pub open spec fn resource_name(doc: JsonModel) -> Seq<char> {
    match doc.get("name"@) {
        Some(JsonModel::Text(name)) => name,
        _ => Seq::empty(),
    }
}

/// The resource name of a wire document.
fn name_of(doc: &Json) -> (name: &str)
    ensures
        name@ == resource_name(doc@),
{
    proof {
        reveal_strlit("");
    }
    match doc.get("name") {
        Some(found) => match found.as_str() {
            Some(name) => name,
            None => "",
        },
        None => "",
    }
}

/// Sets the field `name` of a run of named fields.
fn set_member(fields: Vec<(String, DocumentValue)>, name: &str, value: DocumentValue) -> (updated:
    Vec<(String, DocumentValue)>)
    ensures
        fields_model(updated@) == with_member(fields_model(fields@), name@, value@),
{
    let ghost model = fields_model(fields@);
    let mut members = fields;
    let n = members.len();
    let mut i: usize = 0;
    proof {
        assert(model.skip(0) =~= model);
        assert(model.take(0) + with_member(model, name@, value@) =~= with_member(
            model,
            name@,
            value@,
        ));
    }
    while i < n
        invariant
            i <= n,
            n == members.len(),
            model == fields_model(members@),
            model == fields_model(fields@),
            with_member(model, name@, value@) == model.take(i as int) + with_member(
                model.skip(i as int),
                name@,
                value@,
            ),
        decreases n - i,
    {
        let ghost rest = model.skip(i as int);
        proof {
            assert(rest[0] == model[i as int]);
            assert(rest.drop_first() =~= model.skip(i + 1));
            assert(model.take(i + 1) =~= model.take(i as int) + seq![model[i as int]]);
        }
        if str_eq(members[i].0.as_str(), name) {
            let ghost new_value = value@;
            members.set(i, (name.to_string(), value));
            proof {
                assert(fields_model(members@) =~= model.take(i as int) + (seq![
                    (name@, new_value),
                ] + rest.drop_first()));
            }
            return members;
        }
        proof {
            assert(model.take(i as int) + (seq![rest[0]] + with_member(
                rest.drop_first(),
                name@,
                value@,
            )) =~= model.take(i + 1) + with_member(model.skip(i + 1), name@, value@));
        }
        i += 1;
    }
    let ghost new_value = value@;
    members.push((name.to_string(), value));
    proof {
        assert(model.skip(n as int) =~= Seq::empty());
        assert(model.take(n as int) =~= model);
        assert(fields_model(members@) =~= model + seq![(name@, new_value)]);
    }
    members
}

/// Reads one user of the listing of users.
fn read_user_document(doc: &Json) -> (user: DocumentValue)
    ensures
        user@ == user_document(doc@),
{
    let parsed = from_firestore_document(doc);
    match doc.get("name") {
        Some(found) => match found.as_str() {
            Some(name) => {
                let id = DocumentValue::Text(last_path_segment(name));
                match parsed {
                    DocumentValue::Fields(members) => {
                        proof {
                            lemma_fields_value_view(members);
                        }
                        let updated = set_member(members, "_id", id);
                        proof {
                            lemma_fields_value_view(updated);
                        }
                        DocumentValue::Fields(updated)
                    },
                    _ => {
                        let mut members: Vec<(String, DocumentValue)> = Vec::new();
                        let ghost id_model = id@;
                        members.push(("_id".to_string(), id));
                        proof {
                            lemma_fields_value_view(members);
                            assert(fields_model(members@) =~= seq![("_id"@, id_model)]);
                        }
                        DocumentValue::Fields(members)
                    },
                }
            },
            None => parsed,
        },
        None => parsed,
    }
}

} // verus!
