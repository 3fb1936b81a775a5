//! The request handlers' decidable core. Each HTTP handler is a thin
//! asynchronous shell around one of these functions: the shell performs the
//! backend calls and hands their plain results in; everything decided here
//! — validation, the query to send, the records to write, the response
//! shape, the aggregate health — is stated and proved.

use vstd::prelude::*;
use vstd::string::StringExecFns;
use crate::error::{issue_view, AppError, ValidationIssue};
use crate::repository::es::{expected_issues, search_query_body, search_query_body_spec,
    init_entities, FooESEntity, FooSearchRequest};
use crate::repository::mongo::{init_documents, lemma_find_after_init, store_after_init,
    store_find, FooEntity};
use crate::text::dec_str;

verus! {

/// The public response shape of a record, whichever backend it came from.
#[derive(Debug)]
pub struct Foo {
    pub id: String,
    pub description: String,
}

impl From<FooEntity> for Foo {
    fn from(entity: FooEntity) -> (foo: Foo) {
        Foo { id: entity._id, description: entity.description }
    }
}

impl vstd::std_specs::convert::FromSpecImpl<FooEntity> for Foo {
    open spec fn obeys_from_spec() -> bool {
        true
    }

    open spec fn from_spec(entity: FooEntity) -> Foo {
        Foo { id: entity._id, description: entity.description }
    }
}

impl From<FooESEntity> for Foo {
    fn from(entity: FooESEntity) -> (foo: Foo) {
        Foo { id: entity.id, description: entity.description }
    }
}

impl vstd::std_specs::convert::FromSpecImpl<FooESEntity> for Foo {
    open spec fn obeys_from_spec() -> bool {
        true
    }

    open spec fn from_spec(entity: FooESEntity) -> Foo {
        Foo { id: entity.id, description: entity.description }
    }
}

/// The records a bulk initialization writes, in the order the handler
/// issues the two calls: the search-index batch first, then the
/// document-store batch. Both are generated by the same rule, so the two
/// backends receive the same id/description pairs.
pub fn init_data(count: usize) -> (r: (Vec<FooESEntity>, Vec<FooEntity>))
    ensures
        r.0@.len() == count,
        r.1@.len() == count,
        forall|i: int|
            0 <= i < count ==> (#[trigger] r.0@[i]).id@ == dec_str(i as nat)
                && r.0@[i].description@ == crate::text::foo_description(i as nat),
        forall|i: int|
            0 <= i < count ==> (#[trigger] r.1@[i])._id@ == dec_str(i as nat)
                && r.1@[i].description@ == crate::text::foo_description(i as nat),
        forall|i: int|
            0 <= i < count ==> (#[trigger] r.0@[i]).id@ == r.1@[i]._id@
                && r.0@[i].description@ == r.1@[i].description@,
{
    (init_entities(count), init_documents(count))
}

/// Validates a search request and, when it is valid, builds the query
/// body to send: the request reaches the backend exactly when every field
/// constraint holds, and an invalid request is answered with one issue
/// per violated rule.
pub fn search_foo(request: &FooSearchRequest) -> (r: Result<String, AppError>)
    ensures
        r is Ok <==> request.spec_valid(),
        r matches Ok(body) ==> body@ == search_query_body_spec(request.text@),
        r matches Err(e) ==> (e matches AppError::Validation(issues) && issues@.map_values(
            |issue: ValidationIssue| issue_view(issue),
        ) == expected_issues(*request) && issues@.len() >= 1),
{
    match request.validate() {
        Err(e) => Err(e),
        Ok(()) => Ok(search_query_body(request.text.as_str())),
    }
}

/// Maps the records a search returned to the public response shape, in
/// the backend's order.
pub fn search_results(entities: Vec<FooESEntity>) -> (foos: Vec<Foo>)
    ensures
        foos@.len() == entities@.len(),
        forall|i: int|
            0 <= i < foos@.len() ==> (#[trigger] foos@[i]).id == entities@[i].id
                && foos@[i].description == entities@[i].description,
{
    let ghost orig = entities@;
    let mut entities = entities;
    let mut foos: Vec<Foo> = Vec::new();
    while entities.len() > 0
        invariant
            foos@.len() + entities@.len() == orig.len(),
            entities@ == orig.skip(foos@.len() as int),
            forall|i: int|
                0 <= i < foos@.len() ==> (#[trigger] foos@[i]).id == orig[i].id
                    && foos@[i].description == orig[i].description,
        decreases entities@.len(),
    {
        let ghost k = foos@.len() as int;
        let entity = entities.remove(0);
        proof {
            assert(entity == orig[k]);
            assert(orig.skip(k).remove(0) =~= orig.skip(k + 1));
        }
        foos.push(Foo::from(entity));
    }
    foos
}

/// What a lookup by id answers, given what the document store found.
pub open spec fn spec_get_foo_by_id(found: Option<FooEntity>) -> Result<Foo, AppError> {
    match found {
        Some(entity) => Ok(Foo { id: entity._id, description: entity.description }),
        None => Err(AppError::NotFound),
    }
}

/// Turns the document store's answer into the response: a found record is
/// mapped to the public shape, and absence is the not-found outcome —
/// an explicit error, not a failure of the backend.
pub fn get_foo_by_id(found: Option<FooEntity>) -> (r: Result<Foo, AppError>)
    ensures
        r == spec_get_foo_by_id(found),
        found is None ==> (r matches Err(e) && e.spec_status_code() == 404),
{
    match found {
        Some(entity) => Ok(Foo::from(entity)),
        None => Err(AppError::NotFound),
    }
}

/// A lookup for an id the initialization never wrote is answered with the
/// not-found outcome — status 404, never 500 — as long as the backend's
/// answer reflects the initialized collection.
pub proof fn lemma_uninserted_id_not_found(
    prior: Map<Seq<char>, Seq<char>>,
    count: nat,
    j: nat,
    found: Option<FooEntity>,
)
    requires
        j >= count,
        found matches Some(entity) ==> entity._id@ == dec_str(j) && store_find(
            store_after_init(prior, count),
            entity._id@,
        ) == Some(entity.description@),
    ensures
        found is None,
        spec_get_foo_by_id(found) == Err::<Foo, AppError>(AppError::NotFound),
        AppError::NotFound.spec_status_code() == 404,
{
    lemma_find_after_init(prior, count, j);
}

/// A backend's health, as the probes report it.
#[derive(PartialEq, Eq, Structural, Clone, Copy, Debug)]
pub enum Status {
    UP,
    DOWN,
}

/// Both backends must be up for the aggregate to be up.
pub open spec fn spec_combine(a: Status, b: Status) -> Status {
    if a is UP && b is UP {
        Status::UP
    } else {
        Status::DOWN
    }
}

impl Status {
    /// Combines two probe results with AND semantics.
    pub fn combine(self, rhs: Status) -> (r: Status)
        ensures
            r == spec_combine(self, rhs),
            r is UP <==> (self is UP && rhs is UP),
    {
        match (self, rhs) {
            (Status::UP, Status::UP) => Status::UP,
            _ => Status::DOWN,
        }
    }
}

/// The health response body.
#[derive(Debug)]
pub struct Health {
    pub status: Status,
}

/// The document store's probe: listing the known databases either
/// succeeds or it does not, and any failure counts as down.
pub fn get_mongo_status(probe_succeeded: bool) -> (s: Status)
    ensures
        s is UP <==> probe_succeeded,
{
    if probe_succeeded {
        Status::UP
    } else {
        Status::DOWN
    }
}

/// The search index's reported cluster health.
#[derive(PartialEq, Eq, Structural, Clone, Copy, Debug)]
pub enum HealthStatus {
    GREEN,
    YELLOW,
    RED,
}

pub open spec fn spec_parse_health_status(s: Seq<char>) -> Option<HealthStatus> {
    if s == "green"@ {
        Some(HealthStatus::GREEN)
    } else if s == "yellow"@ {
        Some(HealthStatus::YELLOW)
    } else if s == "red"@ {
        Some(HealthStatus::RED)
    } else {
        None
    }
}

fn str_eq(a: &str, b: &str) -> (r: bool)
    ensures
        r == (a@ == b@),
{
    let a_string = String::from_str(a);
    let b_string = String::from_str(b);
    a_string.eq(&b_string)
}

/// Reads the `status` field of the cluster-health body: exactly the three
/// documented colour names are recognized.
pub fn parse_health_status(s: &str) -> (r: Option<HealthStatus>)
    ensures
        r == spec_parse_health_status(s@),
{
    if str_eq(s, "green") {
        Some(HealthStatus::GREEN)
    } else if str_eq(s, "yellow") {
        Some(HealthStatus::YELLOW)
    } else if str_eq(s, "red") {
        Some(HealthStatus::RED)
    } else {
        None
    }
}

/// The search index's probe: a transport failure or an unreadable body
/// counts as down, a RED cluster counts as down, and any other reported
/// state — degraded but serving included — counts as up.
pub fn get_es_status(reported: Option<HealthStatus>) -> (s: Status)
    ensures
        s is UP <==> (reported matches Some(h) && !(h is RED)),
{
    match reported {
        Some(HealthStatus::GREEN) => Status::UP,
        Some(HealthStatus::YELLOW) => Status::UP,
        _ => Status::DOWN,
    }
}

/// The health endpoint's whole answer: always status 200, with a body
/// that is UP exactly when both probes came back up.
pub fn health_check(mongo_status: Status, es_status: Status) -> (r: (u16, Health))
    ensures
        r.0 == 200,
        r.1.status == spec_combine(mongo_status, es_status),
        r.1.status is UP <==> (mongo_status is UP && es_status is UP),
{
    (200, Health { status: mongo_status.combine(es_status) })
}

} // verus!
