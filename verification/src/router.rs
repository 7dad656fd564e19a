//! Translation of registry outcomes into status codes and response bodies.
//!
//! The transport layer decodes a request into a plain name string, calls in
//! here while holding the registry exclusively, and writes the returned
//! status and body back out. Nothing here normalizes, trims or case-folds a
//! name: what was received is what is stored and echoed.

use vstd::prelude::*;
use vstd::string::StringExecFns;

use crate::registry::{contains_name, insert_result, InsertOutcome, Registry};

verus! {

/// The status reported when a name was created.
pub const STATUS_CREATED: u16 = 201;

/// The status reported when the name was already present. A duplicate is
/// deliberately mapped to a plain client error rather than to a conflict
/// status; this mapping is part of the service's documented contract.
pub const STATUS_ALREADY_EXISTS: u16 = 400;

/// The body confirming that `n` was created.
pub open spec fn created_message(n: Seq<char>) -> Seq<char> {
    "Name "@ + n + " created.\n"@
}

/// The body reporting that `n` was already present.
pub open spec fn exists_message(n: Seq<char>) -> Seq<char> {
    "Name "@ + n + " already exists\n"@
}

/// The status code for an insert outcome: created maps to success,
/// already-exists to a client error.
pub fn outcome_status(outcome: &InsertOutcome) -> (s: u16)
    ensures
        outcome is Created ==> s == STATUS_CREATED,
        outcome is AlreadyExists ==> s == STATUS_ALREADY_EXISTS,
{
    match outcome {
        InsertOutcome::Created(_) => STATUS_CREATED,
        InsertOutcome::AlreadyExists(_) => STATUS_ALREADY_EXISTS,
    }
}

/// The response body for an insert outcome, echoing the name the outcome
/// carries.
pub fn outcome_message(outcome: &InsertOutcome) -> (m: String)
    ensures
        outcome matches InsertOutcome::Created(n) ==> m@ == created_message(n@),
        outcome matches InsertOutcome::AlreadyExists(n) ==> m@ == exists_message(n@),
{
    match outcome {
        InsertOutcome::Created(n) => {
            let mut m = "Name ".to_owned();
            m.append(n.as_str());
            m.append(" created.\n");
            m
        },
        InsertOutcome::AlreadyExists(n) => {
            let mut m = "Name ".to_owned();
            m.append(n.as_str());
            m.append(" already exists\n");
            m
        },
    }
}

/// The whole create path below the transport layer: one insert-if-absent,
/// then the status and body for its outcome. Returns `(status, body)`.
pub fn create_name(registry: &mut Registry, name: String) -> (r: (u16, String))
    requires
        old(registry).wf(),
    ensures
        final(registry).wf(),
        final(registry)@ == insert_result(old(registry)@, name@),
        contains_name(old(registry)@, name@) ==> r.0 == STATUS_ALREADY_EXISTS && r.1@
            == exists_message(name@),
        !contains_name(old(registry)@, name@) ==> r.0 == STATUS_CREATED && r.1@
            == created_message(name@),
{
    let outcome = registry.insert_if_absent(name);
    let status = outcome_status(&outcome);
    let body = outcome_message(&outcome);
    (status, body)
}

} // verus!
