//! The outcomes of a request and the HTTP responses they map to, and the
//! decisions taken around the select-then-invoke critical section.
use vstd::prelude::*;
use crate::json::{entries_view, json_view, lemma_entries_view, reply_json, to_json, Json, JsonModel};
use crate::path::Invocation;
use crate::reply::ReplyValue;
use crate::text::{decimal, decimal_string};

verus! {

/// Why a request produced no result.
#[derive(Debug, Clone, PartialEq)]
pub enum Failure {
    /// The path names no command.
    MalformedPath,
    /// The logical database with this index could not be selected.
    DbSelectFailure(u64),
    /// The backend rejected the command; its own error text.
    CommandFailure(String),
    /// The call into the backend itself failed.
    InternalFailure(String),
}

pub open spec fn failure_status(f: Failure) -> u16 {
    match f {
        Failure::InternalFailure(_) => 500,
        _ => 400,
    }
}

pub open spec fn failure_text(f: Failure) -> Seq<char> {
    match f {
        Failure::MalformedPath => "malformed path: no command given"@,
        Failure::DbSelectFailure(n) => "failed to select database "@ + decimal(n as nat),
        Failure::CommandFailure(m) => m@,
        Failure::InternalFailure(m) => m@,
    }
}

impl Failure {
    /// The HTTP status for this failure: 500 for an internal one, else 400.
    pub fn status(&self) -> (r: u16)
        ensures
            r == failure_status(*self),
    {
        match self {
            Failure::InternalFailure(_) => 500,
            _ => 400,
        }
    }

    /// The text sent to the client for this failure.
    pub fn message(&self) -> (r: String)
        ensures
            r@ == failure_text(*self),
    {
        match self {
            Failure::MalformedPath => String::from_str("malformed path: no command given"),
            Failure::DbSelectFailure(n) => {
                let head = String::from_str("failed to select database ");
                let digits = decimal_string(*n);
                head.concat(digits.as_str())
            },
            Failure::CommandFailure(m) => m.clone(),
            Failure::InternalFailure(m) => m.clone(),
        }
    }
}

/// `{"result": m}`
pub open spec fn result_envelope(m: JsonModel) -> JsonModel {
    JsonModel::Object(seq![("result"@, m)])
}

/// `{"error": msg}`
pub open spec fn error_envelope(msg: Seq<char>) -> JsonModel {
    JsonModel::Object(seq![("error"@, JsonModel::Str(msg))])
}

/// An HTTP status code and a JSON body.
#[derive(Debug, PartialEq)]
pub struct HttpResponse {
    pub status: u16,
    pub body: Json,
}

/// The response for a failure: its status and `{"error": message}`.
pub fn failure_response(f: &Failure) -> (r: HttpResponse)
    ensures
        r.status == failure_status(*f),
        json_view(r.body) == error_envelope(failure_text(*f)),
{
    let msg = f.message();
    let ghost m = msg@;
    let mut entries: Vec<(String, Json)> = Vec::new();
    entries.push((String::from_str("error"), Json::Str(msg)));
    let body = Json::Object(entries);
    proof {
        lemma_entries_view(entries@);
        assert(entries_view(entries@) =~= seq![("error"@, JsonModel::Str(m))]);
        assert(json_view(body) == error_envelope(m));
    }
    HttpResponse { status: f.status(), body }
}

/// The response for a reply: 200 and `{"result": json}`.
pub fn success_response(v: &ReplyValue) -> (r: HttpResponse)
    ensures
        r.status == 200,
        json_view(r.body) == result_envelope(reply_json(*v)),
{
    let value = to_json(v);
    let ghost jm = json_view(value);
    let mut entries: Vec<(String, Json)> = Vec::new();
    entries.push((String::from_str("result"), value));
    let body = Json::Object(entries);
    proof {
        lemma_entries_view(entries@);
        assert(entries_view(entries@) =~= seq![("result"@, jm)]);
        assert(json_view(body) == result_envelope(jm));
    }
    HttpResponse { status: 200, body }
}

/// What a backend call's result means: a reply of the error kind is a
/// command failure, a failed call an internal one, any other reply a result.
pub fn classify(result: Result<ReplyValue, String>) -> (r: Result<ReplyValue, Failure>)
    ensures
        match result {
            Ok(ReplyValue::Error(m)) => r matches Err(Failure::CommandFailure(m2)) && m2@ == m@,
            Ok(v) => r == Ok::<ReplyValue, Failure>(v),
            Err(e) => r matches Err(Failure::InternalFailure(e2)) && e2@ == e@,
        },
{
    match result {
        Ok(ReplyValue::Error(m)) => Err(Failure::CommandFailure(m)),
        Ok(v) => Ok(v),
        Err(e) => Err(Failure::InternalFailure(e)),
    }
}

/// The response for an outcome: the result envelope with 200, or the
/// failure's status and error envelope.
pub fn respond(outcome: &Result<ReplyValue, Failure>) -> (r: HttpResponse)
    ensures
        match *outcome {
            Ok(v) => r.status == 200 && json_view(r.body) == result_envelope(reply_json(v)),
            Err(f) => r.status == failure_status(f) && json_view(r.body) == error_envelope(
                failure_text(f),
            ),
        },
{
    match outcome {
        Ok(v) => success_response(v),
        Err(f) => failure_response(f),
    }
}

/// What the executor does next for one request.
#[derive(Debug, PartialEq)]
pub enum Action {
    /// Switch the shared context to this database, then report whether it worked.
    SelectDb(u64),
    /// Run the command against the context, then hand back its result.
    Invoke,
    /// Send this response; nothing more is run.
    Respond(HttpResponse),
}

/// The first step for an invocation: select its database unless it is 0.
pub fn begin(inv: &Invocation) -> (a: Action)
    ensures
        inv.db_index != 0 ==> a == Action::SelectDb(inv.db_index),
        inv.db_index == 0 ==> a is Invoke,
{
    if inv.db_index != 0 {
        Action::SelectDb(inv.db_index)
    } else {
        Action::Invoke
    }
}

/// The step after selecting database `db`: run the command if the selection
/// worked, else answer 400 without running it.
pub fn on_selected(db: u64, selected: bool) -> (a: Action)
    ensures
        selected ==> a is Invoke,
        !selected ==> (a matches Action::Respond(resp) && resp.status == 400 && json_view(resp.body)
            == error_envelope(failure_text(Failure::DbSelectFailure(db)))),
{
    if selected {
        Action::Invoke
    } else {
        Action::Respond(failure_response(&Failure::DbSelectFailure(db)))
    }
}

/// The response to the result of a backend call.
pub fn on_reply(result: Result<ReplyValue, String>) -> (r: HttpResponse)
    ensures
        match result {
            Ok(ReplyValue::Error(m)) => r.status == 400 && json_view(r.body) == error_envelope(m@),
            Ok(v) => r.status == 200 && json_view(r.body) == result_envelope(reply_json(v)),
            Err(e) => r.status == 500 && json_view(r.body) == error_envelope(e@),
        },
{
    let outcome = classify(result);
    respond(&outcome)
}

} // verus!
