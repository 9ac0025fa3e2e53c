//! The request-dispatch layer: prefix routing, the resource handlers, and
//! the composition of every reply.
//!
//! A handler either answers at once or asks for one store operation; the
//! caller performs that operation and hands the reply to [`conclude`], which
//! composes the final status line and body.
use vstd::prelude::*;
use crate::json::encode_user;
use crate::json::encode_users;
use crate::json::user_to_json;
use crate::json::users_to_json;
use crate::payload::parse_payload;
use crate::payload::parse_user_payload;
use crate::request::body_of;
use crate::request::get_body;
use crate::request::get_id;
use crate::request::id_segment;
use crate::request::parse_i32;
use crate::request::spec_parse_i32;
use crate::store::CommandModel;
use crate::store::MemStore;
use crate::store::ReplyModel;
use crate::store::StoreCommand;
use crate::store::StoreModel;
use crate::store::StoreReply;
use crate::store::spec_apply;

verus! {

/// The status line of a successful reply.
pub open spec fn ok_status() -> Seq<char> {
    "HTTP/1.1 200 OK\r\nContent-Type: application/json\r\n\r\n"@
}

/// The status line of a missing-resource reply.
pub open spec fn not_found_status() -> Seq<char> {
    "HTTP/1.1 404 NOT FOUND\r\n\r\n"@
}

/// The status line of a failure reply.
pub open spec fn internal_error_status() -> Seq<char> {
    "HTTP/1.1 500 INTERNAL SERVER ERROR\r\n\r\n"@
}

/// The fixed liveness body ("the server is running normally", in Korean).
pub open spec fn health_body() -> Seq<char> {
    "\u{C11C}\u{BC84}\u{AC00} \u{C815}\u{C0C1}\u{C801}\u{C73C}\u{B85C} \u{C791}\u{B3D9} \u{C911}\u{C785}\u{B2C8}\u{B2E4}."@
}

fn ok_response() -> (r: String)
    ensures
        r@ == ok_status(),
{
    String::from_str("HTTP/1.1 200 OK\r\nContent-Type: application/json\r\n\r\n")
}

fn not_found_response() -> (r: String)
    ensures
        r@ == not_found_status(),
{
    String::from_str("HTTP/1.1 404 NOT FOUND\r\n\r\n")
}

fn internal_error_response() -> (r: String)
    ensures
        r@ == internal_error_status(),
{
    String::from_str("HTTP/1.1 500 INTERNAL SERVER ERROR\r\n\r\n")
}

fn error_body() -> (r: String)
    ensures
        r@ == "Error"@,
{
    String::from_str("Error")
}

/// Whether `p` is a prefix of `r`.
pub open spec fn starts(r: Seq<char>, p: Seq<char>) -> bool {
    p.len() <= r.len() && r.subrange(0, p.len() as int) == p
}

/// The fixed routes, in the priority order they are tested in.
pub enum Route {
    Create,
    FetchOne,
    FetchAll,
    Update,
    Delete,
    Health,
    Unknown,
}

/// Which route an incoming request matches: the first prefix that fits, the
/// more specific `GET /users/` before the broader `GET /users`.
pub open spec fn route_of(r: Seq<char>) -> Route {
    if starts(r, "POST /users"@) {
        Route::Create
    } else if starts(r, "GET /users/"@) {
        Route::FetchOne
    } else if starts(r, "GET /users"@) {
        Route::FetchAll
    } else if starts(r, "PUT /users/"@) {
        Route::Update
    } else if starts(r, "DELETE /users/"@) {
        Route::Delete
    } else if starts(r, "GET /health"@) {
        Route::Health
    } else {
        Route::Unknown
    }
}

/// What a handler decides: answer at once, or run one store operation.
pub enum Step {
    /// A finished reply: status line and body.
    Respond(String, String),
    /// One store operation still to perform.
    Store(StoreCommand),
}

/// Mathematical model of a handler decision.
#[verifier::ext_equal]
pub enum StepModel {
    Respond(Seq<char>, Seq<char>),
    Store(CommandModel),
}

impl View for Step {
    type V = StepModel;

    open spec fn view(&self) -> StepModel {
        match self {
            Step::Respond(status, content) => StepModel::Respond(status@, content@),
            Step::Store(cmd) => StepModel::Store(cmd@),
        }
    }
}

/// The create handler's decision: insert when the body parses, else fail.
pub open spec fn spec_create_step(r: Seq<char>) -> StepModel {
    match parse_payload(body_of(r)) {
        Some(p) => StepModel::Store(CommandModel::Insert { name: p.0, email: p.1 }),
        None => StepModel::Respond(internal_error_status(), "Error"@),
    }
}

/// The fetch-one handler's decision: select when the id parses, else fail.
pub open spec fn spec_fetch_one_step(r: Seq<char>) -> StepModel {
    match spec_parse_i32(id_segment(r)) {
        Some(id) => StepModel::Store(CommandModel::FetchOne { id: id }),
        None => StepModel::Respond(internal_error_status(), "Error"@),
    }
}

/// The update handler's decision: update when id and body parse, else fail.
pub open spec fn spec_update_step(r: Seq<char>) -> StepModel {
    match spec_parse_i32(id_segment(r)) {
        Some(id) => match parse_payload(body_of(r)) {
            Some(p) => StepModel::Store(
                CommandModel::Update { id: id, name: p.0, email: p.1 },
            ),
            None => StepModel::Respond(internal_error_status(), "Error"@),
        },
        None => StepModel::Respond(internal_error_status(), "Error"@),
    }
}

/// The delete handler's decision: delete when the id parses, else fail.
pub open spec fn spec_delete_step(r: Seq<char>) -> StepModel {
    match spec_parse_i32(id_segment(r)) {
        Some(id) => StepModel::Store(CommandModel::Delete { id: id }),
        None => StepModel::Respond(internal_error_status(), "Error"@),
    }
}

/// The whole dispatch decision for a raw request string.
pub open spec fn spec_dispatch(r: Seq<char>) -> StepModel {
    match route_of(r) {
        Route::Create => spec_create_step(r),
        Route::FetchOne => spec_fetch_one_step(r),
        Route::FetchAll => StepModel::Store(CommandModel::FetchAll),
        Route::Update => spec_update_step(r),
        Route::Delete => spec_delete_step(r),
        Route::Health => StepModel::Respond(ok_status(), health_body()),
        Route::Unknown => StepModel::Respond(not_found_status(), "404 Not Found"@),
    }
}

/// The reply composed from a store command's outcome: success, not-found and
/// failure map to the three fixed status lines, and a reply that the command
/// cannot produce is treated as a failure.
pub open spec fn spec_conclude(cmd: CommandModel, rep: ReplyModel) -> (Seq<char>, Seq<char>) {
    match cmd {
        CommandModel::Insert { .. } => match rep {
            ReplyModel::Affected(_) => (ok_status(), "User created"@),
            _ => (internal_error_status(), "Error"@),
        },
        CommandModel::FetchOne { .. } => match rep {
            ReplyModel::Row(u) => (ok_status(), encode_user(u)),
            ReplyModel::NoRow => (not_found_status(), "User not found"@),
            _ => (internal_error_status(), "Error"@),
        },
        CommandModel::FetchAll => match rep {
            ReplyModel::Rows(us) => (ok_status(), encode_users(us)),
            _ => (internal_error_status(), "Error"@),
        },
        CommandModel::Update { .. } => match rep {
            ReplyModel::Affected(_) => (ok_status(), "User updated"@),
            _ => (internal_error_status(), "Error"@),
        },
        CommandModel::Delete { .. } => match rep {
            ReplyModel::Affected(k) => if k == 0 {
                (not_found_status(), "User not found"@)
            } else {
                (ok_status(), "User deleted"@)
            },
            _ => (internal_error_status(), "Error"@),
        },
    }
}

/// Whether `p` is a prefix of `s`.
fn str_starts_with(s: &str, p: &str) -> (b: bool)
    ensures
        b == starts(s@, p@),
{
    let n = p.unicode_len();
    let m = s.unicode_len();
    if n > m {
        return false;
    }
    let mut i: usize = 0;
    while i < n
        invariant
            0 <= i <= n,
            n == p@.len(),
            n <= s@.len(),
            forall|k: int| 0 <= k < i ==> s@[k] == p@[k],
        decreases n - i,
    {
        if s.get_char(i) != p.get_char(i) {
            proof {
                assert(s@.subrange(0, n as int)[i as int] == s@[i as int]);
            }
            return false;
        }
        i = i + 1;
    }
    proof {
        assert(s@.subrange(0, n as int) =~= p@);
    }
    true
}

/// Liveness handler: always the success status and the fixed body, with no
/// store access.
pub fn handle_health_check(_request: &str) -> (r: (String, String))
    ensures
        r.0@ == ok_status(),
        r.1@ == health_body(),
{
    (
        ok_response(),
        String::from_str(
            "\u{C11C}\u{BC84}\u{AC00} \u{C815}\u{C0C1}\u{C801}\u{C73C}\u{B85C} \u{C791}\u{B3D9} \u{C911}\u{C785}\u{B2C8}\u{B2E4}.",
        ),
    )
}

/// Create handler: decides as [`spec_create_step`] says.
pub fn handle_post_request(request: &str) -> (r: Step)
    ensures
        r@ == spec_create_step(request@),
{
    let body = get_body(request);
    match parse_user_payload(body.as_str()) {
        Some(p) => Step::Store(StoreCommand::Insert { name: p.name, email: p.email }),
        None => Step::Respond(internal_error_response(), error_body()),
    }
}

/// Fetch-one handler: decides as [`spec_fetch_one_step`] says.
pub fn handle_get_request(request: &str) -> (r: Step)
    ensures
        r@ == spec_fetch_one_step(request@),
{
    let id_text = get_id(request);
    match parse_i32(id_text.as_str()) {
        Some(id) => Step::Store(StoreCommand::FetchOne { id: id }),
        None => Step::Respond(internal_error_response(), error_body()),
    }
}

/// Fetch-all handler: always asks for the full listing.
pub fn handle_get_all_request(_request: &str) -> (r: Step)
    ensures
        r@ == StepModel::Store(CommandModel::FetchAll),
{
    Step::Store(StoreCommand::FetchAll)
}

/// Update handler: decides as [`spec_update_step`] says.
pub fn handle_put_request(request: &str) -> (r: Step)
    ensures
        r@ == spec_update_step(request@),
{
    let id_text = get_id(request);
    let body = get_body(request);
    match parse_i32(id_text.as_str()) {
        Some(id) => match parse_user_payload(body.as_str()) {
            Some(p) => Step::Store(
                StoreCommand::Update { id: id, name: p.name, email: p.email },
            ),
            None => Step::Respond(internal_error_response(), error_body()),
        },
        None => Step::Respond(internal_error_response(), error_body()),
    }
}

/// Delete handler: decides as [`spec_delete_step`] says.
pub fn handle_delete_request(request: &str) -> (r: Step)
    ensures
        r@ == spec_delete_step(request@),
{
    let id_text = get_id(request);
    match parse_i32(id_text.as_str()) {
        Some(id) => Step::Store(StoreCommand::Delete { id: id }),
        None => Step::Respond(internal_error_response(), error_body()),
    }
}

/// Routes a raw request string to its handler, in the fixed priority order,
/// and returns that handler's decision; an unmatched request is answered
/// not-found without any handler running.
pub fn dispatch(request: &str) -> (r: Step)
    ensures
        r@ == spec_dispatch(request@),
{
    if str_starts_with(request, "POST /users") {
        handle_post_request(request)
    } else if str_starts_with(request, "GET /users/") {
        handle_get_request(request)
    } else if str_starts_with(request, "GET /users") {
        handle_get_all_request(request)
    } else if str_starts_with(request, "PUT /users/") {
        handle_put_request(request)
    } else if str_starts_with(request, "DELETE /users/") {
        handle_delete_request(request)
    } else if str_starts_with(request, "GET /health") {
        let h = handle_health_check(request);
        Step::Respond(h.0, h.1)
    } else {
        Step::Respond(not_found_response(), String::from_str("404 Not Found"))
    }
}

/// What one whole request does to a store with the semantics of
/// [`spec_apply`]: the state it leaves, and the reply it composes.
pub open spec fn spec_handle(st: StoreModel, r: Seq<char>) -> (StoreModel, (Seq<char>, Seq<char>)) {
    match spec_dispatch(r) {
        StepModel::Respond(status, content) => (st, (status, content)),
        StepModel::Store(cmd) => (
            spec_apply(st, cmd).0,
            spec_conclude(cmd, spec_apply(st, cmd).1),
        ),
    }
}

/// Handles one whole request against the in-memory reference store:
/// dispatches, performs the store operation the handler asked for, and
/// composes the reply, exactly as [`spec_handle`] says.
pub fn handle_request(store: &mut MemStore, request: &str) -> (r: (String, String))
    requires
        old(store).wf(),
    ensures
        final(store).wf(),
        final(store)@ == spec_handle(old(store)@, request@).0,
        r.0@ == spec_handle(old(store)@, request@).1.0,
        r.1@ == spec_handle(old(store)@, request@).1.1,
{
    match dispatch(request) {
        Step::Respond(status, content) => (status, content),
        Step::Store(cmd) => {
            let reply = store.apply(&cmd);
            conclude(&cmd, reply)
        },
    }
}

/// Composes the final reply from a command and the store's reply, as
/// [`spec_conclude`] says.
pub fn conclude(cmd: &StoreCommand, reply: StoreReply) -> (r: (String, String))
    ensures
        r.0@ == spec_conclude(cmd@, reply@).0,
        r.1@ == spec_conclude(cmd@, reply@).1,
{
    match cmd {
        StoreCommand::Insert { .. } => match reply {
            StoreReply::Affected(_) => (ok_response(), String::from_str("User created")),
            _ => (internal_error_response(), error_body()),
        },
        StoreCommand::FetchOne { .. } => match reply {
            StoreReply::Row(u) => (ok_response(), user_to_json(&u)),
            StoreReply::NoRow => (not_found_response(), String::from_str("User not found")),
            _ => (internal_error_response(), error_body()),
        },
        StoreCommand::FetchAll => match reply {
            StoreReply::Rows(us) => (ok_response(), users_to_json(&us)),
            _ => (internal_error_response(), error_body()),
        },
        StoreCommand::Update { .. } => match reply {
            StoreReply::Affected(_) => (ok_response(), String::from_str("User updated")),
            _ => (internal_error_response(), error_body()),
        },
        StoreCommand::Delete { .. } => match reply {
            StoreReply::Affected(k) => if k == 0 {
                (not_found_response(), String::from_str("User not found"))
            } else {
                (ok_response(), String::from_str("User deleted"))
            },
            _ => (internal_error_response(), error_body()),
        },
    }
}

} // verus!
