//! The laws the dispatch layer obeys, stated over the mathematical models
//! and proved once for every request and every store state.
use vstd::prelude::*;
use crate::UserModel;
use crate::handlers::Route;
use crate::handlers::health_body;
use crate::handlers::internal_error_status;
use crate::handlers::not_found_status;
use crate::handlers::ok_status;
use crate::handlers::route_of;
use crate::handlers::spec_handle;
use crate::json::encode_user;
use crate::json::encode_users;
use crate::payload::parse_payload;
use crate::request::body_of;
use crate::request::id_segment;
use crate::request::spec_parse_i32;
use crate::store::StoreModel;
use crate::store::find_user;
use crate::store::remove_user;
use crate::store::store_wf;
use crate::store::update_user;

verus! {

proof fn lemma_remove_user_len(us: Seq<UserModel>, id: int)
    ensures
        remove_user(us, id).len() <= us.len(),
        find_user(us, id) is Some ==> remove_user(us, id).len() < us.len(),
        find_user(us, id) is None ==> remove_user(us, id) == us,
    decreases us.len(),
{
    if us.len() > 0 {
        lemma_remove_user_len(us.skip(1), id);
        if us[0].id != id && find_user(us.skip(1), id) is None {
            assert(seq![us[0]] + us.skip(1) =~= us);
        }
    }
}

proof fn lemma_find_remove_user(us: Seq<UserModel>, id: int)
    ensures
        find_user(remove_user(us, id), id) is None,
    decreases us.len(),
{
    if us.len() > 0 {
        lemma_find_remove_user(us.skip(1), id);
        if us[0].id != id {
            let r = seq![us[0]] + remove_user(us.skip(1), id);
            assert(r[0] == us[0]);
            assert(r.skip(1) =~= remove_user(us.skip(1), id));
        }
    }
}

proof fn lemma_find_update_user(us: Seq<UserModel>, id: int, name: Seq<char>, email: Seq<char>)
    ensures
        find_user(update_user(us, id, name, email), id) == (if find_user(us, id) is Some {
            Some(UserModel { id: id, name: name, email: email })
        } else {
            None::<UserModel>
        }),
    decreases us.len(),
{
    if us.len() > 0 {
        lemma_find_update_user(us.skip(1), id, name, email);
        let r = update_user(us, id, name, email);
        assert(r[0] == (if us[0].id == id {
            UserModel { id: id, name: name, email: email }
        } else {
            us[0]
        }));
        assert(r.skip(1) =~= update_user(us.skip(1), id, name, email));
    }
}

/// Law: a create request whose payload parses is answered with the success
/// status and "User created", and a subsequent fetch-all lists, among the
/// rows it returns, a user carrying exactly the payload's name and email.
pub proof fn lemma_create_then_fetch_all(st: StoreModel, r: Seq<char>, r2: Seq<char>)
    requires
        store_wf(st),
        st.next_id <= 2147483646,
        route_of(r) == Route::Create,
        parse_payload(body_of(r)) is Some,
        route_of(r2) == Route::FetchAll,
    ensures
        ({
            let p = parse_payload(body_of(r))->Some_0;
            let st2 = spec_handle(st, r).0;
            &&& spec_handle(st, r).1 == (ok_status(), "User created"@)
            &&& spec_handle(st2, r2) == (st2, (ok_status(), encode_users(st2.users)))
            &&& exists|k: int|
                0 <= k < st2.users.len() && (#[trigger] st2.users[k]).name == p.0
                    && st2.users[k].email == p.1
        }),
{
    let p = parse_payload(body_of(r))->Some_0;
    let st2 = spec_handle(st, r).0;
    assert(st2.users[st.users.len() as int].name == p.0);
}

/// Law: a fetch-one request whose id parses but matches no row is answered
/// with the not-found status and "User not found", and leaves the store as
/// it was.
pub proof fn lemma_fetch_one_missing(st: StoreModel, r: Seq<char>, id: int)
    requires
        route_of(r) == Route::FetchOne,
        spec_parse_i32(id_segment(r)) == Some(id),
        find_user(st.users, id) is None,
    ensures
        spec_handle(st, r) == (st, (not_found_status(), "User not found"@)),
{
}

/// Law: a fetch-one request whose id segment is not integer-parseable is
/// answered with the failure status, and no store operation takes place.
pub proof fn lemma_fetch_one_bad_id(st: StoreModel, r: Seq<char>)
    requires
        route_of(r) == Route::FetchOne,
        spec_parse_i32(id_segment(r)) is None,
    ensures
        spec_handle(st, r) == (st, (internal_error_status(), "Error"@)),
{
}

/// Law: deleting an id present in the store is answered with the success
/// status and "User deleted" and removes the row; the same request again
/// leaves the store unchanged and is answered with the not-found status and
/// "User not found".
pub proof fn lemma_delete_idempotent(st: StoreModel, r: Seq<char>, id: int)
    requires
        store_wf(st),
        route_of(r) == Route::Delete,
        spec_parse_i32(id_segment(r)) == Some(id),
        find_user(st.users, id) is Some,
    ensures
        ({
            let st2 = spec_handle(st, r).0;
            &&& spec_handle(st, r).1 == (ok_status(), "User deleted"@)
            &&& find_user(st2.users, id) is None
            &&& spec_handle(st2, r) == (st2, (not_found_status(), "User not found"@))
        }),
{
    lemma_remove_user_len(st.users, id);
    lemma_find_remove_user(st.users, id);
    let st2 = spec_handle(st, r).0;
    lemma_remove_user_len(st2.users, id);
}

/// Law: updating an id present in the store is answered with the success
/// status and "User updated", the row then carries the new name and email
/// under the unchanged id, and a fetch-one of that id returns exactly that
/// row.
pub proof fn lemma_update_then_fetch_one(st: StoreModel, r: Seq<char>, r2: Seq<char>, id: int)
    requires
        store_wf(st),
        route_of(r) == Route::Update,
        spec_parse_i32(id_segment(r)) == Some(id),
        parse_payload(body_of(r)) is Some,
        find_user(st.users, id) is Some,
        route_of(r2) == Route::FetchOne,
        spec_parse_i32(id_segment(r2)) == Some(id),
    ensures
        ({
            let p = parse_payload(body_of(r))->Some_0;
            let u = UserModel { id: id, name: p.0, email: p.1 };
            let st2 = spec_handle(st, r).0;
            &&& spec_handle(st, r).1 == (ok_status(), "User updated"@)
            &&& find_user(st2.users, id) == Some(u)
            &&& spec_handle(st2, r2) == (st2, (ok_status(), encode_user(u)))
        }),
{
    let p = parse_payload(body_of(r))->Some_0;
    lemma_find_update_user(st.users, id, p.0, p.1);
}

/// Law: a health request is answered with the success status and the fixed
/// liveness body, whatever the store holds, and the store is not touched.
pub proof fn lemma_health(st: StoreModel, r: Seq<char>)
    requires
        route_of(r) == Route::Health,
    ensures
        spec_handle(st, r) == (st, (ok_status(), health_body())),
{
}

} // verus!
