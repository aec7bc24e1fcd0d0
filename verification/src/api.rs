//! The handler layer: validates the identifier from the path, runs the
//! repository operation, and decides the HTTP status and body for every
//! outcome. A malformed identifier is answered with 400 on every route; a
//! missing user with 404; a store failure with 500 and the failure's text.

use vstd::prelude::*;

use crate::oid::{decoded, is_object_id_hex};
use crate::store::{
    as_user, has_id, model_create, model_delete, model_update, user_at, StoredView, UpdateOutcome,
    UserStore,
};
use crate::user::{spec_status_of, Body, Response, User, UserError};

verus! {

/// `r` replies `status` with the plain text `t`.
pub open spec fn is_text_response(r: Response, status: u16, t: Seq<char>) -> bool {
    &&& r.status == status
    &&& r.body matches Body::Text(m) && m@ == t
}

/// `r` replies 200 with the single user `u`.
pub open spec fn is_user_response(r: Response, u: crate::user::UserView) -> bool {
    &&& r.status == 200
    &&& r.body matches Body::UserData(v) && v@ == u
}

/// `r` replies 200 with exactly the users of `s`, in order.
pub open spec fn is_list_response(r: Response, s: Seq<StoredView>) -> bool {
    &&& r.status == 200
    &&& r.body matches Body::UserList(us) && us@.len() == s.len() && (forall|i: int|
        0 <= i < s.len() ==> (#[trigger] us@[i])@ == as_user(s[i]))
}

/// The reply when an identifier string is rejected: 400, never a crash.
pub fn invalid_id_response() -> (r: Response)
    ensures
        is_text_response(r, 400, "invalid ID"@),
{
    Response { status: 400, body: Body::Text("invalid ID".to_owned()) }
}

/// The reply when the store itself failed: 500 with the failure's text.
pub fn store_error_response(message: String) -> (r: Response)
    ensures
        is_text_response(r, 500, message@),
{
    Response { status: 500, body: Body::Text(message) }
}

/// Maps the outcome of an operation that yields one user — create's
/// acknowledgment, a read, or the re-read after an update — to its reply.
pub fn respond_user(outcome: Result<User, UserError>) -> (r: Response)
    ensures
        outcome matches Ok(u) ==> is_user_response(r, u@),
        outcome matches Err(e) ==> r.status == spec_status_of(e),
        outcome matches Err(UserError::InvalidInput) ==> is_text_response(r, 400, "invalid ID"@),
        outcome matches Err(UserError::NotFound) ==> is_text_response(
            r,
            404,
            "User with specified ID not found!"@,
        ),
        outcome matches Err(UserError::StoreError(m)) ==> is_text_response(r, 500, m@),
{
    match outcome {
        Ok(u) => Response { status: 200, body: Body::UserData(u) },
        Err(UserError::InvalidInput) => invalid_id_response(),
        Err(UserError::NotFound) => Response {
            status: 404,
            body: Body::Text("User with specified ID not found!".to_owned()),
        },
        Err(UserError::StoreError(m)) => store_error_response(m),
    }
}

/// Maps an update acknowledgment to a reply, or to nothing when the update
/// matched and the updated user is to be re-read and returned.
pub fn respond_update_outcome(outcome: Result<UpdateOutcome, UserError>) -> (r: Option<Response>)
    ensures
        outcome matches Ok(o) ==> (r is None <==> o.matched_count == 1),
        outcome matches Ok(o) ==> (o.matched_count != 1 ==> (r matches Some(resp)
            && is_text_response(resp, 404, "No user found with specified ID"@))),
        outcome matches Err(UserError::InvalidInput) ==> (r matches Some(resp)
            && is_text_response(resp, 400, "invalid ID"@)),
        outcome matches Err(UserError::NotFound) ==> (r matches Some(resp) && is_text_response(
            resp,
            404,
            "No user found with specified ID"@,
        )),
        outcome matches Err(UserError::StoreError(m)) ==> (r matches Some(resp)
            && is_text_response(resp, 500, m@)),
{
    match outcome {
        Ok(o) => {
            if o.matched_count == 1 {
                None
            } else {
                Some(
                    Response {
                        status: 404,
                        body: Body::Text("No user found with specified ID".to_owned()),
                    },
                )
            }
        },
        Err(UserError::InvalidInput) => Some(invalid_id_response()),
        Err(UserError::NotFound) => Some(
            Response {
                status: 404,
                body: Body::Text("No user found with specified ID".to_owned()),
            },
        ),
        Err(UserError::StoreError(m)) => Some(store_error_response(m)),
    }
}

/// The reply when a delete's acknowledgment comes back: 200 with a
/// confirmation when one user went, 404 when none matched.
pub fn respond_delete(outcome: Result<crate::store::DeleteOutcome, UserError>) -> (r: Response)
    ensures
        outcome matches Ok(o) ==> (o.deleted_count == 1 ==> is_text_response(
            r,
            200,
            "User successfully deleted!"@,
        )),
        outcome matches Ok(o) ==> (o.deleted_count != 1 ==> is_text_response(
            r,
            404,
            "User with specified ID not found!"@,
        )),
        outcome matches Err(UserError::InvalidInput) ==> is_text_response(r, 400, "invalid ID"@),
        outcome matches Err(UserError::NotFound) ==> is_text_response(
            r,
            404,
            "User with specified ID not found!"@,
        ),
        outcome matches Err(UserError::StoreError(m)) ==> is_text_response(r, 500, m@),
{
    match outcome {
        Ok(o) => {
            if o.deleted_count == 1 {
                Response { status: 200, body: Body::Text("User successfully deleted!".to_owned()) }
            } else {
                Response {
                    status: 404,
                    body: Body::Text("User with specified ID not found!".to_owned()),
                }
            }
        },
        Err(UserError::InvalidInput) => invalid_id_response(),
        Err(UserError::NotFound) => Response {
            status: 404,
            body: Body::Text("User with specified ID not found!".to_owned()),
        },
        Err(UserError::StoreError(m)) => store_error_response(m),
    }
}

/// A successful creation: the store gained exactly the new user under the
/// fresh identifier `id`, and the reply carries that user, identifier
/// included.
pub open spec fn create_ok(
    r: Response,
    pre: Seq<StoredView>,
    post: Seq<StoredView>,
    name: Seq<char>,
    location: Seq<char>,
    title: Seq<char>,
    id: Seq<u8>,
) -> bool {
    &&& r.status == 200
    &&& !has_id(pre, id)
    &&& post == model_create(pre, id, name, location, title)
    &&& r.body matches Body::UserData(u) && u@ == as_user(StoredView { id, name, location, title })
}

/// Handles `POST /user`: stores the user under a fresh identifier and
/// replies 200 with the stored user. Any identifier in the input is ignored.
pub fn create_user(store: &mut UserStore, new_user: User) -> (r: Response)
    requires
        old(store).wf(),
        old(store).can_insert(),
    ensures
        final(store).wf(),
        exists|id: Seq<u8>|
            create_ok(
                r,
                old(store)@,
                final(store)@,
                new_user@.name,
                new_user@.location,
                new_user@.title,
                id,
            ),
{
    let fields = new_user.clone();
    let outcome = store.create_user(new_user);
    let created = User {
        id: Some(outcome.inserted_id),
        name: fields.name,
        location: fields.location,
        title: fields.title,
    };
    let ghost id = created@.id->Some_0;
    let r = respond_user(Ok(created));
    proof {
        assert(create_ok(
            r,
            old(store)@,
            store@,
            new_user@.name,
            new_user@.location,
            new_user@.title,
            id,
        ));
    }
    r
}

/// Handles `GET /user/{id}`: 400 on a malformed identifier, 404 when no
/// user carries it, otherwise 200 with the stored user.
pub fn get_user(store: &UserStore, id: &str) -> (r: Response)
    requires
        store.wf(),
    ensures
        !is_object_id_hex(id@) ==> is_text_response(r, 400, "invalid ID"@),
        is_object_id_hex(id@) && !has_id(store@, decoded(id@)) ==> is_text_response(
            r,
            404,
            "User with specified ID not found!"@,
        ),
        is_object_id_hex(id@) && has_id(store@, decoded(id@)) ==> is_user_response(
            r,
            as_user(user_at(store@, decoded(id@))),
        ),
{
    respond_user(store.get_user(id))
}

/// Handles `PUT /user/{id}`: 400 on a malformed identifier; 404 when no
/// user carries it, with the store unchanged; otherwise the user's text
/// fields are rewritten — the identifier is not — and the reply is 200 with
/// the user as re-read from the store.
pub fn update_user(store: &mut UserStore, id: &str, new_user: User) -> (r: Response)
    requires
        old(store).wf(),
    ensures
        final(store).wf(),
        !is_object_id_hex(id@) ==> is_text_response(r, 400, "invalid ID"@) && final(store)@ == old(
            store,
        )@,
        is_object_id_hex(id@) && !has_id(old(store)@, decoded(id@)) ==> is_text_response(
            r,
            404,
            "No user found with specified ID"@,
        ) && final(store)@ == old(store)@,
        is_object_id_hex(id@) && has_id(old(store)@, decoded(id@)) ==> final(store)@
            == model_update(
            old(store)@,
            decoded(id@),
            new_user@.name,
            new_user@.location,
            new_user@.title,
        ) && is_user_response(
            r,
            as_user(
                StoredView {
                    id: decoded(id@),
                    name: new_user@.name,
                    location: new_user@.location,
                    title: new_user@.title,
                },
            ),
        ),
{
    let ghost pre = store@;
    let ghost nv = new_user@;
    let outcome = store.update_user(id, new_user);
    match respond_update_outcome(outcome) {
        Some(resp) => resp,
        None => {
            proof {
                lemma_update_keeps_id(pre, decoded(id@), nv.name, nv.location, nv.title);
            }
            respond_user(store.get_user(id))
        },
    }
}

/// Updating under an identifier that is present keeps it present, and the
/// user then read back carries the identifier and the new text fields.
proof fn lemma_update_keeps_id(
    s: Seq<StoredView>,
    id: Seq<u8>,
    name: Seq<char>,
    location: Seq<char>,
    title: Seq<char>,
)
    requires
        has_id(s, id),
    ensures
        has_id(model_update(s, id, name, location, title), id),
        user_at(model_update(s, id, name, location, title), id) == (StoredView {
            id,
            name,
            location,
            title,
        }),
{
    let s2 = model_update(s, id, name, location, title);
    let k = choose|i: int| 0 <= i < s.len() && s[i].id == id;
    assert(s2[k].id == id);
    assert(has_id(s2, id));
    let i2 = crate::store::idx_of(s2, id);
    assert(0 <= i2 < s2.len() && s2[i2].id == id);
    assert(s[i2].id == id);
}

/// Handles `DELETE /user/{id}`: 400 on a malformed identifier; 404 when no
/// user carries it, with the store unchanged; otherwise the user is removed
/// and the reply is 200 with a confirmation.
pub fn delete_user(store: &mut UserStore, id: &str) -> (r: Response)
    requires
        old(store).wf(),
    ensures
        final(store).wf(),
        !is_object_id_hex(id@) ==> is_text_response(r, 400, "invalid ID"@) && final(store)@ == old(
            store,
        )@,
        is_object_id_hex(id@) && !has_id(old(store)@, decoded(id@)) ==> is_text_response(
            r,
            404,
            "User with specified ID not found!"@,
        ) && final(store)@ == old(store)@,
        is_object_id_hex(id@) && has_id(old(store)@, decoded(id@)) ==> is_text_response(
            r,
            200,
            "User successfully deleted!"@,
        ) && final(store)@ == model_delete(old(store)@, decoded(id@)),
{
    respond_delete(store.delete_user(id))
}

/// Handles `GET /users`: 200 with every stored user, in insertion order.
pub fn get_all_users(store: &UserStore) -> (r: Response)
    requires
        store.wf(),
    ensures
        is_list_response(r, store@),
{
    Response { status: 200, body: Body::UserList(store.get_all_users()) }
}

} // verus!
