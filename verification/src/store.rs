//! The repository: a collection of user records addressed by identifier.
//!
//! [`UserStore`] realizes the five operations — create, get by id, update by
//! id, delete by id, list all — over an in-memory collection whose contents
//! are modelled as a sequence of [`StoredView`] values. The `model_*` spec
//! functions state each operation's effect on that sequence; the laws of the
//! service are proved over them.

use vstd::prelude::*;

use crate::oid::{decoded, is_object_id_hex, oid_bytes, ObjectId};
use crate::oid::{oid_from_seq, parse_object_id};
use crate::user::{User, UserError, UserView};

verus! {

/// A stored user as the model sees it: identifier bytes and the three text
/// fields. Every stored user has an identifier.
pub struct StoredView {
    pub id: Seq<u8>,
    pub name: Seq<char>,
    pub location: Seq<char>,
    pub title: Seq<char>,
}

/// The user value that reading a stored record yields: the same fields, with
/// the identifier present.
pub open spec fn as_user(sv: StoredView) -> UserView {
    UserView {
        id: Option::Some(sv.id),
        name: sv.name,
        location: sv.location,
        title: sv.title,
    }
}

/// Whether some stored user carries the identifier `id`.
pub open spec fn has_id(s: Seq<StoredView>, id: Seq<u8>) -> bool {
    exists|i: int| 0 <= i < s.len() && s[i].id == id
}

/// The position of the stored user carrying `id`; meaningful when `has_id`
/// holds and the identifiers are distinct.
pub open spec fn idx_of(s: Seq<StoredView>, id: Seq<u8>) -> int {
    choose|i: int| 0 <= i < s.len() && s[i].id == id
}

/// The stored user carrying `id`.
pub open spec fn user_at(s: Seq<StoredView>, id: Seq<u8>) -> StoredView {
    s[idx_of(s, id)]
}

/// No two stored users share an identifier.
pub open spec fn ids_distinct(s: Seq<StoredView>) -> bool {
    forall|i: int, j: int| 0 <= i < j < s.len() ==> s[i].id != s[j].id
}

/// Creating appends one user with the assigned identifier; nothing else moves.
pub open spec fn model_create(
    s: Seq<StoredView>,
    id: Seq<u8>,
    name: Seq<char>,
    location: Seq<char>,
    title: Seq<char>,
) -> Seq<StoredView> {
    s.push(StoredView { id, name, location, title })
}

/// Reading yields the user carrying `id`, or nothing when none does.
pub open spec fn model_get(s: Seq<StoredView>, id: Seq<u8>) -> Option<StoredView> {
    if has_id(s, id) {
        Option::Some(user_at(s, id))
    } else {
        Option::None
    }
}

/// Updating rewrites the three text fields of the user carrying `id` and
/// keeps its identifier; every other user, and the order, stay as they were.
pub open spec fn model_update(
    s: Seq<StoredView>,
    id: Seq<u8>,
    name: Seq<char>,
    location: Seq<char>,
    title: Seq<char>,
) -> Seq<StoredView> {
    Seq::new(
        s.len(),
        |i: int|
            if s[i].id == id {
                StoredView { id: s[i].id, name, location, title }
            } else {
                s[i]
            },
    )
}

/// Deleting removes the user carrying `id` and keeps the order of the rest;
/// with no such user the collection is unchanged.
pub open spec fn model_delete(s: Seq<StoredView>, id: Seq<u8>) -> Seq<StoredView> {
    if has_id(s, id) {
        s.remove(idx_of(s, id))
    } else {
        s
    }
}

/// With distinct identifiers, any position that carries `id` is the one
/// position the model functions speak of.
pub proof fn lemma_unique_index(s: Seq<StoredView>, id: Seq<u8>, k: int)
    requires
        ids_distinct(s),
        0 <= k < s.len(),
        s[k].id == id,
    ensures
        has_id(s, id),
        idx_of(s, id) == k,
        user_at(s, id) == s[k],
{
    assert(has_id(s, id));
    let i = idx_of(s, id);
    assert(0 <= i < s.len() && s[i].id == id);
    if i < k {
        assert(false);
    } else if k < i {
        assert(false);
    }
}

/// The result of an acknowledged insert: the identifier the store assigned.
#[derive(Debug, PartialEq)]
pub struct InsertOutcome {
    pub inserted_id: ObjectId,
}

/// The result of an update: how many users the identifier matched.
#[derive(Debug, PartialEq)]
pub struct UpdateOutcome {
    pub matched_count: u64,
}

/// The result of a delete: how many users were removed.
#[derive(Debug, PartialEq)]
pub struct DeleteOutcome {
    pub deleted_count: u64,
}

/// A stored record: the assigned identifier, the insertion counter it was
/// derived from, and the user's fields.
struct Record {
    seq: u64,
    id: ObjectId,
    name: String,
    location: String,
    title: String,
}

/// The collection of user records, in insertion order, with a counter that
/// yields each new identifier.
pub struct UserStore {
    records: Vec<Record>,
    next_seq: u64,
}

impl View for UserStore {
    type V = Seq<StoredView>;

    closed spec fn view(&self) -> Seq<StoredView> {
        Seq::new(
            self.records@.len(),
            |i: int|
                StoredView {
                    id: self.records@[i].id@,
                    name: self.records@[i].name@,
                    location: self.records@[i].location@,
                    title: self.records@[i].title@,
                },
        )
    }
}

impl UserStore {
    /// Every record's counter lies below the next one, no two records share
    /// a counter, and each identifier is the encoding of its counter.
    pub closed spec fn wf(&self) -> bool {
        &&& forall|i: int|
            0 <= i < self.records@.len() ==> (#[trigger] self.records@[i]).seq < self.next_seq
        &&& forall|i: int, j: int|
            0 <= i < j < self.records@.len() ==> self.records@[i].seq != self.records@[j].seq
        &&& forall|i: int|
            0 <= i < self.records@.len() ==> (#[trigger] self.records@[i]).id@ == oid_bytes(
                self.records@[i].seq,
            )
    }

    /// Whether the store can still assign a fresh identifier.
    pub closed spec fn can_insert(&self) -> bool {
        self.next_seq < u64::MAX
    }

    /// A well-formed store holds no two users with the same identifier, and
    /// every identifier is twelve bytes.
    pub proof fn lemma_wf_distinct(&self)
        requires
            self.wf(),
        ensures
            ids_distinct(self@),
            forall|i: int| 0 <= i < self@.len() ==> (#[trigger] self@[i]).id.len() == 12,
    {
        assert forall|i: int, j: int| 0 <= i < j < self@.len() implies self@[i].id != self@[j].id by {
            crate::oid::lemma_oid_bytes_injective(self.records@[i].seq, self.records@[j].seq);
        }
    }

    /// An empty store.
    pub fn new() -> (s: UserStore)
        ensures
            s.wf(),
            s.can_insert(),
            s@ == Seq::<StoredView>::empty(),
    {
        let s = UserStore { records: Vec::new(), next_seq: 0 };
        proof {
            assert(s@ =~= Seq::<StoredView>::empty());
        }
        s
    }

    /// Stores a new user. Any identifier supplied in the input is ignored:
    /// the store assigns a fresh one and acknowledges the insert with it.
    pub fn create_user(&mut self, new_user: User) -> (r: InsertOutcome)
        requires
            old(self).wf(),
            old(self).can_insert(),
        ensures
            final(self).wf(),
            r.inserted_id.wf(),
            !has_id(old(self)@, r.inserted_id@),
            final(self)@ == model_create(
                old(self)@,
                r.inserted_id@,
                new_user@.name,
                new_user@.location,
                new_user@.title,
            ),
    {
        let n = self.next_seq;
        let id = oid_from_seq(n);
        proof {
            assert forall|i: int| 0 <= i < self@.len() implies self@[i].id != id@ by {
                crate::oid::lemma_oid_bytes_injective(self.records@[i].seq, n);
            }
        }
        let inserted_id = id.clone();
        let User { id: _, name, location, title } = new_user;
        self.records.push(Record { seq: n, id, name, location, title });
        self.next_seq = n + 1;
        proof {
            assert(self@ =~= model_create(
                old(self)@,
                inserted_id@,
                new_user@.name,
                new_user@.location,
                new_user@.title,
            ));
        }
        InsertOutcome { inserted_id }
    }

    /// Reads the user with the given identifier string. A malformed string
    /// is invalid input; a well-formed one that matches no user is not
    /// found; otherwise the stored user comes back, identifier included.
    pub fn get_user(&self, id: &str) -> (r: Result<User, UserError>)
        requires
            self.wf(),
        ensures
            !is_object_id_hex(id@) ==> (r matches Err(e) && e == UserError::InvalidInput),
            is_object_id_hex(id@) && !has_id(self@, decoded(id@)) ==> (r matches Err(e) && e
                == UserError::NotFound),
            is_object_id_hex(id@) && has_id(self@, decoded(id@)) ==> (r matches Ok(u) && u@
                == as_user(user_at(self@, decoded(id@)))),
    {
        let oid = match parse_object_id(id) {
            Ok(o) => o,
            Err(e) => {
                return Err(e);
            },
        };
        let n = self.records.len();
        let mut i: usize = 0;
        while i < n
            invariant
                self.wf(),
                n == self@.len(),
                i <= n,
                is_object_id_hex(id@),
                oid@ == decoded(id@),
                forall|j: int| 0 <= j < i ==> (#[trigger] self@[j]).id != oid@,
            decreases n - i,
        {
            if self.records[i].id.same_id(&oid) {
                proof {
                    self.lemma_wf_distinct();
                    lemma_unique_index(self@, oid@, i as int);
                }
                return Ok(user_of_record(&self.records[i]));
            }
            i += 1;
        }
        proof {
            assert(!has_id(self@, oid@));
        }
        Err(UserError::NotFound)
    }

    /// Rewrites the text fields of the user with the given identifier; the
    /// identifier itself is not part of the updatable field set. The
    /// outcome's matched count says whether such a user existed.
    pub fn update_user(&mut self, id: &str, new_user: User) -> (r: Result<
        UpdateOutcome,
        UserError,
    >)
        requires
            old(self).wf(),
        ensures
            final(self).wf(),
            !is_object_id_hex(id@) ==> (r matches Err(e) && e == UserError::InvalidInput
                && final(self)@ == old(self)@),
            is_object_id_hex(id@) && !has_id(old(self)@, decoded(id@)) ==> (r matches Ok(o)
                && o.matched_count == 0 && final(self)@ == old(self)@),
            is_object_id_hex(id@) && has_id(old(self)@, decoded(id@)) ==> (r matches Ok(o)
                && o.matched_count == 1 && final(self)@ == model_update(
                old(self)@,
                decoded(id@),
                new_user@.name,
                new_user@.location,
                new_user@.title,
            )),
    {
        let oid = match parse_object_id(id) {
            Ok(o) => o,
            Err(e) => {
                return Err(e);
            },
        };
        let n = self.records.len();
        let mut i: usize = 0;
        while i < n
            invariant
                self.wf(),
                self@ == old(self)@,
                n == self@.len(),
                i <= n,
                is_object_id_hex(id@),
                oid@ == decoded(id@),
                forall|j: int| 0 <= j < i ==> (#[trigger] self@[j]).id != oid@,
            decreases n - i,
        {
            if self.records[i].id.same_id(&oid) {
                proof {
                    self.lemma_wf_distinct();
                    lemma_unique_index(self@, oid@, i as int);
                }
                let seqno = self.records[i].seq;
                let rid = self.records[i].id.clone();
                let User { id: _, name, location, title } = new_user;
                self.records[i] = Record { seq: seqno, id: rid, name, location, title };
                proof {
                    assert(self@ =~= model_update(
                        old(self)@,
                        decoded(id@),
                        new_user@.name,
                        new_user@.location,
                        new_user@.title,
                    ));
                }
                return Ok(UpdateOutcome { matched_count: 1 });
            }
            i += 1;
        }
        proof {
            assert(!has_id(self@, oid@));
        }
        Ok(UpdateOutcome { matched_count: 0 })
    }

    /// Removes the user with the given identifier. The outcome's deleted
    /// count says whether such a user existed; the rest keep their order.
    pub fn delete_user(&mut self, id: &str) -> (r: Result<DeleteOutcome, UserError>)
        requires
            old(self).wf(),
        ensures
            final(self).wf(),
            !is_object_id_hex(id@) ==> (r matches Err(e) && e == UserError::InvalidInput
                && final(self)@ == old(self)@),
            is_object_id_hex(id@) && !has_id(old(self)@, decoded(id@)) ==> (r matches Ok(o)
                && o.deleted_count == 0 && final(self)@ == old(self)@),
            is_object_id_hex(id@) && has_id(old(self)@, decoded(id@)) ==> (r matches Ok(o)
                && o.deleted_count == 1 && final(self)@ == model_delete(old(self)@, decoded(id@))),
    {
        let oid = match parse_object_id(id) {
            Ok(o) => o,
            Err(e) => {
                return Err(e);
            },
        };
        let n = self.records.len();
        let mut i: usize = 0;
        while i < n
            invariant
                self.wf(),
                self@ == old(self)@,
                n == self@.len(),
                i <= n,
                is_object_id_hex(id@),
                oid@ == decoded(id@),
                forall|j: int| 0 <= j < i ==> (#[trigger] self@[j]).id != oid@,
            decreases n - i,
        {
            if self.records[i].id.same_id(&oid) {
                proof {
                    self.lemma_wf_distinct();
                    lemma_unique_index(self@, oid@, i as int);
                }
                self.records.remove(i);
                proof {
                    assert(self@ =~= model_delete(old(self)@, decoded(id@)));
                }
                return Ok(DeleteOutcome { deleted_count: 1 });
            }
            i += 1;
        }
        proof {
            assert(!has_id(self@, oid@));
        }
        Ok(DeleteOutcome { deleted_count: 0 })
    }

    /// Lists every stored user, in insertion order, identifiers included.
    pub fn get_all_users(&self) -> (r: Vec<User>)
        requires
            self.wf(),
        ensures
            r@.len() == self@.len(),
            forall|i: int| 0 <= i < self@.len() ==> (#[trigger] r@[i])@ == as_user(self@[i]),
    {
        let mut r: Vec<User> = Vec::new();
        let n = self.records.len();
        let mut i: usize = 0;
        while i < n
            invariant
                self.wf(),
                n == self@.len(),
                i <= n,
                r@.len() == i,
                forall|j: int| 0 <= j < i ==> (#[trigger] r@[j])@ == as_user(self@[j]),
            decreases n - i,
        {
            r.push(user_of_record(&self.records[i]));
            i += 1;
        }
        r
    }
}

/// Reads one record out as a user value, identifier included.
fn user_of_record(r: &Record) -> (u: User)
    ensures
        u@.id == Option::Some(r.id@),
        u@.name == r.name@,
        u@.location == r.location@,
        u@.title == r.title@,
{
    User {
        id: Some(r.id.clone()),
        name: r.name.clone(),
        location: r.location.clone(),
        title: r.title.clone(),
    }
}

} // verus!
