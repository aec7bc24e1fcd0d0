//! The laws of the repository, proved over the model sequences that the
//! [`crate::store`] operations are specified with. A real store always
//! satisfies their distinctness premise: see
//! [`crate::store::UserStore::lemma_wf_distinct`].

use vstd::prelude::*;

use crate::store::{
    has_id, ids_distinct, idx_of, model_create, model_delete, model_get, model_update, user_at,
    StoredView,
};

verus! {

/// No identifier matches anything in a collection that does not carry it.
proof fn lemma_no_match(s: Seq<StoredView>, id: Seq<u8>)
    requires
        !has_id(s, id),
    ensures
        forall|i: int| 0 <= i < s.len() ==> (#[trigger] s[i]).id != id,
{
    assert forall|i: int| 0 <= i < s.len() implies (#[trigger] s[i]).id != id by {
        if s[i].id == id {
            assert(has_id(s, id));
        }
    }
}

/// Creating a user under a fresh identifier and then reading that identifier
/// yields the user back, with every field as given and the identifier now
/// populated; the collection grew by exactly one entry.
pub proof fn lemma_create_then_get(
    s: Seq<StoredView>,
    id: Seq<u8>,
    name: Seq<char>,
    location: Seq<char>,
    title: Seq<char>,
)
    requires
        !has_id(s, id),
    ensures
        model_get(model_create(s, id, name, location, title), id) == Option::Some(
            StoredView { id, name, location, title },
        ),
        model_create(s, id, name, location, title).len() == s.len() + 1,
{
    let s2 = model_create(s, id, name, location, title);
    assert(s2[s.len() as int].id == id);
    assert(has_id(s2, id));
    let i = idx_of(s2, id);
    assert(0 <= i < s2.len() && s2[i].id == id);
    if i < s.len() {
        assert(s[i].id == id);
        assert(has_id(s, id));
    }
    assert(s2[i] == (StoredView { id, name, location, title }));
}

/// An identifier that no stored user carries: reading finds nothing, and
/// updating or deleting leaves the collection exactly as it was.
pub proof fn lemma_absent_id(
    s: Seq<StoredView>,
    id: Seq<u8>,
    name: Seq<char>,
    location: Seq<char>,
    title: Seq<char>,
)
    requires
        !has_id(s, id),
    ensures
        model_get(s, id) is None,
        model_update(s, id, name, location, title) == s,
        model_delete(s, id) == s,
{
    lemma_no_match(s, id);
    assert(model_update(s, id, name, location, title) =~= s);
}

/// Updating an existing user and then reading its identifier yields exactly
/// the new text fields under the unchanged identifier; no identifier in the
/// collection moved, and every other user reads back as before.
pub proof fn lemma_update_then_get(
    s: Seq<StoredView>,
    id: Seq<u8>,
    name: Seq<char>,
    location: Seq<char>,
    title: Seq<char>,
)
    requires
        ids_distinct(s),
        has_id(s, id),
    ensures
        model_get(model_update(s, id, name, location, title), id) == Option::Some(
            StoredView { id, name, location, title },
        ),
        model_update(s, id, name, location, title).len() == s.len(),
        forall|i: int|
            0 <= i < s.len() ==> (#[trigger] model_update(s, id, name, location, title)[i]).id
                == s[i].id,
        forall|other: Seq<u8>|
            other != id ==> #[trigger] model_get(
                model_update(s, id, name, location, title),
                other,
            ) == model_get(s, other),
{
    let s2 = model_update(s, id, name, location, title);
    let k = idx_of(s, id);
    assert(0 <= k < s.len() && s[k].id == id);
    assert(s2[k].id == id);
    assert(has_id(s2, id));
    let i2 = idx_of(s2, id);
    assert(0 <= i2 < s2.len() && s2[i2].id == id);
    assert(s[i2].id == id);
    assert(s2[i2] == (StoredView { id, name, location, title }));
    assert forall|other: Seq<u8>| other != id implies #[trigger] model_get(s2, other) == model_get(
        s,
        other,
    ) by {
        if has_id(s, other) {
            let j = idx_of(s, other);
            assert(0 <= j < s.len() && s[j].id == other);
            assert(s2[j].id == other);
            assert(has_id(s2, other));
            let j2 = idx_of(s2, other);
            assert(0 <= j2 < s2.len() && s2[j2].id == other);
            assert(s[j2].id == other);
            if j2 != j {
                assert(false);
            }
            assert(s2[j] == s[j]);
        } else {
            lemma_no_match(s, other);
            if has_id(s2, other) {
                let j2 = idx_of(s2, other);
                assert(s[j2].id == other);
            }
        }
    }
}

/// Deleting an existing user: reading its identifier afterwards finds
/// nothing; a second delete removes nothing and leaves the collection as the
/// first left it; the collection shrank by exactly one entry; and every
/// other identifier is carried afterwards exactly as before.
pub proof fn lemma_delete_then_get(s: Seq<StoredView>, id: Seq<u8>)
    requires
        ids_distinct(s),
        has_id(s, id),
    ensures
        model_get(model_delete(s, id), id) is None,
        !has_id(model_delete(s, id), id),
        model_delete(model_delete(s, id), id) == model_delete(s, id),
        model_delete(s, id).len() == s.len() - 1,
        forall|other: Seq<u8>|
            other != id ==> (#[trigger] has_id(model_delete(s, id), other) <==> has_id(s, other)),
{
    let k = idx_of(s, id);
    assert(0 <= k < s.len() && s[k].id == id);
    let s2 = s.remove(k);
    assert(model_delete(s, id) == s2);
    assert forall|i: int| 0 <= i < s2.len() implies (#[trigger] s2[i]).id != id by {
        if i < k {
            assert(s2[i] == s[i]);
            if s[i].id == id {
                assert(false);
            }
        } else {
            assert(s2[i] == s[i + 1]);
            if s[i + 1].id == id {
                assert(false);
            }
        }
    }
    assert(!has_id(s2, id));
    assert forall|other: Seq<u8>| other != id implies (#[trigger] has_id(s2, other) <==> has_id(
        s,
        other,
    )) by {
        if has_id(s, other) {
            let j = idx_of(s, other);
            assert(0 <= j < s.len() && s[j].id == other);
            if j < k {
                assert(s2[j].id == other);
            } else {
                assert(j != k);
                assert(s2[j - 1] == s[j]);
            }
            assert(has_id(s2, other));
        }
        if has_id(s2, other) {
            let j2 = idx_of(s2, other);
            assert(0 <= j2 < s2.len() && s2[j2].id == other);
            if j2 < k {
                assert(s[j2].id == other);
            } else {
                assert(s[j2 + 1].id == other);
            }
            assert(has_id(s, other));
        }
    }
}

} // verus!
