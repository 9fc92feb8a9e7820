//! The directory of currently joined users, modelled as a sequence of
//! [`UserView`] values keyed by connection identity. Well-formedness says
//! identities and display names are unique among joined users.

use crate::user::UserView;
use vstd::prelude::*;

verus! {

/// Index of the first entry holding identity `id`, or -1 when there is none.
pub open spec fn dir_index(users: Seq<UserView>, id: u128) -> int
    decreases users.len(),
{
    if users.len() == 0 {
        -1
    } else if users[0].id == id {
        0
    } else if dir_index(users.drop_first(), id) < 0 {
        -1
    } else {
        1 + dir_index(users.drop_first(), id)
    }
}

/// Some joined user holds identity `id`.
pub open spec fn dir_has(users: Seq<UserView>, id: u128) -> bool {
    dir_index(users, id) >= 0
}

/// Some joined user holds the display name `n`.
pub open spec fn name_taken(users: Seq<UserView>, n: Seq<char>) -> bool {
    exists|i: int| 0 <= i < users.len() && users[i].name == n
}

/// Well-formed directory: identities and display names are unique.
pub open spec fn dir_wf(users: Seq<UserView>) -> bool {
    forall|i: int, j: int|
        0 <= i < j < users.len() ==> (#[trigger] users[i]).id != (#[trigger] users[j]).id
            && users[i].name != users[j].name
}

/// Insert `u`, replacing the entry with the same identity if there is one.
pub open spec fn dir_upsert(users: Seq<UserView>, u: UserView) -> Seq<UserView> {
    if dir_has(users, u.id) {
        users.update(dir_index(users, u.id), u)
    } else {
        users.push(u)
    }
}

/// The users other than the one with identity `id`, in directory order.
pub open spec fn others(users: Seq<UserView>, id: u128) -> Seq<UserView>
    decreases users.len(),
{
    if users.len() == 0 {
        Seq::empty()
    } else {
        let init = others(users.drop_last(), id);
        if users.last().id == id {
            init
        } else {
            init.push(users.last())
        }
    }
}

/// How many entries hold identity `id`.
pub open spec fn dir_count(users: Seq<UserView>, id: u128) -> int
    decreases users.len(),
{
    if users.len() == 0 {
        0
    } else {
        dir_count(users.drop_last(), id) + (if users.last().id == id {
            1int
        } else {
            0int
        })
    }
}

/// `dir_index` names an entry with the identity when there is one, and the
/// first such entry.
pub proof fn lemma_dir_index(users: Seq<UserView>, id: u128)
    ensures
        dir_has(users, id) ==> 0 <= dir_index(users, id) < users.len() && users[dir_index(
            users,
            id,
        )].id == id,
        forall|j: int|
            0 <= j < users.len() && j < dir_index(users, id) ==> (#[trigger] users[j]).id != id,
        !dir_has(users, id) ==> forall|j: int|
            0 <= j < users.len() ==> (#[trigger] users[j]).id != id,
    decreases users.len(),
{
    if users.len() > 0 && users[0].id != id {
        lemma_dir_index(users.drop_first(), id);
        assert forall|j: int| 1 <= j < users.len() implies users.drop_first()[j - 1] == users[j] by {}
    }
}

/// Pins `dir_index` from a scan: no entry before `i` matches, and the entry
/// at `i` (when `i` is in range) does.
pub proof fn lemma_dir_index_at(users: Seq<UserView>, id: u128, i: int)
    requires
        0 <= i <= users.len(),
        forall|j: int| 0 <= j < i ==> (#[trigger] users[j]).id != id,
        i < users.len() ==> users[i].id == id,
    ensures
        i < users.len() ==> dir_index(users, id) == i,
        i == users.len() ==> dir_index(users, id) == -1,
    decreases users.len(),
{
    if i > 0 {
        lemma_dir_index_at(users.drop_first(), id, i - 1);
    }
}

/// Unfolding `others` over a push.
pub proof fn lemma_others_push(init: Seq<UserView>, u: UserView, id: u128)
    ensures
        others(init.push(u), id) == (if u.id == id {
            others(init, id)
        } else {
            others(init, id).push(u)
        }),
{
    assert(init.push(u).drop_last() =~= init);
}

/// When no entry matches, `others` keeps every entry.
pub proof fn lemma_others_no_match(users: Seq<UserView>, id: u128)
    requires
        forall|j: int| 0 <= j < users.len() ==> (#[trigger] users[j]).id != id,
    ensures
        others(users, id) == users,
    decreases users.len(),
{
    if users.len() > 0 {
        lemma_others_no_match(users.drop_last(), id);
        assert(users.drop_last().push(users.last()) =~= users);
    }
}

/// When exactly the entry at `i` matches, `others` removes it.
pub proof fn lemma_others_remove(users: Seq<UserView>, id: u128, i: int)
    requires
        0 <= i < users.len(),
        users[i].id == id,
        forall|j: int| 0 <= j < users.len() && j != i ==> (#[trigger] users[j]).id != id,
    ensures
        others(users, id) == users.remove(i),
    decreases users.len(),
{
    if i == users.len() - 1 {
        lemma_others_no_match(users.drop_last(), id);
        assert(users.remove(i) =~= users.drop_last());
    } else {
        lemma_others_remove(users.drop_last(), id, i);
        assert(users.drop_last().remove(i).push(users.last()) =~= users.remove(i));
    }
}

/// When no entry matches, the count is zero.
pub proof fn lemma_dir_count_zero(users: Seq<UserView>, id: u128)
    requires
        forall|j: int| 0 <= j < users.len() ==> (#[trigger] users[j]).id != id,
    ensures
        dir_count(users, id) == 0,
    decreases users.len(),
{
    if users.len() > 0 {
        lemma_dir_count_zero(users.drop_last(), id);
    }
}

/// When exactly the entry at `i` matches, the count is one.
pub proof fn lemma_dir_count_one(users: Seq<UserView>, id: u128, i: int)
    requires
        0 <= i < users.len(),
        users[i].id == id,
        forall|j: int| 0 <= j < users.len() && j != i ==> (#[trigger] users[j]).id != id,
    ensures
        dir_count(users, id) == 1,
    decreases users.len(),
{
    if i == users.len() - 1 {
        lemma_dir_count_zero(users.drop_last(), id);
    } else {
        lemma_dir_count_one(users.drop_last(), id, i);
    }
}

/// Entering a user whose name no joined user holds keeps the directory
/// well-formed: identities and names stay unique.
pub proof fn lemma_dir_upsert_wf(users: Seq<UserView>, u: UserView)
    requires
        dir_wf(users),
        !name_taken(users, u.name),
    ensures
        dir_wf(dir_upsert(users, u)),
{
    lemma_dir_index(users, u.id);
    let after = dir_upsert(users, u);
    if dir_has(users, u.id) {
        let at = dir_index(users, u.id);
        assert forall|i: int, j: int| 0 <= i < j < after.len() implies (#[trigger] after[i]).id != (
        #[trigger] after[j]).id && after[i].name != after[j].name by {
            assert(users[i].id != users[j].id && users[i].name != users[j].name);
            if i == at {
                assert(after[i] == u && after[j] == users[j]);
                assert(u.id == users[at].id);
                assert(users[j].name != u.name);
            } else if j == at {
                assert(after[j] == u && after[i] == users[i]);
                assert(u.id == users[at].id);
                assert(users[i].name != u.name);
            } else {
                assert(after[i] == users[i] && after[j] == users[j]);
            }
        }
    } else {
        assert forall|i: int, j: int| 0 <= i < j < after.len() implies (#[trigger] after[i]).id != (
        #[trigger] after[j]).id && after[i].name != after[j].name by {
            if j < users.len() {
                assert(users[i].id != users[j].id && users[i].name != users[j].name);
            } else {
                assert(after[i] == users[i] && after[j] == u);
                assert(users[i].id != u.id);
                assert(users[i].name != u.name);
            }
        }
    }
}

/// In a well-formed directory the entry holding `users[i].id` is unique.
pub proof fn lemma_dir_wf_unique(users: Seq<UserView>, i: int)
    requires
        dir_wf(users),
        0 <= i < users.len(),
    ensures
        forall|j: int| 0 <= j < users.len() && j != i ==> (#[trigger] users[j]).id != users[i].id,
{
    assert forall|j: int| 0 <= j < users.len() && j != i implies (#[trigger] users[j]).id
        != users[i].id by {
        if j < i {
            assert(users[j].id != users[i].id);
        } else {
            assert(users[i].id != users[j].id);
        }
    }
}

} // verus!
