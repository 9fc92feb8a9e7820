//! Laws of the coordinator, stated over the specification functions that
//! the executable methods are proved against: name uniqueness, feed
//! ordering, snapshot contents, fan-out exclusion, and disconnect
//! behaviour.

use crate::directory::{
    dir_count, dir_has, dir_index, dir_upsert, dir_wf, lemma_dir_count_one, lemma_dir_index,
    lemma_dir_index_at, lemma_dir_upsert_wf, lemma_dir_wf_unique, lemma_others_no_match,
    lemma_others_remove, name_taken, others,
};
use crate::feed::{feed_insert, feed_sorted, insert_pos, lemma_feed_insert_sorted,
    lemma_insert_pos_at, lemma_insert_pos_bounds};
use crate::message::MessageView;
use crate::names::{trimmed, valid_name};
use crate::response::{EnvelopeView, ErrorType, JoinedView, ResponseView};
use crate::user::UserView;
use crate::worker::{
    envelope, fan_out, fan_out_all, spec_disconnect, spec_join, spec_post,
};
use vstd::prelude::*;

verus! {

/// How many envelopes in `out` are addressed to `id`.
pub open spec fn addressed_count(out: Seq<EnvelopeView>, id: u128) -> int
    decreases out.len(),
{
    if out.len() == 0 {
        0
    } else {
        addressed_count(out.drop_last(), id) + (if out.last().client_id == id {
            1int
        } else {
            0int
        })
    }
}

proof fn lemma_addressed_count_push(out: Seq<EnvelopeView>, e: EnvelopeView, id: u128)
    ensures
        addressed_count(out.push(e), id) == addressed_count(out, id) + (if e.client_id == id {
            1int
        } else {
            0int
        }),
{
    assert(out.push(e).drop_last() =~= out);
}

proof fn lemma_addressed_count_prepend(e: EnvelopeView, out: Seq<EnvelopeView>, id: u128)
    ensures
        addressed_count(seq![e] + out, id) == addressed_count(out, id) + (if e.client_id == id {
            1int
        } else {
            0int
        }),
    decreases out.len(),
{
    if out.len() == 0 {
        assert(seq![e] + out =~= seq![e]);
        assert((seq![e]).drop_last() =~= Seq::<EnvelopeView>::empty());
        assert(addressed_count(Seq::<EnvelopeView>::empty(), id) == 0);
        assert((seq![e]).last() == e);
        assert(addressed_count(seq![e], id) == (if e.client_id == id {
            1int
        } else {
            0int
        }));
        assert(addressed_count(out, id) == 0);
    } else {
        lemma_addressed_count_prepend(e, out.drop_last(), id);
        assert((seq![e] + out).drop_last() =~= seq![e] + out.drop_last());
        assert((seq![e] + out).last() == out.last());
        assert((seq![e] + out).len() == 1 + out.len());
    }
}

/// `fan_out` sends one envelope per user other than `id`, in directory
/// order, each carrying the same payload.
proof fn lemma_fan_out_shape(users: Seq<UserView>, id: u128, data: ResponseView)
    ensures
        fan_out(users, id, data).len() == others(users, id).len(),
        forall|k: int|
            0 <= k < fan_out(users, id, data).len() ==> #[trigger] fan_out(users, id, data)[k]
                == envelope(others(users, id)[k].id, data),
    decreases users.len(),
{
    if users.len() > 0 {
        lemma_fan_out_shape(users.drop_last(), id, data);
    }
}

/// `fan_out_all` sends one envelope per user, in directory order.
proof fn lemma_fan_out_all_shape(users: Seq<UserView>, data: ResponseView)
    ensures
        fan_out_all(users, data).len() == users.len(),
        forall|k: int|
            0 <= k < users.len() ==> #[trigger] fan_out_all(users, data)[k] == envelope(
                users[k].id,
                data,
            ),
    decreases users.len(),
{
    if users.len() > 0 {
        lemma_fan_out_all_shape(users.drop_last(), data);
    }
}

/// No user other than `id` is dropped or duplicated by `fan_out`: the
/// envelopes addressed to any identity number what the directory holds,
/// and none is addressed to `id`.
proof fn lemma_fan_out_count(users: Seq<UserView>, id: u128, data: ResponseView, target: u128)
    ensures
        addressed_count(fan_out(users, id, data), target) == (if target == id {
            0int
        } else {
            dir_count(users, target)
        }),
    decreases users.len(),
{
    if users.len() > 0 {
        lemma_fan_out_count(users.drop_last(), id, data, target);
        if users.last().id != id {
            lemma_addressed_count_push(
                fan_out(users.drop_last(), id, data),
                envelope(users.last().id, data),
                target,
            );
        }
    }
}

proof fn lemma_fan_out_all_count(users: Seq<UserView>, data: ResponseView, target: u128)
    ensures
        addressed_count(fan_out_all(users, data), target) == dir_count(users, target),
    decreases users.len(),
{
    if users.len() > 0 {
        lemma_fan_out_all_count(users.drop_last(), data, target);
        lemma_addressed_count_push(
            fan_out_all(users.drop_last(), data),
            envelope(users.last().id, data),
            target,
        );
    }
}

/// Everyone listed by `others` indeed has another identity.
proof fn lemma_others_excludes(users: Seq<UserView>, id: u128)
    ensures
        forall|k: int|
            0 <= k < others(users, id).len() ==> (#[trigger] others(users, id)[k]).id != id,
    decreases users.len(),
{
    if users.len() > 0 {
        lemma_others_excludes(users.drop_last(), id);
        let init = others(users.drop_last(), id);
        assert forall|k: int| 0 <= k < others(users, id).len() implies (#[trigger] others(
            users,
            id,
        )[k]).id != id by {
            if users.last().id != id {
                assert(others(users, id) == init.push(users.last()));
                if k < init.len() {
                    assert(others(users, id)[k] == init[k]);
                } else {
                    assert(others(users, id)[k] == users.last());
                }
            }
        }
    }
}

/// Uniqueness: a join preserves the well-formed directory — at most one
/// joined user ever holds a given identity or name — and a join under a
/// name some joined user already holds is answered with `NameExisted`
/// alone and changes nothing.
pub proof fn lemma_join_uniqueness(
    users: Seq<UserView>,
    feed: Seq<MessageView>,
    client_id: u128,
    raw_name: Seq<char>,
)
    requires
        dir_wf(users),
    ensures
        dir_wf(spec_join(users, feed, client_id, raw_name).0),
        name_taken(users, trimmed(raw_name)) ==> spec_join(users, feed, client_id, raw_name).0
            == users && spec_join(users, feed, client_id, raw_name).1 == seq![
            envelope(client_id, ResponseView::Error(ErrorType::NameExisted)),
        ],
{
    let n = trimmed(raw_name);
    if !name_taken(users, n) && valid_name(n) {
        lemma_dir_upsert_wf(users, UserView { id: client_id, name: n });
    }
}

/// Join snapshot: when a fresh identity joins under a free, valid name,
/// the directory gains exactly that user, and the joiner's `Joined`
/// envelope lists exactly the previously joined users, in order, and the
/// whole feed, in order.
pub proof fn lemma_join_snapshot(
    users: Seq<UserView>,
    feed: Seq<MessageView>,
    client_id: u128,
    raw_name: Seq<char>,
)
    requires
        dir_wf(users),
        !dir_has(users, client_id),
        !name_taken(users, trimmed(raw_name)),
        valid_name(trimmed(raw_name)),
    ensures
        ({
            let u = UserView { id: client_id, name: trimmed(raw_name) };
            &&& spec_join(users, feed, client_id, raw_name).0 == users.push(u)
            &&& spec_join(users, feed, client_id, raw_name).1[0] == envelope(
                client_id,
                ResponseView::Joined(JoinedView { user: u, other_users: users, messages: feed }),
            )
        }),
{
    let u = UserView { id: client_id, name: trimmed(raw_name) };
    lemma_dir_index(users, client_id);
    let after = dir_upsert(users, u);
    assert(after == users.push(u));
    crate::directory::lemma_others_push(users, u, client_id);
    lemma_others_no_match(users, client_id);
}

/// A new message with a timestamp not before any in the feed lands at the
/// end: the feed is append-only under a monotone clock.
pub proof fn lemma_feed_insert_append(feed: Seq<MessageView>, m: MessageView)
    requires
        feed_sorted(feed),
        forall|j: int|
            0 <= j < feed.len() ==> (#[trigger] feed[j]).created_at_utc <= m.created_at_utc,
    ensures
        feed_insert(feed, m) == feed.push(m),
{
    lemma_insert_pos_at(feed, m.created_at_utc, feed.len() as int);
    assert(feed_insert(feed, m) =~= feed.push(m));
}

/// Post ordering: inserting `m1` and then `m2` with a timestamp not before
/// `m1`'s leaves `m1` before `m2` in the feed, whatever the feed held.
pub proof fn lemma_post_order(feed: Seq<MessageView>, m1: MessageView, m2: MessageView)
    requires
        feed_sorted(feed),
        m1.created_at_utc <= m2.created_at_utc,
    ensures
        ({
            let f1 = feed_insert(feed, m1);
            let f2 = feed_insert(f1, m2);
            let p1 = insert_pos(feed, m1.created_at_utc);
            let p2 = insert_pos(f1, m2.created_at_utc);
            &&& 0 <= p1 < p2 < f2.len()
            &&& f2[p1] == m1
            &&& f2[p2] == m2
        }),
{
    let f1 = feed_insert(feed, m1);
    let p1 = insert_pos(feed, m1.created_at_utc);
    lemma_insert_pos_bounds(feed, m1.created_at_utc);
    lemma_feed_insert_sorted(feed, m1);
    let p2 = insert_pos(f1, m2.created_at_utc);
    lemma_insert_pos_bounds(f1, m2.created_at_utc);
    lemma_feed_insert_sorted(f1, m2);
    assert(f1[p1] == m1);
    if p2 <= p1 {
        assert(f1[p2].created_at_utc > m2.created_at_utc);
        if p2 < p1 {
            assert(f1[p2] == feed[p2]);
            assert(feed[p2].created_at_utc <= m1.created_at_utc);
        } else {
            assert(f1[p2] == m1);
        }
        assert(false);
    }
}

/// Not-joined rejection: a post from an identity that has not joined is
/// answered with `NotJoined` alone and leaves the feed unchanged, whatever
/// the text, identifier and timestamp.
pub proof fn lemma_post_not_joined(
    users: Seq<UserView>,
    feed: Seq<MessageView>,
    client_id: u128,
    text: Seq<char>,
    message_id: u128,
    created_at_utc: i64,
)
    requires
        !dir_has(users, client_id),
    ensures
        spec_post(users, feed, client_id, text, message_id, created_at_utc).0 == feed,
        spec_post(users, feed, client_id, text, message_id, created_at_utc).1 == seq![
            envelope(client_id, ResponseView::Error(ErrorType::NotJoined)),
        ],
{
}

/// Empty-message rejection: a joined user's post of an empty text is
/// answered with `InvalidMessage` alone and leaves the feed unchanged.
pub proof fn lemma_post_empty_message(
    users: Seq<UserView>,
    feed: Seq<MessageView>,
    client_id: u128,
    text: Seq<char>,
    message_id: u128,
    created_at_utc: i64,
)
    requires
        text.len() == 0,
    ensures
        spec_post(users, feed, client_id, text, message_id, created_at_utc).0 == feed,
        dir_has(users, client_id) ==> spec_post(
            users,
            feed,
            client_id,
            text,
            message_id,
            created_at_utc,
        ).1 == seq![envelope(client_id, ResponseView::Error(ErrorType::InvalidMessage))],
{
}

/// Fan-out exclusion: on a successful post the poster is addressed exactly
/// one envelope, the `Posted` one; every other joined user is addressed
/// exactly one envelope, a `UserPosted` carrying the identical message; and
/// no `UserPosted` is addressed to the poster.
pub proof fn lemma_post_fan_out_exclusion(
    users: Seq<UserView>,
    feed: Seq<MessageView>,
    client_id: u128,
    text: Seq<char>,
    message_id: u128,
    created_at_utc: i64,
)
    requires
        dir_wf(users),
        dir_has(users, client_id),
        text.len() > 0,
    ensures
        ({
            let m = MessageView {
                id: message_id,
                user: users[dir_index(users, client_id)],
                text,
                created_at_utc,
            };
            let out = spec_post(users, feed, client_id, text, message_id, created_at_utc).1;
            &&& out.len() == 1 + others(users, client_id).len()
            &&& out[0] == envelope(client_id, ResponseView::Posted(m))
            &&& forall|k: int|
                1 <= k < out.len() ==> (#[trigger] out[k]).client_id != client_id && out[k].data
                    == ResponseView::UserPosted(m)
            &&& addressed_count(out, client_id) == 1
            &&& forall|j: int|
                0 <= j < users.len() && (#[trigger] users[j]).id != client_id ==> addressed_count(
                    out,
                    users[j].id,
                ) == 1
        }),
{
    let m = MessageView {
        id: message_id,
        user: users[dir_index(users, client_id)],
        text,
        created_at_utc,
    };
    let head = envelope(client_id, ResponseView::Posted(m));
    let notices = fan_out(users, client_id, ResponseView::UserPosted(m));
    let out = spec_post(users, feed, client_id, text, message_id, created_at_utc).1;
    assert(out == seq![head] + notices);
    lemma_fan_out_shape(users, client_id, ResponseView::UserPosted(m));
    lemma_others_excludes(users, client_id);
    assert forall|k: int| 1 <= k < out.len() implies (#[trigger] out[k]).client_id != client_id
        && out[k].data == ResponseView::UserPosted(m) by {
        assert(out[k] == notices[k - 1]);
        assert(notices[k - 1] == envelope(
            others(users, client_id)[k - 1].id,
            ResponseView::UserPosted(m),
        ));
    }
    lemma_fan_out_count(users, client_id, ResponseView::UserPosted(m), client_id);
    lemma_addressed_count_prepend(head, notices, client_id);
    assert forall|j: int|
        0 <= j < users.len() && (#[trigger] users[j]).id != client_id implies addressed_count(
        out,
        users[j].id,
    ) == 1 by {
        lemma_fan_out_count(users, client_id, ResponseView::UserPosted(m), users[j].id);
        lemma_dir_wf_unique(users, j);
        lemma_dir_count_one(users, users[j].id, j);
        lemma_addressed_count_prepend(head, notices, users[j].id);
    }
}

/// Disconnect cleanup: removing a joined identity leaves the directory
/// well-formed and without that identity, frees its name at once, and
/// addresses exactly one `UserLeft` to every remaining user.
pub proof fn lemma_disconnect_cleanup(users: Seq<UserView>, client_id: u128)
    requires
        dir_wf(users),
        dir_has(users, client_id),
    ensures
        ({
            let rest = spec_disconnect(users, client_id).0;
            let out = spec_disconnect(users, client_id).1;
            &&& rest == users.remove(dir_index(users, client_id))
            &&& dir_wf(rest)
            &&& !dir_has(rest, client_id)
            &&& !name_taken(rest, users[dir_index(users, client_id)].name)
            &&& out.len() == rest.len()
            &&& forall|k: int|
                0 <= k < out.len() ==> #[trigger] out[k] == envelope(
                    rest[k].id,
                    ResponseView::UserLeft(client_id),
                )
            &&& forall|j: int|
                0 <= j < rest.len() ==> addressed_count(out, (#[trigger] rest[j]).id) == 1
        }),
{
    let at = dir_index(users, client_id);
    lemma_dir_index(users, client_id);
    lemma_dir_wf_unique(users, at);
    lemma_others_remove(users, client_id, at);
    let rest = spec_disconnect(users, client_id).0;
    let out = spec_disconnect(users, client_id).1;
    assert(rest == users.remove(at));
    assert forall|i: int, j: int| 0 <= i < j < rest.len() implies (#[trigger] rest[i]).id != (
    #[trigger] rest[j]).id && rest[i].name != rest[j].name by {
        let oi = if i < at {
            i
        } else {
            i + 1
        };
        let oj = if j < at {
            j
        } else {
            j + 1
        };
        assert(rest[i] == users[oi]);
        assert(rest[j] == users[oj]);
        assert(users[oi].id != users[oj].id && users[oi].name != users[oj].name);
    }
    assert forall|k: int| 0 <= k < rest.len() implies (#[trigger] rest[k]).id != client_id
        && rest[k].name != users[at].name by {
        let ok = if k < at {
            k
        } else {
            k + 1
        };
        assert(rest[k] == users[ok]);
        assert(users[ok].id != client_id);
        if ok < at {
            assert(users[ok].name != users[at].name);
        } else {
            assert(users[at].name != users[ok].name);
        }
    }
    lemma_dir_index_at(rest, client_id, rest.len() as int);
    lemma_fan_out_all_shape(rest, ResponseView::UserLeft(client_id));
    assert forall|j: int| 0 <= j < rest.len() implies addressed_count(out, (#[trigger] rest[j]).id)
        == 1 by {
        lemma_fan_out_all_count(rest, ResponseView::UserLeft(client_id), rest[j].id);
        lemma_dir_wf_unique(rest, j);
        lemma_dir_count_one(rest, rest[j].id, j);
    }
}

/// Disconnect frees the name: after a joined user disconnects, a join
/// under the very name it held succeeds at once.
pub proof fn lemma_disconnect_frees_name(
    users: Seq<UserView>,
    feed: Seq<MessageView>,
    client_id: u128,
    new_client_id: u128,
    raw_name: Seq<char>,
)
    requires
        dir_wf(users),
        dir_has(users, client_id),
        users[dir_index(users, client_id)].name == trimmed(raw_name),
        valid_name(trimmed(raw_name)),
    ensures
        ({
            let rest = spec_disconnect(users, client_id).0;
            spec_join(rest, feed, new_client_id, raw_name).1[0].data is Joined
        }),
{
    lemma_disconnect_cleanup(users, client_id);
    let rest = spec_disconnect(users, client_id).0;
    let n = trimmed(raw_name);
    assert(!name_taken(rest, n)) by {
        let at = dir_index(users, client_id);
        lemma_dir_index(users, client_id);
        lemma_others_remove(users, client_id, at);
    }
}

/// Idempotent no-op disconnect: an identity that never joined leaves the
/// directory unchanged and emits nothing.
pub proof fn lemma_disconnect_noop(users: Seq<UserView>, client_id: u128)
    requires
        !dir_has(users, client_id),
    ensures
        spec_disconnect(users, client_id).0 == users,
        spec_disconnect(users, client_id).1 == Seq::<EnvelopeView>::empty(),
{
}

} // verus!
