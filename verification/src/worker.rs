//! The coordinator: sole owner of the user directory and the message feed.
//! It validates and applies join, post and disconnect requests and computes
//! the individually addressed response envelopes to fan out — one envelope
//! per recipient, never a wildcard. The surrounding runtime owns the
//! channels and the clock; it hands requests in and publishes the returned
//! envelopes in order.

use crate::directory::{dir_has, dir_index, dir_upsert, dir_wf, name_taken, others};
use crate::directory::{lemma_dir_index_at, lemma_dir_wf_unique, lemma_others_remove};
use crate::feed::{feed_insert, feed_sorted, Feed};
use crate::message::{Message, MessageView};
use crate::names::{trimmed, valid_name};
use crate::request::{JoinRequestData, PostMessageRequestData, RequestData, RequestMessage};
use crate::response::{
    message_resps, user_resps, EnvelopeView, ErrorType, JoinedResponse, JoinedView,
    MessageResponse, PostedResponse, ResponseData, ResponseMessage, ResponseView,
    UserJoinedResponse, UserLeftResponse, UserResponse,
};
use crate::user::{User, UserView};
use vstd::prelude::*;

verus! {

/// The user directory a vector of users stands for.
pub open spec fn dirv(users: Seq<User>) -> Seq<UserView> {
    users.map_values(|u: User| u@)
}

/// The envelopes a vector of response messages stands for.
pub open spec fn envs(out: Seq<ResponseMessage>) -> Seq<EnvelopeView> {
    out.map_values(|m: ResponseMessage| m@)
}

/// An envelope carrying `data` to the connection with identity `client_id`.
pub open spec fn envelope(client_id: u128, data: ResponseView) -> EnvelopeView {
    EnvelopeView { client_id, data }
}

/// One envelope carrying `data` to every user except the one with identity
/// `id`, in directory order.
pub open spec fn fan_out(users: Seq<UserView>, id: u128, data: ResponseView) -> Seq<EnvelopeView>
    decreases users.len(),
{
    if users.len() == 0 {
        Seq::empty()
    } else {
        let init = fan_out(users.drop_last(), id, data);
        if users.last().id == id {
            init
        } else {
            init.push(envelope(users.last().id, data))
        }
    }
}

/// One envelope carrying `data` to every user, in directory order.
pub open spec fn fan_out_all(users: Seq<UserView>, data: ResponseView) -> Seq<EnvelopeView>
    decreases users.len(),
{
    if users.len() == 0 {
        Seq::empty()
    } else {
        fan_out_all(users.drop_last(), data).push(envelope(users.last().id, data))
    }
}

/// Unfolding `fan_out` over a push.
pub proof fn lemma_fan_out_push(init: Seq<UserView>, u: UserView, id: u128, data: ResponseView)
    ensures
        fan_out(init.push(u), id, data) == (if u.id == id {
            fan_out(init, id, data)
        } else {
            fan_out(init, id, data).push(envelope(u.id, data))
        }),
{
    assert(init.push(u).drop_last() =~= init);
}

/// Unfolding `fan_out_all` over a push.
pub proof fn lemma_fan_out_all_push(init: Seq<UserView>, u: UserView, data: ResponseView)
    ensures
        fan_out_all(init.push(u), data) == fan_out_all(init, data).push(envelope(u.id, data)),
{
    assert(init.push(u).drop_last() =~= init);
}

/// What a join request does: reject a taken name with `NameExisted`, an
/// ill-formed one with `InvalidName`; otherwise enter the user and address
/// a `Joined` snapshot to the joiner and `UserJoined` to every other user.
/// Yields the directory after the request and the envelopes, in order.
pub open spec fn spec_join(
    users: Seq<UserView>,
    feed: Seq<MessageView>,
    client_id: u128,
    raw_name: Seq<char>,
) -> (Seq<UserView>, Seq<EnvelopeView>) {
    let n = trimmed(raw_name);
    if name_taken(users, n) {
        (users, seq![envelope(client_id, ResponseView::Error(ErrorType::NameExisted))])
    } else if !valid_name(n) {
        (users, seq![envelope(client_id, ResponseView::Error(ErrorType::InvalidName))])
    } else {
        let u = UserView { id: client_id, name: n };
        let after = dir_upsert(users, u);
        let snapshot = ResponseView::Joined(
            JoinedView { user: u, other_users: others(after, client_id), messages: feed },
        );
        (
            after,
            seq![envelope(client_id, snapshot)] + fan_out(
                after,
                client_id,
                ResponseView::UserJoined(u),
            ),
        )
    }
}

/// What a post does: reject when the poster has not joined (`NotJoined`) or
/// the text is empty (`InvalidMessage`); otherwise insert the message into
/// the feed and address `Posted` to the poster and `UserPosted` to every
/// other user. Yields the feed after the request and the envelopes.
pub open spec fn spec_post(
    users: Seq<UserView>,
    feed: Seq<MessageView>,
    client_id: u128,
    text: Seq<char>,
    message_id: u128,
    created_at_utc: i64,
) -> (Seq<MessageView>, Seq<EnvelopeView>) {
    if !dir_has(users, client_id) {
        (feed, seq![envelope(client_id, ResponseView::Error(ErrorType::NotJoined))])
    } else if text.len() == 0 {
        (feed, seq![envelope(client_id, ResponseView::Error(ErrorType::InvalidMessage))])
    } else {
        let m = MessageView {
            id: message_id,
            user: users[dir_index(users, client_id)],
            text,
            created_at_utc,
        };
        (
            feed_insert(feed, m),
            seq![envelope(client_id, ResponseView::Posted(m))] + fan_out(
                users,
                client_id,
                ResponseView::UserPosted(m),
            ),
        )
    }
}

/// What a disconnect does: remove the identity if it joined and address
/// `UserLeft` to every remaining user; otherwise change and emit nothing.
pub open spec fn spec_disconnect(users: Seq<UserView>, client_id: u128) -> (
    Seq<UserView>,
    Seq<EnvelopeView>,
) {
    if dir_has(users, client_id) {
        let rest = others(users, client_id);
        (rest, fan_out_all(rest, ResponseView::UserLeft(client_id)))
    } else {
        (users, Seq::empty())
    }
}

/// What a heartbeat tick does: address `Alive` to every joined user.
pub open spec fn spec_heartbeat(users: Seq<UserView>) -> Seq<EnvelopeView> {
    fan_out_all(users, ResponseView::Alive)
}

/// The outcome of a post at a given fresh identifier and timestamp.
pub open spec fn post_outcome(
    users: Seq<UserView>,
    feed: Seq<MessageView>,
    client_id: u128,
    text: Seq<char>,
    message_id: u128,
    created_at_utc: i64,
    feed_after: Seq<MessageView>,
    out: Seq<EnvelopeView>,
) -> bool {
    &&& feed_after == spec_post(users, feed, client_id, text, message_id, created_at_utc).0
    &&& out == spec_post(users, feed, client_id, text, message_id, created_at_utc).1
}

/// Mathematical value of a [`Worker`].
#[verifier::ext_equal]
pub struct WorkerView {
    pub alive_interval: Option<u64>,
    pub users: Seq<UserView>,
    pub feed: Seq<MessageView>,
}

pub struct Worker {
    /// Heartbeat interval in milliseconds, or `None` when disabled.
    pub alive_interval: Option<u64>,
    pub users: Vec<User>,
    pub feed: Feed,
}

impl View for Worker {
    type V = WorkerView;

    open spec fn view(&self) -> WorkerView {
        WorkerView {
            alive_interval: self.alive_interval,
            users: dirv(self.users@),
            feed: self.feed@,
        }
    }
}

impl Worker {
    /// Identities and names unique; feed sorted by creation time.
    pub open spec fn wf(&self) -> bool {
        dir_wf(self@.users) && feed_sorted(self@.feed)
    }

    pub fn new(alive_interval: Option<u64>) -> (worker: Worker)
        ensures
            worker@ == (WorkerView {
                alive_interval,
                users: Seq::<UserView>::empty(),
                feed: Seq::<MessageView>::empty(),
            }),
            worker.wf(),
    {
        let worker = Worker { alive_interval, users: Vec::new(), feed: Feed::new() };
        proof {
            assert(worker@ =~= (WorkerView {
                alive_interval,
                users: Seq::<UserView>::empty(),
                feed: Seq::<MessageView>::empty(),
            }));
        }
        worker
    }

    /// Find the directory position holding `client_id`, scanning in order.
    fn find_user(&self, client_id: u128) -> (found: Option<usize>)
        ensures
            match found {
                Some(i) => dir_index(self@.users, client_id) == i as int && i < self.users.len()
                    && self@.users[i as int].id == client_id,
                None => !dir_has(self@.users, client_id),
            },
    {
        let n = self.users.len();
        let mut i: usize = 0;
        while i < n
            invariant
                n == self.users.len(),
                0 <= i <= n,
                forall|j: int| 0 <= j < i ==> (#[trigger] self@.users[j]).id != client_id,
            decreases n - i,
        {
            if self.users[i].id == client_id {
                proof {
                    lemma_dir_index_at(self@.users, client_id, i as int);
                }
                return Some(i);
            }
            i = i + 1;
        }
        proof {
            lemma_dir_index_at(self@.users, client_id, n as int);
        }
        None
    }

    /// Whether some joined user already holds the display name `name`.
    fn name_exists(&self, name: &String) -> (taken: bool)
        ensures
            taken == name_taken(self@.users, name@),
    {
        let n = self.users.len();
        let mut i: usize = 0;
        while i < n
            invariant
                n == self.users.len(),
                0 <= i <= n,
                forall|j: int| 0 <= j < i ==> (#[trigger] self@.users[j]).name != name@,
            decreases n - i,
        {
            if self.users[i].name == *name {
                proof {
                    assert(self@.users[i as int].name == name@);
                }
                return true;
            }
            i = i + 1;
        }
        false
    }

    /// Enter `user`, replacing the entry under the same identity if any.
    fn upsert_user(&mut self, user: User)
        requires
            old(self).wf(),
            !name_taken(old(self)@.users, user@.name),
        ensures
            final(self).wf(),
            final(self)@.users == dir_upsert(old(self)@.users, user@),
            final(self)@.feed == old(self)@.feed,
            final(self)@.alive_interval == old(self)@.alive_interval,
    {
        let ghost before = self@.users;
        let ghost uv = user@;
        match self.find_user(user.id) {
            Some(at) => {
                self.users.remove(at);
                self.users.insert(at, user);
                proof {
                    assert(dirv(self.users@) =~= before.update(at as int, uv));
                }
            },
            None => {
                self.users.push(user);
                proof {
                    assert(dirv(self.users@) =~= before.push(uv));
                }
            },
        }
        proof {
            crate::directory::lemma_dir_upsert_wf(before, uv);
        }
    }

    /// Everyone joined except `client_id`, as response values, in order.
    fn other_users_snapshot(&self, client_id: u128) -> (out: Vec<UserResponse>)
        ensures
            user_resps(out@) == others(self@.users, client_id),
    {
        let mut out: Vec<UserResponse> = Vec::new();
        let n = self.users.len();
        let mut i: usize = 0;
        proof {
            assert(user_resps(out@) =~= others(self@.users.take(0), client_id));
        }
        while i < n
            invariant
                n == self.users.len(),
                0 <= i <= n,
                user_resps(out@) == others(self@.users.take(i as int), client_id),
            decreases n - i,
        {
            let ghost prefix = self@.users.take(i as int);
            let u = &self.users[i];
            if u.id != client_id {
                let ghost out_before = out@;
                out.push(UserResponse::new(u.id, u.name.as_str()));
                proof {
                    assert(out@.drop_last() =~= out_before);
                    assert(out@.last()@ =~~= self@.users[i as int]);
                    assert(user_resps(out@) =~= user_resps(out_before).push(
                        self@.users[i as int],
                    ));
                }
            }
            proof {
                crate::directory::lemma_others_push(prefix, self@.users[i as int], client_id);
                assert(prefix.push(self@.users[i as int]) =~= self@.users.take(i + 1));
            }
            i = i + 1;
        }
        proof {
            assert(self@.users.take(n as int) =~= self@.users);
        }
        out
    }

    /// The whole feed, as response values, in order.
    fn feed_snapshot(&self) -> (out: Vec<MessageResponse>)
        ensures
            message_resps(out@) == self@.feed,
    {
        let mut out: Vec<MessageResponse> = Vec::new();
        let n = self.feed.messages.len();
        let mut k: usize = 0;
        proof {
            assert(message_resps(out@) =~= self@.feed.take(0));
        }
        while k < n
            invariant
                n == self.feed.messages.len(),
                0 <= k <= n,
                message_resps(out@) == self@.feed.take(k as int),
            decreases n - k,
        {
            let ghost out_before = out@;
            let m = &self.feed.messages[k];
            out.push(
                MessageResponse::new(
                    m.id,
                    UserResponse::new(m.user.id, m.user.name.as_str()),
                    m.text.as_str(),
                    m.created_at_utc,
                ),
            );
            proof {
                assert(out@.drop_last() =~= out_before);
                assert(out@.last()@ =~~= self@.feed[k as int]);
                assert(message_resps(out@) =~= message_resps(out_before).push(
                    self@.feed[k as int],
                ));
                assert(message_resps(out_before).push(self@.feed[k as int]) =~= self@.feed.take(
                    k + 1,
                ));
            }
            k = k + 1;
        }
        proof {
            assert(self@.feed.take(n as int) =~= self@.feed);
        }
        out
    }

    /// One `UserJoined` envelope for every joined user except the joiner.
    fn user_joined_notices(&self, client_id: u128, name: &String) -> (out: Vec<ResponseMessage>)
        ensures
            envs(out@) == fan_out(
                self@.users,
                client_id,
                ResponseView::UserJoined(UserView { id: client_id, name: name@ }),
            ),
    {
        let ghost data = ResponseView::UserJoined(UserView { id: client_id, name: name@ });
        let mut out: Vec<ResponseMessage> = Vec::new();
        let n = self.users.len();
        let mut i: usize = 0;
        proof {
            assert(envs(out@) =~= fan_out(self@.users.take(0), client_id, data));
        }
        while i < n
            invariant
                n == self.users.len(),
                0 <= i <= n,
                data == ResponseView::UserJoined(UserView { id: client_id, name: name@ }),
                envs(out@) == fan_out(self@.users.take(i as int), client_id, data),
            decreases n - i,
        {
            let ghost prefix = self@.users.take(i as int);
            let target = self.users[i].id;
            if target != client_id {
                let ghost out_before = out@;
                let env = ResponseMessage::new(
                    target,
                    ResponseData::UserJoined(
                        UserJoinedResponse::new(UserResponse::new(client_id, name.as_str())),
                    ),
                );
                proof {
                    assert(env@ =~~= envelope(target, data));
                }
                out.push(env);
                proof {
                    assert(envs(out@) =~= envs(out_before).push(envelope(target, data)));
                }
            }
            proof {
                lemma_fan_out_push(prefix, self@.users[i as int], client_id, data);
                assert(prefix.push(self@.users[i as int]) =~= self@.users.take(i + 1));
            }
            i = i + 1;
        }
        proof {
            assert(self@.users.take(n as int) =~= self@.users);
        }
        out
    }

    /// One `UserPosted` envelope for every joined user except the poster.
    fn user_posted_notices(&self, client_id: u128, message: &Message) -> (out: Vec<
        ResponseMessage,
    >)
        ensures
            envs(out@) == fan_out(
                self@.users,
                client_id,
                ResponseView::UserPosted(message@),
            ),
    {
        let ghost data = ResponseView::UserPosted(message@);
        let mut out: Vec<ResponseMessage> = Vec::new();
        let n = self.users.len();
        let mut i: usize = 0;
        proof {
            assert(envs(out@) =~= fan_out(self@.users.take(0), client_id, data));
        }
        while i < n
            invariant
                n == self.users.len(),
                0 <= i <= n,
                data == ResponseView::UserPosted(message@),
                envs(out@) == fan_out(self@.users.take(i as int), client_id, data),
            decreases n - i,
        {
            let ghost prefix = self@.users.take(i as int);
            let target = self.users[i].id;
            if target != client_id {
                let ghost out_before = out@;
                let env = ResponseMessage::new(
                    target,
                    ResponseData::UserPosted(
                        PostedResponse::new(
                            MessageResponse::new(
                                message.id,
                                UserResponse::new(message.user.id, message.user.name.as_str()),
                                message.text.as_str(),
                                message.created_at_utc,
                            ),
                        ),
                    ),
                );
                proof {
                    assert(env@ =~~= envelope(target, data));
                }
                out.push(env);
                proof {
                    assert(envs(out@) =~= envs(out_before).push(envelope(target, data)));
                }
            }
            proof {
                lemma_fan_out_push(prefix, self@.users[i as int], client_id, data);
                assert(prefix.push(self@.users[i as int]) =~= self@.users.take(i + 1));
            }
            i = i + 1;
        }
        proof {
            assert(self@.users.take(n as int) =~= self@.users);
        }
        out
    }

    /// Validate and apply a join request; the returned envelopes carry the
    /// `Joined` snapshot to the joiner and `UserJoined` to every other user,
    /// or a single error to the joiner.
    pub fn process_join(&mut self, client_id: u128, join_request_data: JoinRequestData) -> (out:
        Vec<ResponseMessage>)
        requires
            old(self).wf(),
        ensures
            final(self).wf(),
            final(self)@.feed == old(self)@.feed,
            final(self)@.alive_interval == old(self)@.alive_interval,
            final(self)@.users == spec_join(
                old(self)@.users,
                old(self)@.feed,
                client_id,
                join_request_data.name@,
            ).0,
            envs(out@) == spec_join(
                old(self)@.users,
                old(self)@.feed,
                client_id,
                join_request_data.name@,
            ).1,
    {
        let ghost before = self@.users;
        let ghost n = trimmed(join_request_data.name@);
        let user_name = crate::names::trim_copy(join_request_data.name.as_str());
        if self.name_exists(&user_name) {
            let out = vec![
                ResponseMessage::new(client_id, ResponseData::Error(ErrorType::NameExisted)),
            ];
            proof {
                assert(envs(out@) =~= seq![
                    envelope(client_id, ResponseView::Error(ErrorType::NameExisted)),
                ]);
            }
            return out;
        }
        if !crate::names::check_name(user_name.as_str()) {
            let out = vec![
                ResponseMessage::new(client_id, ResponseData::Error(ErrorType::InvalidName)),
            ];
            proof {
                assert(envs(out@) =~= seq![
                    envelope(client_id, ResponseView::Error(ErrorType::InvalidName)),
                ]);
            }
            return out;
        }
        let ghost uv = UserView { id: client_id, name: n };
        self.upsert_user(User::new(client_id, user_name.as_str()));
        let ghost after = self@.users;
        let other_users = self.other_users_snapshot(client_id);
        let messages = self.feed_snapshot();
        let user_response = UserResponse::new(client_id, user_name.as_str());
        let joined = JoinedResponse::new(user_response, other_users, messages);
        let ghost snapshot = ResponseView::Joined(
            JoinedView { user: uv, other_users: others(after, client_id), messages: self.feed@ },
        );
        proof {
            assert(joined@ =~~= (JoinedView {
                user: uv,
                other_users: others(after, client_id),
                messages: self.feed@,
            }));
        }
        let mut out: Vec<ResponseMessage> = Vec::new();
        out.push(ResponseMessage::new(client_id, ResponseData::Joined(joined)));
        let mut notices = self.user_joined_notices(client_id, &user_name);
        proof {
            assert(envs(out@) =~= seq![envelope(client_id, snapshot)]);
        }
        let ghost out_head = out@;
        let ghost notices_v = notices@;
        out.append(&mut notices);
        proof {
            assert(envs(out@) =~= envs(out_head) + envs(notices_v));
            assert(envs(out@) =~= seq![envelope(client_id, snapshot)] + fan_out(
                after,
                client_id,
                ResponseView::UserJoined(uv),
            ));
        }
        out
    }

    /// Apply a post carrying the given fresh message identifier and
    /// creation time.
    pub fn apply_post(
        &mut self,
        client_id: u128,
        post_message_request_data: PostMessageRequestData,
        message_id: u128,
        created_at_utc: i64,
    ) -> (out: Vec<ResponseMessage>)
        requires
            old(self).wf(),
        ensures
            final(self).wf(),
            final(self)@.users == old(self)@.users,
            final(self)@.alive_interval == old(self)@.alive_interval,
            final(self)@.feed == spec_post(
                old(self)@.users,
                old(self)@.feed,
                client_id,
                post_message_request_data.text@,
                message_id,
                created_at_utc,
            ).0,
            envs(out@) == spec_post(
                old(self)@.users,
                old(self)@.feed,
                client_id,
                post_message_request_data.text@,
                message_id,
                created_at_utc,
            ).1,
    {
        let at = match self.find_user(client_id) {
            Some(at) => at,
            None => {
                let out = vec![
                    ResponseMessage::new(client_id, ResponseData::Error(ErrorType::NotJoined)),
                ];
                proof {
                    assert(envs(out@) =~= seq![
                        envelope(client_id, ResponseView::Error(ErrorType::NotJoined)),
                    ]);
                }
                return out;
            },
        };
        if post_message_request_data.text.as_str().is_empty() {
            let out = vec![
                ResponseMessage::new(client_id, ResponseData::Error(ErrorType::InvalidMessage)),
            ];
            proof {
                assert(envs(out@) =~= seq![
                    envelope(client_id, ResponseView::Error(ErrorType::InvalidMessage)),
                ]);
            }
            return out;
        }
        let author = self.users[at].duplicate();
        let message = Message::new(
            message_id,
            author,
            post_message_request_data.text.as_str(),
            created_at_utc,
        );
        let ghost mv = message@;
        proof {
            assert(mv =~~= (MessageView {
                id: message_id,
                user: self@.users[dir_index(self@.users, client_id)],
                text: post_message_request_data.text@,
                created_at_utc,
            }));
        }
        let notices = self.user_posted_notices(client_id, &message);
        let message_response = MessageResponse::new(
            message.id,
            UserResponse::new(message.user.id, message.user.name.as_str()),
            message.text.as_str(),
            message.created_at_utc,
        );
        proof {
            assert(message_response@ =~~= mv);
        }
        self.feed.add_message(message);
        let mut out: Vec<ResponseMessage> = Vec::new();
        out.push(
            ResponseMessage::new(
                client_id,
                ResponseData::Posted(PostedResponse::new(message_response)),
            ),
        );
        proof {
            assert(envs(out@) =~= seq![envelope(client_id, ResponseView::Posted(mv))]);
        }
        let ghost out_head = out@;
        let ghost notices_v = notices@;
        let mut notices = notices;
        out.append(&mut notices);
        proof {
            assert(envs(out@) =~= envs(out_head) + envs(notices_v));
            assert(envs(out@) =~= seq![envelope(client_id, ResponseView::Posted(mv))] + fan_out(
                old(self)@.users,
                client_id,
                ResponseView::UserPosted(mv),
            ));
        }
        out
    }

    /// Validate and apply a post request, stamping it with a fresh message
    /// identifier and the current time.
    pub fn process_post(
        &mut self,
        client_id: u128,
        post_message_request_data: PostMessageRequestData,
    ) -> (out: Vec<ResponseMessage>)
        requires
            old(self).wf(),
        ensures
            final(self).wf(),
            final(self)@.users == old(self)@.users,
            final(self)@.alive_interval == old(self)@.alive_interval,
            exists|message_id: u128, created_at_utc: i64|
                post_outcome(
                    old(self)@.users,
                    old(self)@.feed,
                    client_id,
                    post_message_request_data.text@,
                    message_id,
                    created_at_utc,
                    final(self)@.feed,
                    envs(out@),
                ),
    {
        let message_id = crate::outside::fresh_id();
        let created_at_utc = crate::outside::now_timestamp_millis();
        let ghost text = post_message_request_data.text@;
        let out = self.apply_post(client_id, post_message_request_data, message_id, created_at_utc);
        proof {
            assert(post_outcome(
                old(self)@.users,
                old(self)@.feed,
                client_id,
                text,
                message_id,
                created_at_utc,
                self@.feed,
                envs(out@),
            ));
        }
        out
    }

    /// Apply one identity-tagged request.
    pub fn process(&mut self, request_message: RequestMessage) -> (out: Vec<ResponseMessage>)
        requires
            old(self).wf(),
        ensures
            final(self).wf(),
            final(self)@.alive_interval == old(self)@.alive_interval,
            match request_message.request_data {
                RequestData::Join(join) => final(self)@.feed == old(self)@.feed
                    && final(self)@.users == spec_join(
                    old(self)@.users,
                    old(self)@.feed,
                    request_message.client_id,
                    join.name@,
                ).0 && envs(out@) == spec_join(
                    old(self)@.users,
                    old(self)@.feed,
                    request_message.client_id,
                    join.name@,
                ).1,
                RequestData::PostMessage(post) => final(self)@.users == old(self)@.users && exists|
                    message_id: u128,
                    created_at_utc: i64,
                |
                    post_outcome(
                        old(self)@.users,
                        old(self)@.feed,
                        request_message.client_id,
                        post.text@,
                        message_id,
                        created_at_utc,
                        final(self)@.feed,
                        envs(out@),
                    ),
            },
    {
        match request_message.request_data {
            RequestData::Join(join) => self.process_join(request_message.client_id, join),
            RequestData::PostMessage(post) => self.process_post(request_message.client_id, post),
        }
    }

    /// Remove `client_id` from the directory if it joined; when it was
    /// there, address `UserLeft` to every remaining user.
    pub fn on_disconnect(&mut self, client_id: u128) -> (out: Vec<ResponseMessage>)
        requires
            old(self).wf(),
        ensures
            final(self).wf(),
            final(self)@.feed == old(self)@.feed,
            final(self)@.alive_interval == old(self)@.alive_interval,
            final(self)@.users == spec_disconnect(old(self)@.users, client_id).0,
            envs(out@) == spec_disconnect(old(self)@.users, client_id).1,
    {
        let ghost before = self@.users;
        let at = match self.find_user(client_id) {
            Some(at) => at,
            None => {
                let out: Vec<ResponseMessage> = Vec::new();
                proof {
                    assert(envs(out@) =~= Seq::<EnvelopeView>::empty());
                }
                return out;
            },
        };
        proof {
            lemma_dir_wf_unique(before, at as int);
            lemma_others_remove(before, client_id, at as int);
        }
        self.users.remove(at);
        proof {
            assert(dirv(self.users@) =~= before.remove(at as int));
            assert forall|i: int, j: int| 0 <= i < j < self@.users.len() implies (
            #[trigger] self@.users[i]).id != (#[trigger] self@.users[j]).id && self@.users[i].name
                != self@.users[j].name by {
                let oi = if i < at as int {
                    i
                } else {
                    i + 1
                };
                let oj = if j < at as int {
                    j
                } else {
                    j + 1
                };
                assert(self@.users[i] == before[oi]);
                assert(self@.users[j] == before[oj]);
                assert(before[oi].id != before[oj].id && before[oi].name != before[oj].name);
            }
        }
        let mut out: Vec<ResponseMessage> = Vec::new();
        let n = self.users.len();
        let mut i: usize = 0;
        proof {
            assert(envs(out@) =~= Seq::<EnvelopeView>::empty());
            assert(dirv(self.users@).take(0) =~= Seq::<UserView>::empty());
        }
        while i < n
            invariant
                n == self.users.len(),
                0 <= i <= n,
                envs(out@) == fan_out_all(
                    dirv(self.users@).take(i as int),
                    ResponseView::UserLeft(client_id),
                ),
            decreases n - i,
        {
            let ghost prefix = dirv(self.users@).take(i as int);
            let ghost out_before = out@;
            let target = self.users[i].id;
            out.push(
                ResponseMessage::new(
                    target,
                    ResponseData::UserLeft(UserLeftResponse { id: client_id }),
                ),
            );
            proof {
                assert(out@.drop_last() =~= out_before);
                assert(out@.last()@ =~~= envelope(target, ResponseView::UserLeft(client_id)));
                assert(envs(out@) =~= envs(out_before).push(
                    envelope(target, ResponseView::UserLeft(client_id)),
                ));
                lemma_fan_out_all_push(
                    prefix,
                    self@.users[i as int],
                    ResponseView::UserLeft(client_id),
                );
                assert(prefix.push(self@.users[i as int]) =~= dirv(self.users@).take(i + 1));
            }
            i = i + 1;
        }
        proof {
            assert(dirv(self.users@).take(n as int) =~= dirv(self.users@));
        }
        out
    }

    /// Address `Alive` to every joined user (the heartbeat tick).
    pub fn heartbeat(&self) -> (out: Vec<ResponseMessage>)
        ensures
            envs(out@) == spec_heartbeat(self@.users),
    {
        let mut out: Vec<ResponseMessage> = Vec::new();
        let n = self.users.len();
        let mut i: usize = 0;
        proof {
            assert(envs(out@) =~= Seq::<EnvelopeView>::empty());
            assert(dirv(self.users@).take(0) =~= Seq::<UserView>::empty());
        }
        while i < n
            invariant
                n == self.users.len(),
                0 <= i <= n,
                envs(out@) == fan_out_all(dirv(self.users@).take(i as int), ResponseView::Alive),
            decreases n - i,
        {
            let ghost prefix = dirv(self.users@).take(i as int);
            let ghost out_before = out@;
            let target = self.users[i].id;
            out.push(ResponseMessage::new(target, ResponseData::Alive));
            proof {
                assert(out@.drop_last() =~= out_before);
                assert(envs(out@) =~= envs(out_before).push(envelope(target, ResponseView::Alive)));
                lemma_fan_out_all_push(prefix, self@.users[i as int], ResponseView::Alive);
                assert(prefix.push(self@.users[i as int]) =~= dirv(self.users@).take(i + 1));
            }
            i = i + 1;
        }
        proof {
            assert(dirv(self.users@).take(n as int) =~= dirv(self.users@));
        }
        out
    }
}

} // verus!
