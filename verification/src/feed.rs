//! The ordered message log: messages sorted by creation time, ascending.
//! Adding a message re-establishes the sort order, so the log stays sorted
//! even if a timestamp ever arrives out of order. Insertion is stable: a
//! new message is placed after every message with an equal timestamp.

use crate::message::{Message, MessageView};
use vstd::prelude::*;

verus! {

/// The feed is sorted by creation time, ascending.
pub open spec fn feed_sorted(feed: Seq<MessageView>) -> bool {
    forall|i: int, j: int|
        0 <= i < j < feed.len() ==> feed[i].created_at_utc <= feed[j].created_at_utc
}

/// Length of the longest prefix of `feed` whose timestamps are at most `ts`.
/// On a sorted feed this is where a message created at `ts` belongs: after
/// every message with an equal or earlier timestamp.
pub open spec fn insert_pos(feed: Seq<MessageView>, ts: i64) -> int
    decreases feed.len(),
{
    if feed.len() > 0 && feed[0].created_at_utc <= ts {
        1 + insert_pos(feed.drop_first(), ts)
    } else {
        0
    }
}

/// `feed` with `m` inserted at its position.
pub open spec fn feed_insert(feed: Seq<MessageView>, m: MessageView) -> Seq<MessageView> {
    let k = insert_pos(feed, m.created_at_utc);
    feed.subrange(0, k) + seq![m] + feed.subrange(k, feed.len() as int)
}

/// Every prefix element up to `insert_pos` has a timestamp at most `ts`,
/// and the element at `insert_pos`, if any, has a later one.
pub proof fn lemma_insert_pos_bounds(feed: Seq<MessageView>, ts: i64)
    ensures
        0 <= insert_pos(feed, ts) <= feed.len(),
        forall|j: int| 0 <= j < insert_pos(feed, ts) ==> #[trigger] feed[j].created_at_utc <= ts,
        insert_pos(feed, ts) < feed.len() ==> feed[insert_pos(feed, ts)].created_at_utc > ts,
    decreases feed.len(),
{
    if feed.len() > 0 && feed[0].created_at_utc <= ts {
        lemma_insert_pos_bounds(feed.drop_first(), ts);
        assert forall|j: int| 0 <= j < insert_pos(feed, ts) implies #[trigger] feed[j].created_at_utc
            <= ts by {
            if j > 0 {
                assert(feed.drop_first()[j - 1] == feed[j]);
            }
        }
    }
}

/// `insert_pos` is pinned by its boundary: if the first `k` timestamps are
/// at most `ts` and the next one (if any) is later, the position is `k`.
pub proof fn lemma_insert_pos_at(feed: Seq<MessageView>, ts: i64, k: int)
    requires
        0 <= k <= feed.len(),
        forall|j: int| 0 <= j < k ==> #[trigger] feed[j].created_at_utc <= ts,
        k < feed.len() ==> feed[k].created_at_utc > ts,
    ensures
        insert_pos(feed, ts) == k,
    decreases feed.len(),
{
    if k > 0 {
        lemma_insert_pos_at(feed.drop_first(), ts, k - 1);
    }
}

/// Inserting into a sorted feed keeps it sorted, adds exactly the new
/// message, and leaves every other message in place.
pub proof fn lemma_feed_insert_sorted(feed: Seq<MessageView>, m: MessageView)
    requires
        feed_sorted(feed),
    ensures
        feed_sorted(feed_insert(feed, m)),
        feed_insert(feed, m).len() == feed.len() + 1,
        ({
            let k = insert_pos(feed, m.created_at_utc);
            &&& feed_insert(feed, m)[k] == m
            &&& forall|j: int| 0 <= j < k ==> #[trigger] feed_insert(feed, m)[j] == feed[j]
            &&& forall|j: int|
                k < j < feed.len() + 1 ==> #[trigger] feed_insert(feed, m)[j] == feed[j - 1]
        }),
{
    lemma_insert_pos_bounds(feed, m.created_at_utc);
}

pub struct Feed {
    pub messages: Vec<Message>,
}

impl View for Feed {
    type V = Seq<MessageView>;

    open spec fn view(&self) -> Seq<MessageView> {
        self.messages@.map_values(|m: Message| m@)
    }
}

impl Feed {
    pub fn new() -> (feed: Feed)
        ensures
            feed@ == Seq::<MessageView>::empty(),
            feed_sorted(feed@),
    {
        let feed = Feed { messages: Vec::new() };
        proof {
            assert(feed@ =~= Seq::<MessageView>::empty());
        }
        feed
    }

    /// Insert `message` at its place in the creation-time order.
    pub fn add_message(&mut self, message: Message)
        requires
            feed_sorted(old(self)@),
        ensures
            final(self)@ == feed_insert(old(self)@, message@),
            feed_sorted(final(self)@),
    {
        let n = self.messages.len();
        let mut k: usize = 0;
        while k < n && self.messages[k].created_at_utc <= message.created_at_utc
            invariant
                n == self.messages.len(),
                0 <= k <= n,
                forall|j: int|
                    0 <= j < k ==> #[trigger] self@[j].created_at_utc <= message@.created_at_utc,
            decreases n - k,
        {
            k = k + 1;
        }
        proof {
            lemma_insert_pos_at(self@, message@.created_at_utc, k as int);
            lemma_feed_insert_sorted(self@, message@);
        }
        let ghost before = self@;
        self.messages.insert(k, message);
        proof {
            assert(self@ =~= before.subrange(0, k as int) + seq![message@] + before.subrange(
                k as int,
                before.len() as int,
            ));
        }
    }

    /// The messages, in feed order.
    pub fn iter(&self) -> (messages: &Vec<Message>)
        ensures
            messages@.map_values(|m: Message| m@) == self@,
    {
        &self.messages
    }
}

} // verus!
