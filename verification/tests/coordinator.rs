use chatroom::request::{JoinRequestData, PostMessageRequestData, RequestData, RequestMessage};
use chatroom::response::{ErrorType, ResponseData, ResponseMessage};
use chatroom::worker::Worker;

fn join(worker: &mut Worker, client_id: u128, name: &str) -> Vec<ResponseMessage> {
    worker.process_join(client_id, JoinRequestData { name: name.to_string() })
}

fn post_at(
    worker: &mut Worker,
    client_id: u128,
    text: &str,
    message_id: u128,
    created_at_utc: i64,
) -> Vec<ResponseMessage> {
    worker.apply_post(
        client_id,
        PostMessageRequestData { text: text.to_string() },
        message_id,
        created_at_utc,
    )
}

fn is_error(out: &[ResponseMessage], client_id: u128, kind: ErrorType) -> bool {
    out.len() == 1 && out[0].client_id == client_id && matches!(
        &out[0].response_data,
        ResponseData::Error(e) if *e == kind
    )
}

#[test]
fn second_join_with_colliding_name_is_rejected() {
    let mut worker = Worker::new(None);
    let first = join(&mut worker, 1, "Alice Smith");
    assert!(matches!(&first[0].response_data, ResponseData::Joined(_)));
    let second = join(&mut worker, 2, "Alice Smith");
    assert!(is_error(&second, 2, ErrorType::NameExisted));
    assert_eq!(worker.users.len(), 1);
    assert_eq!(worker.users[0].id, 1);
}

#[test]
fn name_too_short_is_rejected() {
    let mut worker = Worker::new(None);
    let out = join(&mut worker, 1, "ab");
    assert!(is_error(&out, 1, ErrorType::InvalidName));
    assert_eq!(worker.users.len(), 0);
}

#[test]
fn valid_name_with_space_is_accepted() {
    let mut worker = Worker::new(None);
    let out = join(&mut worker, 1, "Valid Name");
    assert_eq!(out.len(), 1);
    assert_eq!(out[0].client_id, 1);
    match &out[0].response_data {
        ResponseData::Joined(joined) => {
            assert_eq!(joined.user.id, 1);
            assert_eq!(joined.user.name, "Valid Name");
            assert!(joined.other_users.is_empty());
            assert!(joined.messages.is_empty());
        },
        _ => panic!("expected Joined"),
    }
}

#[test]
fn name_is_trimmed_before_checks() {
    let mut worker = Worker::new(None);
    let out = join(&mut worker, 1, "  Alice Smith\t");
    assert!(matches!(&out[0].response_data, ResponseData::Joined(_)));
    assert_eq!(worker.users[0].name, "Alice Smith");
    let second = join(&mut worker, 2, "Alice Smith");
    assert!(is_error(&second, 2, ErrorType::NameExisted));
}

#[test]
fn name_length_bounds() {
    let mut worker = Worker::new(None);
    assert!(is_error(&join(&mut worker, 1, "abc"), 1, ErrorType::InvalidName));
    assert!(matches!(&join(&mut worker, 2, "abcd")[0].response_data, ResponseData::Joined(_)));
    let name24 = "abcdefghijklmnopqrstuvwx";
    assert_eq!(name24.len(), 24);
    assert!(matches!(&join(&mut worker, 3, name24)[0].response_data, ResponseData::Joined(_)));
    let name25 = "abcdefghijklmnopqrstuvwxy";
    assert_eq!(name25.len(), 25);
    assert!(is_error(&join(&mut worker, 4, name25), 4, ErrorType::InvalidName));
    assert!(is_error(&join(&mut worker, 5, "abc1"), 5, ErrorType::InvalidName));
}

#[test]
fn join_snapshot_lists_prior_users_and_messages() {
    let mut worker = Worker::new(None);
    join(&mut worker, 1, "Alice Smith");
    join(&mut worker, 2, "Bob Builder");
    post_at(&mut worker, 1, "hello there", 100, 10);
    let out = join(&mut worker, 3, "Carol Jones");
    match &out[0].response_data {
        ResponseData::Joined(joined) => {
            assert_eq!(joined.other_users.len(), 2);
            assert_eq!(joined.other_users[0].id, 1);
            assert_eq!(joined.other_users[0].name, "Alice Smith");
            assert_eq!(joined.other_users[1].id, 2);
            assert_eq!(joined.other_users[1].name, "Bob Builder");
            assert_eq!(joined.messages.len(), 1);
            assert_eq!(joined.messages[0].id, 100);
            assert_eq!(joined.messages[0].text, "hello there");
            assert_eq!(joined.messages[0].user.id, 1);
            assert_eq!(joined.messages[0].created_at_utc, 10);
        },
        _ => panic!("expected Joined"),
    }
    // The two prior users each get exactly one UserJoined notice; the joiner
    // gets none.
    assert_eq!(out.len(), 3);
    for notice in &out[1..] {
        assert_ne!(notice.client_id, 3);
        match &notice.response_data {
            ResponseData::UserJoined(user_joined) => {
                assert_eq!(user_joined.user.id, 3);
                assert_eq!(user_joined.user.name, "Carol Jones");
            },
            _ => panic!("expected UserJoined"),
        }
    }
    assert_eq!(out[1].client_id, 1);
    assert_eq!(out[2].client_id, 2);
}

#[test]
fn posts_from_one_connection_keep_their_order() {
    let mut worker = Worker::new(None);
    join(&mut worker, 1, "Alice Smith");
    post_at(&mut worker, 1, "first", 100, 5);
    post_at(&mut worker, 1, "second", 101, 5);
    post_at(&mut worker, 1, "third", 102, 7);
    let texts: Vec<&str> = worker.feed.messages.iter().map(|m| m.text.as_str()).collect();
    assert_eq!(texts, vec!["first", "second", "third"]);
}

#[test]
fn late_timestamp_is_sorted_into_place() {
    let mut worker = Worker::new(None);
    join(&mut worker, 1, "Alice Smith");
    post_at(&mut worker, 1, "later", 100, 9);
    post_at(&mut worker, 1, "earlier", 101, 3);
    let texts: Vec<&str> = worker.feed.messages.iter().map(|m| m.text.as_str()).collect();
    assert_eq!(texts, vec!["earlier", "later"]);
}

#[test]
fn post_before_join_is_rejected() {
    let mut worker = Worker::new(None);
    let out = post_at(&mut worker, 9, "hello", 100, 1);
    assert!(is_error(&out, 9, ErrorType::NotJoined));
    assert_eq!(worker.feed.messages.len(), 0);
}

#[test]
fn empty_message_is_rejected() {
    let mut worker = Worker::new(None);
    join(&mut worker, 1, "Alice Smith");
    let out = post_at(&mut worker, 1, "", 100, 1);
    assert!(is_error(&out, 1, ErrorType::InvalidMessage));
    assert_eq!(worker.feed.messages.len(), 0);
}

#[test]
fn whitespace_message_is_kept_untrimmed() {
    let mut worker = Worker::new(None);
    join(&mut worker, 1, "Alice Smith");
    let out = post_at(&mut worker, 1, "  ", 100, 1);
    assert!(matches!(&out[0].response_data, ResponseData::Posted(_)));
    assert_eq!(worker.feed.messages[0].text, "  ");
}

#[test]
fn post_fans_out_to_everyone_but_the_poster() {
    let mut worker = Worker::new(None);
    join(&mut worker, 1, "Alice Smith");
    join(&mut worker, 2, "Bob Builder");
    join(&mut worker, 3, "Carol Jones");
    let out = post_at(&mut worker, 2, "hello all", 100, 4);
    assert_eq!(out.len(), 3);
    assert_eq!(out[0].client_id, 2);
    let posted = match &out[0].response_data {
        ResponseData::Posted(posted) => &posted.message,
        _ => panic!("expected Posted"),
    };
    assert_eq!(posted.id, 100);
    assert_eq!(posted.text, "hello all");
    assert_eq!(posted.user.id, 2);
    assert_eq!(posted.user.name, "Bob Builder");
    assert_eq!(out[1].client_id, 1);
    assert_eq!(out[2].client_id, 3);
    for notice in &out[1..] {
        match &notice.response_data {
            ResponseData::UserPosted(user_posted) => {
                assert_eq!(user_posted.message.id, posted.id);
                assert_eq!(user_posted.message.text, posted.text);
                assert_eq!(user_posted.message.user.id, posted.user.id);
                assert_eq!(user_posted.message.user.name, posted.user.name);
                assert_eq!(user_posted.message.created_at_utc, posted.created_at_utc);
            },
            _ => panic!("expected UserPosted"),
        }
    }
}

#[test]
fn disconnect_removes_user_and_notifies_the_rest() {
    let mut worker = Worker::new(None);
    join(&mut worker, 1, "Alice Smith");
    join(&mut worker, 2, "Bob Builder");
    let out = worker.on_disconnect(1);
    assert_eq!(out.len(), 1);
    assert_eq!(out[0].client_id, 2);
    match &out[0].response_data {
        ResponseData::UserLeft(user_left) => assert_eq!(user_left.id, 1),
        _ => panic!("expected UserLeft"),
    }
    assert_eq!(worker.users.len(), 1);
    assert_eq!(worker.users[0].id, 2);
    // The departed user's name is free for reuse at once.
    let rejoin = join(&mut worker, 4, "Alice Smith");
    assert!(matches!(&rejoin[0].response_data, ResponseData::Joined(_)));
}

#[test]
fn disconnect_of_unknown_identity_is_a_silent_no_op() {
    let mut worker = Worker::new(None);
    join(&mut worker, 1, "Alice Smith");
    let out = worker.on_disconnect(42);
    assert!(out.is_empty());
    assert_eq!(worker.users.len(), 1);
}

#[test]
fn rejoin_replaces_own_entry() {
    let mut worker = Worker::new(None);
    join(&mut worker, 1, "Alice Smith");
    let out = join(&mut worker, 1, "Alicia Stone");
    assert!(matches!(&out[0].response_data, ResponseData::Joined(_)));
    assert_eq!(worker.users.len(), 1);
    assert_eq!(worker.users[0].name, "Alicia Stone");
    // The old name is free again.
    let other = join(&mut worker, 2, "Alice Smith");
    assert!(matches!(&other[0].response_data, ResponseData::Joined(_)));
}

#[test]
fn rejoin_under_own_name_collides() {
    let mut worker = Worker::new(None);
    join(&mut worker, 1, "Alice Smith");
    let out = join(&mut worker, 1, "Alice Smith");
    assert!(is_error(&out, 1, ErrorType::NameExisted));
}

#[test]
fn heartbeat_reaches_every_joined_user() {
    let mut worker = Worker::new(Some(5000));
    assert!(worker.heartbeat().is_empty());
    join(&mut worker, 1, "Alice Smith");
    join(&mut worker, 2, "Bob Builder");
    let out = worker.heartbeat();
    assert_eq!(out.len(), 2);
    assert_eq!(out[0].client_id, 1);
    assert_eq!(out[1].client_id, 2);
    assert!(matches!(&out[0].response_data, ResponseData::Alive));
    assert!(matches!(&out[1].response_data, ResponseData::Alive));
}

#[test]
fn process_dispatches_joins_and_posts() {
    let mut worker = Worker::new(None);
    let join_out = worker.process(RequestMessage::new(
        1,
        RequestData::Join(JoinRequestData { name: "Alice Smith".to_string() }),
    ));
    assert!(matches!(&join_out[0].response_data, ResponseData::Joined(_)));
    let post_out = worker.process(RequestMessage::new(
        1,
        RequestData::PostMessage(PostMessageRequestData { text: "hello".to_string() }),
    ));
    assert!(matches!(&post_out[0].response_data, ResponseData::Posted(_)));
    assert_eq!(worker.feed.messages.len(), 1);
    assert_eq!(worker.feed.messages[0].text, "hello");
}
