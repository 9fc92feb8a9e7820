use chatroom::feed::Feed;
use chatroom::message::Message;
use chatroom::user::User;

#[test]
fn it_works() {
    let user = User::new(uuid::Uuid::new_v4().as_u128(), "Dao Lam");
    assert_eq!(user.name, "Dao Lam");
    assert_ne!(user.name, "Dao Vinh Lam");
}

#[test]
fn duplicate_keeps_identity_and_name() {
    let user = User::new(7, "Alice Smith");
    let copy = user.duplicate();
    assert_eq!(copy.id, 7);
    assert_eq!(copy.name, "Alice Smith");
}

#[test]
fn message_holds_its_fields() {
    let author = User::new(1, "Alice Smith");
    let message = Message::new(100, author, "hello", 42);
    assert_eq!(message.id, 100);
    assert_eq!(message.user.id, 1);
    assert_eq!(message.user.name, "Alice Smith");
    assert_eq!(message.text, "hello");
    assert_eq!(message.created_at_utc, 42);
}

#[test]
fn feed_insert_is_stable_for_equal_timestamps() {
    let mut feed = Feed::new();
    feed.add_message(Message::new(1, User::new(1, "Alice Smith"), "one", 5));
    feed.add_message(Message::new(2, User::new(1, "Alice Smith"), "two", 5));
    feed.add_message(Message::new(3, User::new(1, "Alice Smith"), "three", 5));
    let ids: Vec<u128> = feed.iter().iter().map(|m| m.id).collect();
    assert_eq!(ids, vec![1, 2, 3]);
}

#[test]
fn feed_reorders_an_out_of_order_timestamp() {
    let mut feed = Feed::new();
    feed.add_message(Message::new(1, User::new(1, "Alice Smith"), "at nine", 9));
    feed.add_message(Message::new(2, User::new(1, "Alice Smith"), "at three", 3));
    feed.add_message(Message::new(3, User::new(1, "Alice Smith"), "at six", 6));
    let ids: Vec<u128> = feed.messages.iter().map(|m| m.id).collect();
    assert_eq!(ids, vec![2, 3, 1]);
}
