use chatroom::client::Client;
use chatroom::names;
use chatroom::request::{JoinRequestData, RequestData};
use chatroom::response::{ResponseData, ResponseMessage};

#[test]
fn trim_copy_strips_surrounding_whitespace_only() {
    assert_eq!(names::trim_copy("  a b\t "), "a b");
    assert_eq!(names::trim_copy(""), "");
    assert_eq!(names::trim_copy("   \t\n"), "");
    assert_eq!(names::trim_copy("abcd"), "abcd");
    assert_eq!(names::trim_copy("\r\nab cd\r\n"), "ab cd");
}

#[test]
fn check_name_accepts_letters_and_whitespace_of_fitting_length() {
    assert!(names::check_name("Valid Name"));
    assert!(names::check_name("abcd"));
    assert!(!names::check_name("ab"));
    assert!(!names::check_name("abc"));
    assert!(!names::check_name("abc1"));
    assert!(!names::check_name("name!"));
    assert!(!names::check_name("abcdefghijklmnopqrstuvwxy"));
    assert!(names::check_name("abcdefghijklmnopqrstuvwx"));
}

#[test]
fn tagged_requests_carry_the_connection_identity() {
    let client = Client::new();
    let message = client.tag_request(RequestData::Join(JoinRequestData {
        name: "Alice Smith".to_string(),
    }));
    assert_eq!(message.client_id, client.id);
    match message.request_data {
        RequestData::Join(join) => assert_eq!(join.name, "Alice Smith"),
        _ => panic!("expected Join"),
    }
}

#[test]
fn write_filter_accepts_only_own_envelopes() {
    let client = Client::new();
    let own = ResponseMessage::new(client.id, ResponseData::Alive);
    let foreign = ResponseMessage::new(client.id.wrapping_add(1), ResponseData::Alive);
    assert!(client.accepts(&own));
    assert!(!client.accepts(&foreign));
}
