//! Outbound protocol: events the coordinator fans out, each wrapped in an
//! envelope addressed to the one connection meant to receive it.

use crate::message::MessageView;
use crate::user::UserView;
use vstd::prelude::*;

verus! {

/// Mathematical value of a [`ResponseMessage`]: an addressed event.
#[verifier::ext_equal]
pub struct EnvelopeView {
    pub client_id: u128,
    pub data: ResponseView,
}

/// Mathematical value of a [`ResponseData`].
#[verifier::ext_equal]
pub enum ResponseView {
    Error(ErrorType),
    Alive,
    Joined(JoinedView),
    UserJoined(UserView),
    UserLeft(u128),
    Posted(MessageView),
    UserPosted(MessageView),
}

/// Mathematical value of a [`JoinedResponse`].
#[verifier::ext_equal]
pub struct JoinedView {
    pub user: UserView,
    pub other_users: Seq<UserView>,
    pub messages: Seq<MessageView>,
}

/// The user values a vector of user responses stands for.
pub open spec fn user_resps(v: Seq<UserResponse>) -> Seq<UserView> {
    v.map_values(|u: UserResponse| u@)
}

/// The message values a vector of message responses stands for.
pub open spec fn message_resps(v: Seq<MessageResponse>) -> Seq<MessageView> {
    v.map_values(|m: MessageResponse| m@)
}

pub struct ResponseMessage {
    pub client_id: u128,
    pub response_data: ResponseData,
}

impl View for ResponseMessage {
    type V = EnvelopeView;

    open spec fn view(&self) -> EnvelopeView {
        EnvelopeView { client_id: self.client_id, data: self.response_data@ }
    }
}

impl ResponseMessage {
    pub fn new(client_id: u128, response_data: ResponseData) -> (message: ResponseMessage)
        ensures
            message@ == (EnvelopeView { client_id, data: response_data@ }),
    {
        ResponseMessage { client_id, response_data }
    }
}

pub enum ResponseData {
    Error(ErrorType),
    Alive,
    Joined(JoinedResponse),
    UserJoined(UserJoinedResponse),
    UserLeft(UserLeftResponse),
    Posted(PostedResponse),
    UserPosted(PostedResponse),
}

impl View for ResponseData {
    type V = ResponseView;

    open spec fn view(&self) -> ResponseView {
        match self {
            ResponseData::Error(error_type) => ResponseView::Error(*error_type),
            ResponseData::Alive => ResponseView::Alive,
            ResponseData::Joined(joined) => ResponseView::Joined(joined@),
            ResponseData::UserJoined(user_joined) => ResponseView::UserJoined(user_joined@),
            ResponseData::UserLeft(user_left) => ResponseView::UserLeft(user_left.id),
            ResponseData::Posted(posted) => ResponseView::Posted(posted@),
            ResponseData::UserPosted(posted) => ResponseView::UserPosted(posted@),
        }
    }
}

pub struct PostedResponse {
    pub message: MessageResponse,
}

impl View for PostedResponse {
    type V = MessageView;

    open spec fn view(&self) -> MessageView {
        self.message@
    }
}

impl PostedResponse {
    pub fn new(message: MessageResponse) -> (posted: PostedResponse)
        ensures
            posted@ == message@,
    {
        PostedResponse { message }
    }
}

pub struct UserJoinedResponse {
    pub user: UserResponse,
}

impl View for UserJoinedResponse {
    type V = UserView;

    open spec fn view(&self) -> UserView {
        self.user@
    }
}

impl UserJoinedResponse {
    pub fn new(user: UserResponse) -> (user_joined: UserJoinedResponse)
        ensures
            user_joined@ == user@,
    {
        UserJoinedResponse { user }
    }
}

pub struct UserLeftResponse {
    pub id: u128,
}

pub struct JoinedResponse {
    pub user: UserResponse,
    pub other_users: Vec<UserResponse>,
    pub messages: Vec<MessageResponse>,
}

impl View for JoinedResponse {
    type V = JoinedView;

    open spec fn view(&self) -> JoinedView {
        JoinedView {
            user: self.user@,
            other_users: user_resps(self.other_users@),
            messages: message_resps(self.messages@),
        }
    }
}

impl JoinedResponse {
    pub fn new(user: UserResponse, other_users: Vec<UserResponse>, messages: Vec<MessageResponse>) -> (joined: JoinedResponse)
        ensures
            joined@ == (JoinedView {
                user: user@,
                other_users: user_resps(other_users@),
                messages: message_resps(messages@),
            }),
    {
        JoinedResponse { user, other_users, messages }
    }
}

pub struct UserResponse {
    pub id: u128,
    pub name: String,
}

impl View for UserResponse {
    type V = UserView;

    open spec fn view(&self) -> UserView {
        UserView { id: self.id, name: self.name@ }
    }
}

impl UserResponse {
    pub fn new(id: u128, name: &str) -> (user: UserResponse)
        ensures
            user@ == (UserView { id, name: name@ }),
    {
        UserResponse { id, name: name.to_owned() }
    }
}

pub struct MessageResponse {
    pub id: u128,
    pub user: UserResponse,
    pub text: String,
    pub created_at_utc: i64,
}

impl View for MessageResponse {
    type V = MessageView;

    open spec fn view(&self) -> MessageView {
        MessageView {
            id: self.id,
            user: self.user@,
            text: self.text@,
            created_at_utc: self.created_at_utc,
        }
    }
}

impl MessageResponse {
    pub fn new(id: u128, user: UserResponse, text: &str, created_at_utc: i64) -> (message: MessageResponse)
        ensures
            message@ == (MessageView { id, user: user@, text: text@, created_at_utc }),
    {
        MessageResponse { id, user, text: text.to_owned(), created_at_utc }
    }
}

#[derive(Clone, Copy, PartialEq, Eq, Structural, Debug)]
pub enum ErrorType {
    NameExisted,
    InvalidName,
    InvalidRequest,
    NotJoined,
    InvalidMessage,
}

} // verus!
