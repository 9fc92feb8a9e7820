//! Inbound protocol: a decoded request tagged with the identity of the
//! connection it came from.

use vstd::prelude::*;

verus! {

/// Mathematical value of a [`RequestData`].
#[verifier::ext_equal]
pub enum RequestView {
    Join { name: Seq<char> },
    PostMessage { text: Seq<char> },
}

pub struct RequestMessage {
    pub client_id: u128,
    pub request_data: RequestData,
}

impl RequestMessage {
    pub fn new(client_id: u128, request_data: RequestData) -> (message: RequestMessage)
        ensures
            message.client_id == client_id,
            message.request_data == request_data,
    {
        RequestMessage { client_id, request_data }
    }
}

pub enum RequestData {
    Join(JoinRequestData),
    PostMessage(PostMessageRequestData),
}

impl View for RequestData {
    type V = RequestView;

    open spec fn view(&self) -> RequestView {
        match self {
            RequestData::Join(join) => RequestView::Join { name: join.name@ },
            RequestData::PostMessage(post) => RequestView::PostMessage { text: post.text@ },
        }
    }
}

pub struct JoinRequestData {
    pub name: String,
}

pub struct PostMessageRequestData {
    pub text: String,
}

} // verus!
