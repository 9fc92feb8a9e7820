//! Per-connection adapter state: a freshly generated identity, the tagging
//! of decoded requests with that identity, and the filter deciding which
//! outbound envelopes this connection should see. The stream plumbing that
//! feeds frames in and out lives outside this crate.

use crate::request::{RequestData, RequestMessage};
use crate::response::ResponseMessage;
use vstd::prelude::*;

verus! {

pub struct Client {
    pub id: u128,
}

impl Client {
    /// A client under a freshly generated connection identity.
    pub fn new() -> Client {
        Client { id: crate::outside::fresh_id() }
    }

    /// Tag a decoded request with this connection's identity, so the
    /// coordinator can attribute it.
    pub fn tag_request(&self, request_data: RequestData) -> (message: RequestMessage)
        ensures
            message.client_id == self.id,
            message.request_data == request_data,
    {
        RequestMessage::new(self.id, request_data)
    }

    /// Whether an outbound envelope is addressed to this connection; the
    /// write path drops every envelope for which this is false.
    pub fn accepts(&self, message: &ResponseMessage) -> (accepted: bool)
        ensures
            accepted == (message.client_id == self.id),
    {
        message.client_id == self.id
    }
}

} // verus!
