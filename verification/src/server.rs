//! The decisions of the node's server side.

use crate::encoding::bytes_equal;
use crate::network::request_text;
use crate::network::request_token;
use vstd::prelude::*;
use vstd::utf8::encode_utf8;

verus! {

/// What the server owes to what it received.
#[derive(Clone, Copy, Debug, PartialEq, Eq, Structural)]
pub enum ServerReply {
    /// The node's ledger, as it is at the moment of the request.
    Ledger,
    /// Nothing.
    Nothing,
}

/// Whether `received` is a request for the ledger: exactly the request
/// text in UTF-8.
pub open spec fn is_ledger_request(received: Seq<u8>) -> bool {
    received == encode_utf8(request_text())
}

/// What the server owes to the bytes `received` of one read: the ledger
/// to a request for it, nothing to anything else.
pub fn reply_to(received: &[u8]) -> (reply: ServerReply)
    ensures
        reply == (if is_ledger_request(received@) {
            ServerReply::Ledger
        } else {
            ServerReply::Nothing
        }),
{
    if bytes_equal(received, request_token().as_bytes()) {
        ServerReply::Ledger
    } else {
        ServerReply::Nothing
    }
}

} // verus!
