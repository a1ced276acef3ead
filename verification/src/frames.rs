//! The fixed control frames of the gateway protocol.
//!
//! These three messages are part of the wire protocol and must match
//! byte for byte: clients key on their exact text.

use vstd::prelude::*;
use vstd::string::*;

verus! {

/// Text of the hello frame, sent once when a connection opens. It announces
/// the heartbeat interval the client must honour.
pub open spec fn hello_text() -> Seq<char> {
    "{\"t\":null,\"s\":null,\"op\":10,\"d\":{\"heartbeat_interval\":41250}}"@
}

/// Text of the heartbeat acknowledgement frame, the only reply to a
/// client heartbeat.
pub open spec fn heartbeat_ack_text() -> Seq<char> {
    "{\"t\":null,\"s\":null,\"op\":11,\"d\":null}"@
}

/// Text of the invalid-session frame. Resumption is unsupported by design,
/// so every resume attempt is answered with this frame, which makes the
/// client identify again and receive a fresh bootstrap.
pub open spec fn invalid_session_text() -> Seq<char> {
    "{\"t\":null,\"s\":null,\"op\":9,\"d\":false}"@
}

/// Builds the hello frame.
pub fn hello_frame() -> (r: String)
    ensures
        r@ == hello_text(),
{
    String::from_str("{\"t\":null,\"s\":null,\"op\":10,\"d\":{\"heartbeat_interval\":41250}}")
}

/// Builds the heartbeat acknowledgement frame.
pub fn heartbeat_ack_frame() -> (r: String)
    ensures
        r@ == heartbeat_ack_text(),
{
    String::from_str("{\"t\":null,\"s\":null,\"op\":11,\"d\":null}")
}

/// Builds the invalid-session frame.
pub fn invalid_session_frame() -> (r: String)
    ensures
        r@ == invalid_session_text(),
{
    String::from_str("{\"t\":null,\"s\":null,\"op\":9,\"d\":false}")
}

} // verus!
