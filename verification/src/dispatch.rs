//! The per-connection opcode dispatcher.
//!
//! The connection handler reads client frames in a loop and hands each one
//! to `handle_frame`, which classifies it by opcode and says what must
//! happen: a fixed reply is enqueued, the frame is forwarded upstream, the
//! shard-selection slot is filled, or the connection is torn down. Frames
//! from which no opcode can be read are noise and are skipped.

use vstd::prelude::*;
use vstd::string::*;
use crate::frames::{heartbeat_ack_frame, heartbeat_ack_text, invalid_session_frame, invalid_session_text};
use crate::identify::{spec_parse_identify, parse_identify_chars, validate_identify};
use crate::scan::{spec_find, spec_skip_ws, spec_scan_number, find, skip_ws, scan_number};
use crate::text::chars_of;

verus! {

/// The quoted opcode key as it stands in a frame.
pub open spec fn op_key() -> Seq<char> {
    "\"op\""@
}

/// The opcode of a frame: the number after the first occurrence of the
/// opcode key, or nothing for a frame the dispatcher should skip.
pub open spec fn spec_extract_op(s: Seq<char>) -> Option<u64> {
    match spec_find(s, op_key(), 0) {
        None => None,
        Some(i) => {
            let j = spec_skip_ws(s, i + op_key().len());
            if j < s.len() && s[j] == ':' {
                let k = spec_skip_ws(s, j + 1);
                match spec_scan_number(s, k) {
                    Some((v, _)) => Some(v),
                    None => None,
                }
            } else {
                None
            }
        },
    }
}

/// The heartbeat opcode.
pub const OP_HEARTBEAT: u64 = 1;

/// The identify opcode.
pub const OP_IDENTIFY: u64 = 2;

/// The resume opcode.
pub const OP_RESUME: u64 = 6;

/// Reads the opcode of a frame already split into characters.
pub fn extract_op_chars(s: &Vec<char>) -> (r: Option<u64>)
    ensures
        r == spec_extract_op(s@),
{
    let key = chars_of("\"op\"");
    let n = s.len();
    let i = match find(s, &key, 0) {
        Some(i) => i,
        None => {
            return None;
        },
    };
    let j = skip_ws(s, i + key.len());
    if !(j < n && s[j] == ':') {
        return None;
    }
    let k = skip_ws(s, j + 1);
    match scan_number(s, k) {
        Some((v, _)) => Some(v),
        None => None,
    }
}

/// Reads the opcode of a frame.
pub fn extract_op(frame: &str) -> (r: Option<u64>)
    ensures
        r == spec_extract_op(frame@),
{
    let chars = chars_of(frame);
    extract_op_chars(&chars)
}

/// The dispatcher's view of one connection.
pub struct ConnectionState {
    /// The server's configured shard count, fixed for the connection's life.
    pub shard_count: u64,
    /// Whether outbound frames are compressed; read by the sink pump at
    /// write time.
    pub compress: bool,
    /// The shard the connection identified for: the one-shot slot consumed
    /// by the event forwarder. Only the first valid identify fills it.
    pub shard_selected: Option<u64>,
}

/// What the handler must do with one frame.
pub struct DispatchOutcome {
    /// A fixed control frame to enqueue for the client.
    pub reply: Option<String>,
    /// The raw frame to forward verbatim to the shard's command sink.
    pub upstream: Option<String>,
    /// A validated shard index sent into the shard-selection slot.
    pub selected_shard: Option<u64>,
    /// The connection must be torn down: a protocol contract violation.
    pub disconnect: bool,
}

/// The outcome does nothing at all: the frame was noise.
pub open spec fn outcome_silent(o: DispatchOutcome) -> bool {
    &&& o.reply is None
    &&& o.upstream is None
    &&& o.selected_shard is None
    &&& !o.disconnect
}

/// The outcome's only effect is one enqueued reply with the given text.
pub open spec fn outcome_replies(o: DispatchOutcome, text: Seq<char>) -> bool {
    &&& (match o.reply {
        Some(r) => r@ == text,
        None => false,
    })
    &&& o.upstream is None
    &&& o.selected_shard is None
    &&& !o.disconnect
}

/// The outcome's only effect is the frame forwarded upstream verbatim.
pub open spec fn outcome_forwards(o: DispatchOutcome, frame: Seq<char>) -> bool {
    &&& o.reply is None
    &&& (match o.upstream {
        Some(u) => u@ == frame,
        None => false,
    })
    &&& o.selected_shard is None
    &&& !o.disconnect
}

/// What one identify frame does to the connection, given the already-parsed
/// payload: an invalid payload is skipped; a shard-count mismatch or an
/// out-of-range index disconnects without any frame being sent, so no
/// bootstrap can ever follow; a valid identify sends the index into the
/// shard-selection slot (only the first one fills it) and updates the
/// compression flag when the payload carries one.
pub open spec fn identify_step(
    pre: ConnectionState,
    post: ConnectionState,
    frame: Seq<char>,
    out: DispatchOutcome,
) -> bool {
    match spec_parse_identify(frame) {
        None => outcome_silent(out) && post == pre,
        Some((index, count, flag)) => {
            if count != pre.shard_count || index >= count {
                &&& out.disconnect
                &&& out.reply is None
                &&& out.upstream is None
                &&& out.selected_shard is None
                &&& post == pre
            } else {
                &&& !out.disconnect
                &&& out.reply is None
                &&& out.upstream is None
                &&& out.selected_shard == Some(index)
                &&& post.shard_count == pre.shard_count
                &&& post.compress == (match flag {
                    Some(b) => b,
                    None => pre.compress,
                })
                &&& post.shard_selected == (if pre.shard_selected is None {
                    Some(index)
                } else {
                    pre.shard_selected
                })
            }
        },
    }
}

impl ConnectionState {
    /// A fresh connection: nothing identified, compression off.
    pub fn new(shard_count: u64) -> (s: Self)
        ensures
            s.shard_count == shard_count,
            !s.compress,
            s.shard_selected is None,
    {
        ConnectionState { shard_count, compress: false, shard_selected: None }
    }
}

/// Dispatches one client frame.
///
/// A frame without a readable opcode is skipped. A heartbeat is answered by
/// exactly one acknowledgement and nothing else changes. An identify is
/// parsed and validated as `identify_step` says. A resume is answered by
/// exactly one invalid-session frame and never establishes anything. Every
/// other opcode is forwarded upstream verbatim.
pub fn handle_frame(state: &mut ConnectionState, frame: &str) -> (out: DispatchOutcome)
    ensures
        final(state).shard_count == old(state).shard_count,
        (match spec_extract_op(frame@) {
            None => outcome_silent(out) && *final(state) == *old(state),
            Some(op) => {
                if op == OP_HEARTBEAT {
                    outcome_replies(out, heartbeat_ack_text()) && *final(state) == *old(state)
                } else if op == OP_IDENTIFY {
                    identify_step(*old(state), *final(state), frame@, out)
                } else if op == OP_RESUME {
                    outcome_replies(out, invalid_session_text()) && *final(state) == *old(state)
                } else {
                    outcome_forwards(out, frame@) && *final(state) == *old(state)
                }
            },
        }),
{
    let chars = chars_of(frame);
    let op = match extract_op_chars(&chars) {
        Some(op) => op,
        None => {
            return DispatchOutcome {
                reply: None,
                upstream: None,
                selected_shard: None,
                disconnect: false,
            };
        },
    };
    if op == OP_HEARTBEAT {
        DispatchOutcome {
            reply: Some(heartbeat_ack_frame()),
            upstream: None,
            selected_shard: None,
            disconnect: false,
        }
    } else if op == OP_IDENTIFY {
        let id = match parse_identify_chars(&chars) {
            Some(id) => id,
            None => {
                return DispatchOutcome {
                    reply: None,
                    upstream: None,
                    selected_shard: None,
                    disconnect: false,
                };
            },
        };
        let index = match validate_identify(&id, state.shard_count) {
            Ok(index) => index,
            Err(_) => {
                return DispatchOutcome {
                    reply: None,
                    upstream: None,
                    selected_shard: None,
                    disconnect: true,
                };
            },
        };
        if let Some(flag) = id.d.compress {
            state.compress = flag;
        }
        if state.shard_selected.is_none() {
            state.shard_selected = Some(index);
        }
        DispatchOutcome {
            reply: None,
            upstream: None,
            selected_shard: Some(index),
            disconnect: false,
        }
    } else if op == OP_RESUME {
        DispatchOutcome {
            reply: Some(invalid_session_frame()),
            upstream: None,
            selected_shard: None,
            disconnect: false,
        }
    } else {
        DispatchOutcome {
            reply: None,
            upstream: Some(frame.to_owned()),
            selected_shard: None,
            disconnect: false,
        }
    }
}

} // verus!
