//! The identify command: parsing and validation.
//!
//! An identify payload carries `"shard":[index,count]` and an optional
//! `"compress":true|false` flag. The scanner reads the first occurrence of
//! each key; a frame without a well-formed shard pair, or with a malformed
//! compress flag, is not an identify at all and is skipped by the dispatcher.

use vstd::prelude::*;
use crate::scan::{match_at, spec_find, spec_skip_ws, spec_scan_number, find, skip_ws, scan_number, match_prefix};
use crate::text::chars_of;

verus! {

/// The payload of an identify command.
pub struct IdentifyInfo {
    /// The client's shard as `[index, declared total count]`.
    pub shard: [u64; 2],
    /// Whether outbound frames should be compressed from now on, if the
    /// client said either way.
    pub compress: Option<bool>,
}

/// An identify command, parsed from one client frame.
pub struct Identify {
    /// The payload under the frame's data key.
    pub d: IdentifyInfo,
}

/// Why a parsed identify payload is fatal for the connection.
#[derive(Clone, Copy, PartialEq, Eq, Structural, Debug)]
pub enum IdentifyError {
    /// The declared total shard count differs from the server's configured
    /// count.
    ShardCountMismatch,
    /// The shard index is not below the declared total count.
    ShardIndexOutOfRange,
}

/// The quoted shard key as it stands in a frame.
pub open spec fn shard_key() -> Seq<char> {
    "\"shard\""@
}

/// The quoted compress key as it stands in a frame.
pub open spec fn compress_key() -> Seq<char> {
    "\"compress\""@
}

/// The true literal.
pub open spec fn true_lit() -> Seq<char> {
    "true"@
}

/// The false literal.
pub open spec fn false_lit() -> Seq<char> {
    "false"@
}

/// The shard pair scanned after the shard key: a colon, then
/// `[index, count]`, with insignificant whitespace allowed between tokens.
pub open spec fn spec_shard_pair(s: Seq<char>, from: int) -> Option<(u64, u64)> {
    let j = spec_skip_ws(s, from);
    if j < s.len() && s[j] == ':' {
        let k = spec_skip_ws(s, j + 1);
        if k < s.len() && s[k] == '[' {
            let a0 = spec_skip_ws(s, k + 1);
            match spec_scan_number(s, a0) {
                Some((a, ae)) => {
                    let cm = spec_skip_ws(s, ae);
                    if cm < s.len() && s[cm] == ',' {
                        let b0 = spec_skip_ws(s, cm + 1);
                        match spec_scan_number(s, b0) {
                            Some((b, be)) => {
                                let cl = spec_skip_ws(s, be);
                                if cl < s.len() && s[cl] == ']' {
                                    Some((a, b))
                                } else {
                                    None
                                }
                            },
                            None => None,
                        }
                    } else {
                        None
                    }
                },
                None => None,
            }
        } else {
            None
        }
    } else {
        None
    }
}

/// The compress flag of a frame: `Some(None)` when the key is absent,
/// `Some(Some(b))` when it is present with a boolean value, and `None` when
/// it is present but malformed, which spoils the whole identify.
pub open spec fn spec_compress_flag(s: Seq<char>) -> Option<Option<bool>> {
    match spec_find(s, compress_key(), 0) {
        None => Some(None),
        Some(i) => {
            let j = spec_skip_ws(s, i + compress_key().len());
            if j < s.len() && s[j] == ':' {
                let k = spec_skip_ws(s, j + 1);
                if match_at(s, true_lit(), k) {
                    Some(Some(true))
                } else if match_at(s, false_lit(), k) {
                    Some(Some(false))
                } else {
                    None
                }
            } else {
                None
            }
        },
    }
}

/// What an identify frame means: shard index, declared count, and the
/// optional compress flag, or nothing when the frame is not a well-formed
/// identify.
pub open spec fn spec_parse_identify(s: Seq<char>) -> Option<(u64, u64, Option<bool>)> {
    match spec_find(s, shard_key(), 0) {
        None => None,
        Some(i) => match spec_shard_pair(s, i + shard_key().len()) {
            None => None,
            Some((a, b)) => match spec_compress_flag(s) {
                None => None,
                Some(c) => Some((a, b, c)),
            },
        },
    }
}

/// Scans the shard pair after the shard key.
fn shard_pair(s: &Vec<char>, from: usize) -> (r: Option<(u64, u64)>)
    requires
        from <= s@.len(),
    ensures
        r == spec_shard_pair(s@, from as int),
{
    let n = s.len();
    let j = skip_ws(s, from);
    if !(j < n && s[j] == ':') {
        return None;
    }
    let k = skip_ws(s, j + 1);
    if !(k < n && s[k] == '[') {
        return None;
    }
    let a0 = skip_ws(s, k + 1);
    let (a, ae) = match scan_number(s, a0) {
        Some(p) => p,
        None => {
            return None;
        },
    };
    let cm = skip_ws(s, ae);
    if !(cm < n && s[cm] == ',') {
        return None;
    }
    let b0 = skip_ws(s, cm + 1);
    let (b, be) = match scan_number(s, b0) {
        Some(p) => p,
        None => {
            return None;
        },
    };
    let cl = skip_ws(s, be);
    if !(cl < n && s[cl] == ']') {
        return None;
    }
    Some((a, b))
}

/// Scans the compress flag anywhere in the frame.
fn compress_flag(s: &Vec<char>) -> (r: Option<Option<bool>>)
    ensures
        r == spec_compress_flag(s@),
{
    let key = chars_of("\"compress\"");
    let n = s.len();
    let i = match find(s, &key, 0) {
        Some(i) => i,
        None => {
            return Some(None);
        },
    };
    let j = skip_ws(s, i + key.len());
    if !(j < n && s[j] == ':') {
        return None;
    }
    let k = skip_ws(s, j + 1);
    let tru = chars_of("true");
    let fal = chars_of("false");
    if tru.len() <= n - k && match_prefix(s, &tru, k) {
        return Some(Some(true));
    }
    if fal.len() <= n - k && match_prefix(s, &fal, k) {
        return Some(Some(false));
    }
    None
}

/// Parses an identify frame, as `spec_parse_identify` reads it.
pub fn parse_identify(frame: &str) -> (r: Option<Identify>)
    ensures
        (match r {
            Some(id) => spec_parse_identify(frame@) == Some(
                (id.d.shard[0], id.d.shard[1], id.d.compress),
            ),
            None => spec_parse_identify(frame@) is None,
        }),
{
    let chars = chars_of(frame);
    parse_identify_chars(&chars)
}

/// Parses an identify frame already split into characters.
pub fn parse_identify_chars(s: &Vec<char>) -> (r: Option<Identify>)
    ensures
        (match r {
            Some(id) => spec_parse_identify(s@) == Some(
                (id.d.shard[0], id.d.shard[1], id.d.compress),
            ),
            None => spec_parse_identify(s@) is None,
        }),
{
    let key = chars_of("\"shard\"");
    // binds the character count to a machine word for the index arithmetic
    let _n = s.len();
    let i = match find(s, &key, 0) {
        Some(i) => i,
        None => {
            return None;
        },
    };
    let (a, b) = match shard_pair(s, i + key.len()) {
        Some(p) => p,
        None => {
            return None;
        },
    };
    let c = match compress_flag(s) {
        Some(c) => c,
        None => {
            return None;
        },
    };
    Some(Identify { d: IdentifyInfo { shard: [a, b], compress: c } })
}

/// Validates a parsed identify against the server's configured shard count:
/// the declared count must equal the configured count and the index must be
/// below it. The result is the validated shard index.
pub fn validate_identify(id: &Identify, configured_count: u64) -> (r: Result<u64, IdentifyError>)
    ensures
        r is Ok <==> (id.d.shard[1] == configured_count && id.d.shard[0] < id.d.shard[1]),
        r matches Ok(i) ==> i == id.d.shard[0],
        r matches Err(e) ==> (e == IdentifyError::ShardCountMismatch <==> id.d.shard[1]
            != configured_count),
{
    if id.d.shard[1] != configured_count {
        Err(IdentifyError::ShardCountMismatch)
    } else if id.d.shard[0] >= id.d.shard[1] {
        Err(IdentifyError::ShardIndexOutOfRange)
    } else {
        Ok(id.d.shard[0])
    }
}

} // verus!
