//! What goes into the logs: a timestamp prefix, and the record of one read.
//!
//! The logs are files that only grow. Opening and writing them is the
//! caller's part; which bytes are written is decided here.

use crate::hex::{hex_text, to_hex};
use vstd::prelude::*;
use vstd::string::{StrSliceExecFns, StringExecFns};
use vstd::utf8::encode_utf8;

verus! {

/// The prefix that carries `stamp`: the stamp in square brackets and a space.
pub open spec fn stamp_prefix(stamp: Seq<char>) -> Seq<char> {
    seq!['['] + stamp + seq![']', ' ']
}

/// `body` behind the prefix for `stamp`, or alone where there is no stamp.
pub open spec fn stamped(stamp: Option<Seq<char>>, body: Seq<char>) -> Seq<char> {
    match stamp {
        Some(s) => stamp_prefix(s) + body,
        None => body,
    }
}

/// What a stamp that was handed in says.
pub open spec fn stamp_of(stamp: Option<&str>) -> Option<Seq<char>> {
    match stamp {
        Some(s) => Some(s@),
        None => None,
    }
}

/// The record of one read in the log of received bytes: in hex mode the
/// hexadecimal text and a line feed, else the bytes as they came; behind the
/// prefix for `stamp`, where there is one.
pub open spec fn rx_record_bytes(bytes: Seq<u8>, hex_mode: bool, stamp: Option<Seq<char>>) -> Seq<
    u8,
> {
    let body = if hex_mode {
        encode_utf8(hex_text(bytes)) + seq![10u8]
    } else {
        bytes
    };
    match stamp {
        Some(s) => encode_utf8(stamp_prefix(s)) + body,
        None => body,
    }
}

/// The prefix that carries `stamp`.
pub fn timestamp_prefix(stamp: &str) -> (prefix: String)
    ensures
        prefix@ == stamp_prefix(stamp@),
{
    let mut prefix = String::new();
    prefix.push('[');
    prefix.append(stamp);
    prefix.push(']');
    prefix.push(' ');
    assert(prefix@ =~= stamp_prefix(stamp@));
    prefix
}

/// `body` behind the prefix for `stamp`, or alone where there is no stamp.
pub fn with_stamp(stamp: Option<&str>, body: &str) -> (text: String)
    ensures
        text@ == stamped(stamp_of(stamp), body@),
{
    let mut text = match stamp {
        Some(s) => timestamp_prefix(s),
        None => String::new(),
    };
    text.append(body);
    assert(text@ =~= stamped(stamp_of(stamp), body@));
    text
}

/// The record of one read for the log of received bytes.
pub fn rx_record(bytes: &[u8], hex_mode: bool, stamp: Option<&str>) -> (record: Vec<u8>)
    ensures
        record@ == rx_record_bytes(bytes@, hex_mode, stamp_of(stamp)),
{
    let mut record: Vec<u8> = match stamp {
        Some(s) => timestamp_prefix(s).as_str().as_bytes_vec(),
        None => Vec::new(),
    };
    if hex_mode {
        let text = to_hex(bytes);
        record.extend_from_slice(text.as_str().as_bytes());
        record.push(10u8);
    } else {
        record.extend_from_slice(bytes);
    }
    assert(record@ =~= rx_record_bytes(bytes@, hex_mode, stamp_of(stamp)));
    record
}

} // verus!
