//! What the device sends: how the bytes of one read are shown and logged, and
//! what the reader does after each read.
//!
//! The reader's loop, the port and the log belong to the caller. After each
//! read the caller says how it ended, and `SerialReader::on_read` answers with
//! what to deliver, or to wait, or to stop.
//!
//! With timestamps on, what is shown and logged stands behind a stamp of the
//! clock's reading. The clock is read here; `chrono` turns the reading into
//! the stamp.

use crate::hex::{hex_text, to_hex};
use crate::logging::{rx_record, rx_record_bytes, stamp_of, stamped, with_stamp};
use crate::time_utils::{clock_reading, millis_of, timestamp_text, Timestamp};
use vstd::prelude::*;
use vstd::utf8::{decode_utf8, valid_utf8};

verus! {

/// What the reader hands to the console.
#[derive(Debug, Clone, PartialEq, Eq)]
pub enum SerialData {
    /// Text to show, as formatted from one read.
    Received(String),
}

/// The text that `String::from_utf8_lossy` makes of `bytes`.
pub uninterp spec fn utf8_lossy(bytes: Seq<u8>) -> Seq<char>;

/// The pattern of a timestamp: date, time of day and milliseconds.
pub open spec fn stamp_pattern() -> Seq<char> {
    "%Y-%m-%d %H:%M:%S%.3f"@
}

/// `String::from_utf8_lossy`, as an owned string. The result depends on the
/// bytes alone; where they are valid UTF-8 it is the text that they encode.
#[verifier::external_body]
fn decode_lossy(bytes: &[u8]) -> (text: String)
    ensures
        text@ == utf8_lossy(bytes@),
        valid_utf8(bytes@) ==> text@ == decode_utf8(bytes@),
{
    String::from_utf8_lossy(bytes).into_owned()
}

/// The text that `chrono` writes by `pattern` for the time `secs` seconds and
/// `nanos` nanoseconds after the start of 1970 in UTC; `None` where it holds
/// no such time.
pub uninterp spec fn chrono_utc_text(secs: i64, nanos: u32, pattern: Seq<char>) -> Option<
    Seq<char>,
>;

/// `chrono::DateTime::from_timestamp`, written out by `DateTime::format`
/// with `pattern`: `None` where the time is beyond what `chrono` holds. The
/// result depends on the arguments alone. The pattern is held to the one of
/// a timestamp, which the formatter accepts.
#[verifier::external_body]
fn utc_text_at(secs: i64, nanos: u32, pattern: &str) -> (text: Option<String>)
    requires
        pattern@ == stamp_pattern(),
    ensures
        match text {
            Some(t) => chrono_utc_text(secs, nanos, pattern@) == Some(t@),
            None => chrono_utc_text(secs, nanos, pattern@) is None,
        },
{
    match chrono::DateTime::from_timestamp(secs, nanos) {
        Some(time) => Some(time.format(pattern).to_string()),
        None => None,
    }
}

/// The stamp for the time `secs` seconds and `nanos` nanoseconds after the
/// start of 1970 in UTC: what `chrono` writes for it, or, for a time that
/// `chrono` does not hold, the library's own text for its millisecond.
pub open spec fn stamp_text(secs: u64, nanos: u32) -> Seq<char> {
    let own = timestamp_text(millis_of(secs, nanos));
    if secs <= i64::MAX {
        match chrono_utc_text(secs as i64, nanos, stamp_pattern()) {
            Some(text) => text,
            None => own,
        }
    } else {
        own
    }
}

/// Whether `stamp` is the stamp of a reading of the clock.
pub open spec fn is_clock_stamp(stamp: Seq<char>) -> bool {
    exists|secs: u64, nanos: u32| nanos < 1_000_000_000 && stamp == #[trigger] stamp_text(secs, nanos)
}

/// The stamp for the time `secs` seconds and `nanos` nanoseconds after the
/// start of 1970 in UTC.
pub fn stamp_at(secs: u64, nanos: u32) -> (stamp: String)
    ensures
        stamp@ == stamp_text(secs, nanos),
{
    if secs <= i64::MAX as u64 {
        match utc_text_at(secs as i64, nanos, "%Y-%m-%d %H:%M:%S%.3f") {
            Some(text) => {
                return text;
            },
            None => {},
        }
    }
    Timestamp(secs as u128 * 1000 + (nanos / 1_000_000) as u128).text()
}

/// The stamp of the clock's reading at the time of the call.
fn clock_stamp() -> (stamp: String)
    ensures
        is_clock_stamp(stamp@),
{
    let (secs, nanos) = clock_reading();
    let stamp = stamp_at(secs, nanos);
    assert(stamp@ == stamp_text(secs, nanos));
    stamp
}

/// How received bytes are shown and logged.
#[derive(Copy, Clone, Debug)]
pub struct SerialReader {
    hex_mode: bool,
    log_ts: bool,
    rx_log: bool,
}

/// How a read ended.
#[derive(Debug)]
pub enum ReadOutcome {
    /// These bytes came.
    Read(Vec<u8>),
    /// Nothing came in time.
    TimedOut,
    /// The read failed otherwise.
    Failed,
}

/// What one read gives: the text for the console and the record for the log.
#[derive(Debug, Clone, PartialEq, Eq)]
pub struct Delivery {
    /// The text for the console.
    pub data: SerialData,
    /// The bytes to append to the log of received bytes, where one is kept.
    pub log: Option<Vec<u8>>,
}

/// What the reader does after a read.
#[derive(Debug, Clone, PartialEq, Eq)]
pub enum ReaderStep {
    /// Hand the text to the console, append the record to the log, read on.
    Deliver(Delivery),
    /// Let others run, then read again.
    Yield,
    /// Stop for good: the link is gone.
    Stop,
}

/// The text shown for `bytes`: hexadecimal in hex mode, else decoded as
/// UTF-8 with a replacement character for what is not; behind the prefix for
/// `stamp`, where there is one.
pub open spec fn display_text(hex_mode: bool, bytes: Seq<u8>, stamp: Option<Seq<char>>) -> Seq<
    char,
> {
    stamped(
        stamp,
        if hex_mode {
            hex_text(bytes)
        } else {
            utf8_lossy(bytes)
        },
    )
}

/// Shows `bytes` as hexadecimal text, behind `stamp` where there is one.
pub fn hex_display(bytes: &[u8], stamp: Option<&str>) -> (text: String)
    ensures
        text@ == display_text(true, bytes@, stamp_of(stamp)),
{
    let body = to_hex(bytes);
    with_stamp(stamp, body.as_str())
}

/// Shows `bytes` as text, behind `stamp` where there is one.
pub fn text_display(bytes: &[u8], stamp: Option<&str>) -> (text: String)
    ensures
        text@ == display_text(false, bytes@, stamp_of(stamp)),
        valid_utf8(bytes@) ==> text@ == stamped(stamp_of(stamp), decode_utf8(bytes@)),
{
    let body = decode_lossy(bytes);
    with_stamp(stamp, body.as_str())
}

impl SerialReader {
    /// Whether bytes are shown and logged as hexadecimal text.
    pub closed spec fn hex(self) -> bool {
        self.hex_mode
    }

    /// Whether what is shown and logged carries a timestamp.
    pub closed spec fn stamps(self) -> bool {
        self.log_ts
    }

    /// Whether a log of received bytes is kept.
    pub closed spec fn logs(self) -> bool {
        self.rx_log
    }

    /// Whether `text` is what may be shown for `bytes`: with timestamps on,
    /// the text behind the stamp of some reading of the clock; else the
    /// text without a stamp.
    pub open spec fn may_show(self, bytes: Seq<u8>, text: Seq<char>) -> bool {
        if self.stamps() {
            exists|stamp: Seq<char>|
                is_clock_stamp(stamp) && text == #[trigger] display_text(
                    self.hex(),
                    bytes,
                    Some(stamp),
                )
        } else {
            text == display_text(self.hex(), bytes, None)
        }
    }

    /// Whether `record` is what may be logged for `bytes`: nothing where no
    /// log is kept; with timestamps on, the record behind the stamp of some
    /// reading of the clock; else the record without a stamp.
    pub open spec fn may_log(self, bytes: Seq<u8>, record: Option<Seq<u8>>) -> bool {
        if !self.logs() {
            record is None
        } else if self.stamps() {
            exists|stamp: Seq<char>|
                is_clock_stamp(stamp) && record == Some(
                    #[trigger] rx_record_bytes(bytes, self.hex(), Some(stamp)),
                )
        } else {
            record == Some(rx_record_bytes(bytes, self.hex(), None))
        }
    }

    /// A reader that shows hexadecimal text if `hex_mode`, stamps what it
    /// shows and logs if `log_ts`, and keeps a log if `rx_log`.
    pub fn new(hex_mode: bool, log_ts: bool, rx_log: bool) -> (reader: Self)
        ensures
            reader.hex() == hex_mode,
            reader.stamps() == log_ts,
            reader.logs() == rx_log,
    {
        SerialReader { hex_mode, log_ts, rx_log }
    }

    /// The text to show for `bytes` in hex mode, stamped with the time of
    /// the call where timestamps are on.
    pub fn format_hex_data(&self, bytes: &[u8]) -> (text: String)
        ensures
            if self.stamps() {
                exists|stamp: Seq<char>|
                    is_clock_stamp(stamp) && text@ == #[trigger] display_text(
                        true,
                        bytes@,
                        Some(stamp),
                    )
            } else {
                text@ == display_text(true, bytes@, None)
            },
    {
        if self.log_ts {
            let now = clock_stamp();
            let text = hex_display(bytes, Some(now.as_str()));
            assert(text@ == display_text(true, bytes@, Some(now@)));
            text
        } else {
            hex_display(bytes, None)
        }
    }

    /// The text to show for `bytes` in text mode, stamped with the time of
    /// the call where timestamps are on.
    pub fn format_text_data(&self, bytes: &[u8]) -> (text: String)
        ensures
            if self.stamps() {
                exists|stamp: Seq<char>|
                    is_clock_stamp(stamp) && text@ == #[trigger] display_text(
                        false,
                        bytes@,
                        Some(stamp),
                    )
            } else {
                text@ == display_text(false, bytes@, None)
            },
            valid_utf8(bytes@) && !self.stamps() ==> text@ == decode_utf8(bytes@),
            valid_utf8(bytes@) && self.stamps() ==> exists|stamp: Seq<char>|
                is_clock_stamp(stamp) && text@ == #[trigger] stamped(
                    Some(stamp),
                    decode_utf8(bytes@),
                ),
    {
        if self.log_ts {
            let now = clock_stamp();
            let text = text_display(bytes, Some(now.as_str()));
            assert(text@ == display_text(false, bytes@, Some(now@)));
            assert(valid_utf8(bytes@) ==> text@ == stamped(Some(now@), decode_utf8(bytes@)));
            text
        } else {
            text_display(bytes, None)
        }
    }

    /// The record of `bytes` for the log of received bytes, stamped with the
    /// time of the call where timestamps are on; `None` where no log is kept.
    pub fn write_to_log(&self, bytes: &[u8]) -> (record: Option<Vec<u8>>)
        ensures
            self.may_log(
                bytes@,
                match record {
                    Some(r) => Some(r@),
                    None => None,
                },
            ),
    {
        if !self.rx_log {
            None
        } else if self.log_ts {
            let now = clock_stamp();
            let record = rx_record(bytes, self.hex_mode, Some(now.as_str()));
            assert(record@ == rx_record_bytes(bytes@, self.hex(), Some(now@)));
            Some(record)
        } else {
            Some(rx_record(bytes, self.hex_mode, None))
        }
    }

    /// What one read gives: the text for the console, then the record for
    /// the log.
    pub fn process_received_data(&self, bytes: &[u8]) -> (delivery: Delivery)
        ensures
            delivery.shows(*self, bytes@),
            valid_utf8(bytes@) && !self.hex() && !self.stamps() ==> delivery.text() == decode_utf8(
                bytes@,
            ),
    {
        let shown = if self.hex_mode {
            self.format_hex_data(bytes)
        } else {
            self.format_text_data(bytes)
        };
        assert(self.may_show(bytes@, shown@)) by {
            if self.stamps() {
                let stamp = choose|stamp: Seq<char>|
                    is_clock_stamp(stamp) && shown@ == #[trigger] display_text(
                        self.hex(),
                        bytes@,
                        Some(stamp),
                    );
                assert(shown@ == display_text(self.hex(), bytes@, Some(stamp)));
            }
        }
        let log = self.write_to_log(bytes);
        Delivery { data: SerialData::Received(shown), log }
    }

    /// What the reader does after a read: bytes are delivered; with no
    /// bytes, or none in time, it waits and reads again; any other failure
    /// ends it.
    pub fn on_read(&self, outcome: ReadOutcome) -> (step: ReaderStep)
        ensures
            match outcome {
                ReadOutcome::Read(bytes) => if bytes@.len() > 0 {
                    &&& step matches ReaderStep::Deliver(delivery)
                    &&& delivery.shows(*self, bytes@)
                    &&& valid_utf8(bytes@) && !self.hex() && !self.stamps() ==> delivery.text()
                        == decode_utf8(bytes@)
                } else {
                    step is Yield
                },
                ReadOutcome::TimedOut => step is Yield,
                ReadOutcome::Failed => step is Stop,
            },
    {
        match outcome {
            ReadOutcome::Read(bytes) => {
                if bytes.len() > 0 {
                    ReaderStep::Deliver(self.process_received_data(bytes.as_slice()))
                } else {
                    ReaderStep::Yield
                }
            },
            ReadOutcome::TimedOut => ReaderStep::Yield,
            ReadOutcome::Failed => ReaderStep::Stop,
        }
    }
}

impl Delivery {
    /// The text for the console.
    pub open spec fn text(self) -> Seq<char> {
        match self.data {
            SerialData::Received(text) => text@,
        }
    }

    /// The record for the log.
    pub open spec fn record(self) -> Option<Seq<u8>> {
        match self.log {
            Some(r) => Some(r@),
            None => None,
        }
    }

    /// Whether this is what `reader` may give for `bytes`.
    pub open spec fn shows(self, reader: SerialReader, bytes: Seq<u8>) -> bool {
        &&& reader.may_show(bytes, self.text())
        &&& reader.may_log(bytes, self.record())
    }
}

} // verus!
