//! What the console is configured with: the line ending sent after each line.

use vstd::prelude::*;

verus! {

/// Which line ending to send when Enter is pressed.
#[derive(Copy, Clone, Debug, PartialEq, Eq)]
pub enum LineEnding {
    /// Send nothing extra.
    NoEnding,
    /// Send a line feed.
    Nl,
    /// Send a carriage return.
    Cr,
    /// Send a carriage return and a line feed.
    Crlf,
}

impl LineEnding {
    /// The bytes of this line ending.
    pub open spec fn wire(self) -> Seq<u8> {
        match self {
            LineEnding::NoEnding => seq![],
            LineEnding::Nl => seq![10u8],
            LineEnding::Cr => seq![13u8],
            LineEnding::Crlf => seq![13u8, 10u8],
        }
    }

    /// The name of this line ending.
    pub open spec fn label(self) -> Seq<char> {
        match self {
            LineEnding::NoEnding => "none"@,
            LineEnding::Nl => "LF (\\n)"@,
            LineEnding::Cr => "CR (\\r)"@,
            LineEnding::Crlf => "CRLF (\\r\\n)"@,
        }
    }

    /// The name under which this line ending is shown to the user.
    pub fn describe(self) -> (name: &'static str)
        ensures
            name@ == self.label(),
    {
        match self {
            LineEnding::NoEnding => "none",
            LineEnding::Nl => "LF (\\n)",
            LineEnding::Cr => "CR (\\r)",
            LineEnding::Crlf => "CRLF (\\r\\n)",
        }
    }

    /// The bytes that this line ending puts on the wire.
    pub fn bytes(self) -> (out: &'static [u8])
        ensures
            out@ == self.wire(),
    {
        match self {
            LineEnding::NoEnding => &[],
            LineEnding::Nl => &[10u8],
            LineEnding::Cr => &[13u8],
            LineEnding::Crlf => &[13u8, 10u8],
        }
    }
}

/// What the console needs to know to send a line.
#[derive(Copy, Clone, Debug)]
pub struct UiConfig {
    /// The line ending sent after each line.
    pub line_ending: LineEnding,
    /// Whether sent bytes are logged.
    pub tx_log: bool,
    /// Whether each logged send starts with a timestamp.
    pub log_ts: bool,
}

} // verus!
