//! Log output format selection.

use vstd::prelude::*;
use vstd::string::StringSliceAdditionalSpecFns;

verus! {

/// Supported log output formats.
#[derive(Debug, Clone, Copy, PartialEq, Eq, Structural)]
pub enum LogFormat {
    Plain,
    Json,
}

/// ASCII lowercase of one byte.
pub open spec fn lower_byte(b: u8) -> u8 {
    if 65 <= b <= 90 {
        (b + 32) as u8
    } else {
        b
    }
}

/// The format a name selects: JSON exactly when the name's ASCII
/// lowercase is `json` (bytes 106, 115, 111, 110); any other name
/// falls back to plain.
pub open spec fn format_of_name(b: Seq<u8>) -> LogFormat {
    if b.len() == 4 && lower_byte(b[0]) == 106 && lower_byte(b[1]) == 115 && lower_byte(b[2])
        == 111 && lower_byte(b[3]) == 110 {
        LogFormat::Json
    } else {
        LogFormat::Plain
    }
}

fn lower_byte_exec(b: u8) -> (r: u8)
    ensures
        r == lower_byte(b),
{
    if b >= 65 && b <= 90 {
        b + 32
    } else {
        b
    }
}

impl LogFormat {
    /// Parses a format name, ASCII-case-insensitively.
    pub fn from(name: &str) -> (r: LogFormat)
        ensures
            r == format_of_name(name.spec_bytes()),
    {
        let b = name.as_bytes();
        if b.len() == 4 && lower_byte_exec(b[0]) == 106 && lower_byte_exec(b[1]) == 115
            && lower_byte_exec(b[2]) == 111 && lower_byte_exec(b[3]) == 110 {
            LogFormat::Json
        } else {
            LogFormat::Plain
        }
    }

    /// The format's canonical name.
    pub fn name(&self) -> (r: String)
        ensures
            self == LogFormat::Json ==> r@ == "json"@,
            self == LogFormat::Plain ==> r@ == "plain"@,
    {
        match self {
            LogFormat::Json => "json".to_owned(),
            LogFormat::Plain => "plain".to_owned(),
        }
    }
}

} // verus!
