//! The library's failure taxonomy: calendar parse failures and the
//! errors an API call can surface.

use vstd::prelude::*;

use crate::strings::{dec_str, dec_str_signed};

verus! {

/// Why a calendar-period string failed to parse.
#[derive(Clone, Copy, Debug, PartialEq, Eq, Structural)]
pub enum ParseError {
    /// The input was not a valid `yyyymm` month.
    ExpectsYearMonth,
    /// The input was not a valid `yyyymmdd` date.
    ExpectsYearMonthDay,
}

impl ParseError {
    /// The human-readable expectation carried by the failure.
    pub fn message(&self) -> (s: &'static str)
        ensures
            *self == ParseError::ExpectsYearMonth ==> s@ == "Failed to parse date, expects format 'yyyymm'"@,
            *self == ParseError::ExpectsYearMonthDay ==> s@ == "Failed to parse date, expects format 'yyyymmdd'"@,
    {
        match self {
            ParseError::ExpectsYearMonth => "Failed to parse date, expects format 'yyyymm'",
            ParseError::ExpectsYearMonthDay => "Failed to parse date, expects format 'yyyymmdd'",
        }
    }
}

/// A failure of an API call, as surfaced to the caller.
#[derive(Clone, Debug, PartialEq)]
pub enum TuyaError {
    /// The configured host plus endpoint did not form a valid URL; the
    /// field carries the URL parser's own diagnostic.
    HostUrlParse(String),
    /// The platform reported failure in its response envelope.
    RequestError { msg: String, code: i32, t: u64, tid: String },
    /// A transport-level failure, carried as the transport's message.
    RequestFailure(String),
}

/// The rendered diagnostic for an error.
pub open spec fn spec_error_message(e: TuyaError) -> Seq<char> {
    match e {
        TuyaError::HostUrlParse(m) => "Host URL failed to parse: "@ + m@,
        TuyaError::RequestError { msg, code, t, tid } => "Tuya request was unsuccesful:\n\tmsg: "@
            + msg@ + "\n\tcode: "@ + dec_str_signed(code as int) + "\n\tt: "@ + dec_str(t as nat)
            + "\n\ttid: "@ + tid@
            + "\nSee https://developer.tuya.com/en/docs/iot/error-code?id=K989ruxx88swc for more information"@,
        TuyaError::RequestFailure(m) => m@,
    }
}

impl TuyaError {
    /// Renders the error for display, as `spec_error_message` describes.
    pub fn to_message(&self) -> (s: String)
        ensures
            s@ == spec_error_message(*self),
    {
        match self {
            TuyaError::HostUrlParse(m) => {
                let mut s = String::new();
                s.append("Host URL failed to parse: ");
                s.append(m.as_str());
                proof {
                    assert(s@ =~= spec_error_message(*self));
                }
                s
            },
            TuyaError::RequestError { msg, code, t, tid } => {
                let mut s = String::new();
                s.append("Tuya request was unsuccesful:\n\tmsg: ");
                s.append(msg.as_str());
                s.append("\n\tcode: ");
                let code_str = crate::strings::i32_to_string(*code);
                s.append(code_str.as_str());
                s.append("\n\tt: ");
                let t_str = crate::strings::u128_to_string(*t as u128);
                s.append(t_str.as_str());
                s.append("\n\ttid: ");
                s.append(tid.as_str());
                s.append(
                    "\nSee https://developer.tuya.com/en/docs/iot/error-code?id=K989ruxx88swc for more information",
                );
                proof {
                    assert(s@ =~= spec_error_message(*self));
                }
                s
            },
            TuyaError::RequestFailure(m) => {
                let mut s = String::new();
                s.append(m.as_str());
                proof {
                    assert(s@ =~= spec_error_message(*self));
                }
                s
            },
        }
    }
}

} // verus!
