//! Shared request and response shapes: ordered headers, the platform's
//! response envelope, and the result alias every call returns.

use vstd::prelude::*;

use crate::error::TuyaError;

verus! {

/// Request headers as (name, value) pairs, kept in insertion order.
#[derive(Debug)]
pub struct Headers(pub Vec<(String, String)>);

/// The view of a pair list as pairs of character sequences.
pub open spec fn pairs_view(v: Seq<(String, String)>) -> Seq<(Seq<char>, Seq<char>)> {
    v.map(|i: int, p: (String, String)| (p.0@, p.1@))
}

impl Headers {
    /// The headers as pairs of character sequences, in order.
    pub open spec fn spec_pairs(self) -> Seq<(Seq<char>, Seq<char>)> {
        pairs_view(self.0@)
    }
}

pub type TuyaResult<T> = Result<T, TuyaError>;

/// A fully built, signed request, ready for a transport to send.
#[derive(Debug)]
pub struct PreparedRequest {
    pub method: String,
    pub url: String,
    pub headers: Headers,
}

/// The platform's uniform response wrapper.
#[derive(Debug)]
pub struct TuyaResponse<T> {
    pub success: bool,
    pub result: Option<T>,
    pub code: Option<i32>,
    pub msg: Option<String>,
    pub t: u64,
    pub tid: String,
}

} // verus!
