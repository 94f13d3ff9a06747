//! The error taxonomy of the crate.

use vstd::prelude::*;

verus! {

/// Everything that can go wrong while fetching and decoding a plan.
///
/// Transport failures: [`MensaError::RequestFailed`] when the network call
/// cannot complete at all, [`MensaError::UnexpectedStatus`] when the server
/// answers with a status other than 200. Decoding failures:
/// [`MensaError::MalformedDocument`] for a body that is not well-formed XML,
/// [`MensaError::SchemaMismatch`] when a required element or attribute is
/// missing. Date failures: [`MensaError::MalformedDate`] when a date string
/// does not split into three integer fields, [`MensaError::InvalidDate`] when
/// the fields do not form a calendar date. [`MensaError::UnknownLocation`]
/// names a location identifier outside the catalog, and
/// [`MensaError::UnknownWeekday`] a string that names no weekday.
#[derive(Debug, Clone, Copy, PartialEq, Eq, Structural)]
pub enum MensaError {
    RequestFailed,
    UnexpectedStatus(u16),
    MalformedDocument,
    SchemaMismatch,
    MalformedDate,
    InvalidDate,
    UnknownLocation,
    UnknownWeekday,
}

impl MensaError {
    /// A short human-readable description, one per variant.
    pub fn message(&self) -> (r: &'static str)
        ensures
            r@ == spec_message(*self),
    {
        match *self {
            MensaError::RequestFailed => "failed to send api request",
            MensaError::UnexpectedStatus(_) => "status code not OK",
            MensaError::MalformedDocument => "response body is not well-formed xml",
            MensaError::SchemaMismatch => "xml lacks a required element or attribute",
            MensaError::MalformedDate => "date string is not three dot-separated integers",
            MensaError::InvalidDate => "integers do not form a calendar date",
            MensaError::UnknownLocation => "location identifier is not in the catalog",
            MensaError::UnknownWeekday => "string names no weekday",
        }
    }
}

/// The description [`MensaError::message`] returns for each variant.
pub open spec fn spec_message(e: MensaError) -> Seq<char> {
    match e {
        MensaError::RequestFailed => "failed to send api request"@,
        MensaError::UnexpectedStatus(_) => "status code not OK"@,
        MensaError::MalformedDocument => "response body is not well-formed xml"@,
        MensaError::SchemaMismatch => "xml lacks a required element or attribute"@,
        MensaError::MalformedDate => "date string is not three dot-separated integers"@,
        MensaError::InvalidDate => "integers do not form a calendar date"@,
        MensaError::UnknownLocation => "location identifier is not in the catalog"@,
        MensaError::UnknownWeekday => "string names no weekday"@,
    }
}

} // verus!
