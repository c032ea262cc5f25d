use vstd::prelude::*;

use crate::text::prefixed_display;

verus! {

/// The SDK's error type, carried in `MilkyClientError::Sdk`.
#[verifier::external_type_specification]
#[verifier::external_body]
pub struct ExMilkyError(milky_rust_sdk::MilkyError);

/// Why a call to the upstream Milky side failed.
#[derive(Debug)]
pub enum MilkyClientError {
    Sdk(milky_rust_sdk::MilkyError),
    BadSegment(String),
    NotConnected,
}

/// Whether `s` is the text `Display` writes for `e`.
pub open spec fn client_error_text(e: MilkyClientError, s: Seq<char>) -> bool {
    match e {
        MilkyClientError::Sdk(x) => prefixed_display(s, "milky sdk: "@, &x),
        MilkyClientError::BadSegment(m) => s == "bad segment: "@ + m@,
        MilkyClientError::NotConnected => s == "not connected"@,
    }
}

impl MilkyClientError {
    /// The error's text, as its `Display` writes it.
    pub fn message(&self) -> (s: String)
        ensures
            client_error_text(*self, s@),
    {
        match self {
            MilkyClientError::Sdk(e) => {
                let d = e.to_string();
                let mut s = String::from_str("milky sdk: ");
                s.append(d.as_str());
                s
            },
            MilkyClientError::BadSegment(m) => {
                let mut s = String::from_str("bad segment: ");
                s.append(m.as_str());
                s
            },
            MilkyClientError::NotConnected => String::from_str("not connected"),
        }
    }
}

} // verus!
