//! The failures that the library reports.

use vstd::prelude::*;
use vstd::string::StringExecFns;

verus! {

/// Why an operation of the library failed.
#[derive(Debug)]
pub enum Failure {
    /// A transport failure or a response outside the 2xx range, with the URL asked for.
    Network { url: String, reason: String },
    /// A text that was to be fetched is no URL.
    InvalidUrl { url: String },
    /// The remote side kept throttling after every allowed escalation.
    RateLimitExhausted { url: String },
    /// An archive lacks an expected entry, or one of its documents is malformed.
    Format { reason: String },
    /// Bytes that are no image the library handles, or a page served in place of one.
    ImageFormat { reason: String },
    /// More new or updated chapters than a 16-bit count can hold.
    CountOverflow,
    /// Reading or writing the cache failed.
    CacheIo { reason: String },
    /// No source handles the book.
    Unsupported { message: String },
    /// A source adapter failed.
    Source { reason: String },
}

/// The text of the message for a failure of the given kind.
pub open spec fn message_text(e: Failure) -> Seq<char> {
    match e {
        Failure::Network { url, reason } => "Broken link : "@ + reason@ + " (URL: "@ + url@ + ")"@,
        Failure::InvalidUrl { url } => "Not a URL : "@ + url@,
        Failure::RateLimitExhausted { url } => "Too many requests, giving up (URL: "@ + url@ + ")"@,
        Failure::Format { reason } => "Malformed e-book : "@ + reason@,
        Failure::ImageFormat { reason } => reason@,
        Failure::CountOverflow =>
            "There is way too many new chapters (more than 50_000), something probably got wrong"@,
        Failure::CacheIo { reason } => "Cache failure : "@ + reason@,
        Failure::Unsupported { message } => message@,
        Failure::Source { reason } => reason@,
    }
}

impl Failure {
    /// The message to show for this failure.
    pub fn message(&self) -> (r: String)
        ensures
            r@ == message_text(*self),
    {
        match self {
            Failure::Network { url, reason } => {
                let mut m = String::from_str("Broken link : ");
                m.append(reason.as_str());
                m.append(" (URL: ");
                m.append(url.as_str());
                m.append(")");
                m
            },
            Failure::InvalidUrl { url } => {
                let mut m = String::from_str("Not a URL : ");
                m.append(url.as_str());
                m
            },
            Failure::RateLimitExhausted { url } => {
                let mut m = String::from_str("Too many requests, giving up (URL: ");
                m.append(url.as_str());
                m.append(")");
                m
            },
            Failure::Format { reason } => {
                let mut m = String::from_str("Malformed e-book : ");
                m.append(reason.as_str());
                m
            },
            Failure::ImageFormat { reason } => reason.clone(),
            Failure::CountOverflow => String::from_str(
                "There is way too many new chapters (more than 50_000), something probably got wrong",
            ),
            Failure::CacheIo { reason } => {
                let mut m = String::from_str("Cache failure : ");
                m.append(reason.as_str());
                m
            },
            Failure::Unsupported { message } => message.clone(),
            Failure::Source { reason } => reason.clone(),
        }
    }
}

} // verus!
