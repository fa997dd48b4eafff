use vstd::prelude::*;

verus! {

/// Failure taxonomy of the federation engine.
///
/// Verification and fetch failures are terminal for a single inbound
/// message; they are never retried by this node and never surface internal
/// detail to the remote sender.
#[derive(Clone, Copy, Debug, PartialEq, Eq, Structural)]
pub enum Error {
    /// A signature claims to cover a header that the request does not carry,
    /// or the signature header itself cannot be parsed.
    MalformedSignature,
    /// The expected authorization header is absent.
    NoHeader,
    /// The authorization header carries no scheme.
    NoType,
    /// The authorization header carries a scheme but no value.
    NoValue,
    /// The digest claimed by the request does not match the body.
    DigestMismatch,
    /// Signature verification failed, even after a key refetch.
    InvalidSignature,
    /// The target's owning instance is blocked; no network call was made.
    Blocked,
    /// An outbound fetch failed at the transport level.
    FetchError,
    /// A fetched document declares a type other than the expected one.
    TypeMismatch,
    /// The referenced object is unknown to this node.
    NotFound,
    /// The domain store rejected a read or a write.
    StoreError,
}

impl Error {
    /// What `message` returns for each variant.
    pub open spec fn spec_message(self) -> Seq<char> {
        match self {
            Error::MalformedSignature => "malformed signature"@,
            Error::NoHeader => "no authorization header"@,
            Error::NoType => "no authorization type"@,
            Error::NoValue => "no authorization value"@,
            Error::DigestMismatch => "digest mismatch"@,
            Error::InvalidSignature => "invalid signature"@,
            Error::Blocked => "instance is blocked"@,
            Error::FetchError => "fetch error"@,
            Error::TypeMismatch => "unexpected document type"@,
            Error::NotFound => "not found"@,
            Error::StoreError => "store error"@,
        }
    }

    /// Short diagnostic label, retained only for logging: the protocol's
    /// external reply stays uniform whatever the cause.
    pub fn message(&self) -> (r: &'static str)
        ensures
            r@ == self.spec_message(),
    {
        match self {
            Error::MalformedSignature => "malformed signature",
            Error::NoHeader => "no authorization header",
            Error::NoType => "no authorization type",
            Error::NoValue => "no authorization value",
            Error::DigestMismatch => "digest mismatch",
            Error::InvalidSignature => "invalid signature",
            Error::Blocked => "instance is blocked",
            Error::FetchError => "fetch error",
            Error::TypeMismatch => "unexpected document type",
            Error::NotFound => "not found",
            Error::StoreError => "store error",
        }
    }
}

} // verus!
