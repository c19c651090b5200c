//! The upstream resolver's admission gate and reply validation.
//!
//! The HTTPS POST itself is asynchronous I/O and lives outside the library;
//! what is verified here is the admission discipline — at most
//! `max_outstanding_requests` calls are in flight at once, extra load is shed
//! with `TooManyOutstanding` — and the acceptance rules for a reply: only
//! status 200 with a content length no larger than a DNS message may carry.

use vstd::prelude::*;

use crate::config::ClientConfiguration;

verus! {

/// RFC 8484 caps a DNS-over-HTTPS payload at what a DNS message may hold.
pub const MAX_CONTENT_LENGTH: u64 = 65535;

/// Why an upstream exchange yielded no reply bytes.
#[derive(Clone, Copy, Debug, PartialEq, Eq)]
pub enum UpstreamError {
    /// The admission gate was full: load shed, not an upstream fault.
    TooManyOutstanding,
    /// The exchange ran past the configured deadline.
    Timeout,
    /// The upstream answered with a status other than 200.
    HttpError(u16),
    /// The reply had no content length, or one over `MAX_CONTENT_LENGTH`.
    InvalidContentLength,
    /// The transport failed underneath the exchange.
    Transport,
}

impl UpstreamError {
    /// Shed load is not an upstream fault; everything else is counted as a
    /// request error.
    pub fn counts_as_request_error(&self) -> (r: bool)
        ensures
            r == (*self != UpstreamError::TooManyOutstanding),
    {
        match self {
            UpstreamError::TooManyOutstanding => false,
            _ => true,
        }
    }
}

/// Accepts a content length only when it is present and within bounds.
pub fn validate_response_content_length(content_length: Option<u64>) -> (r: Result<(), UpstreamError>)
    ensures
        r is Ok <==> (content_length matches Some(l) && l <= MAX_CONTENT_LENGTH),
        r matches Err(e) ==> e == UpstreamError::InvalidContentLength,
{
    match content_length {
        Some(l) => {
            if l > MAX_CONTENT_LENGTH {
                Err(UpstreamError::InvalidContentLength)
            } else {
                Ok(())
            }
        },
        None => Err(UpstreamError::InvalidContentLength),
    }
}

/// Accepts a reply's status line and content length: status must be 200, the
/// length present and within bounds; the status is judged first.
pub fn validate_upstream_response(status: u16, content_length: Option<u64>) -> (r: Result<(), UpstreamError>)
    ensures
        r is Ok <==> (status == 200 && (content_length matches Some(l) && l <= MAX_CONTENT_LENGTH)),
        status != 200 ==> r == Result::<(), UpstreamError>::Err(UpstreamError::HttpError(status)),
        status == 200 && r is Err ==> r == Result::<(), UpstreamError>::Err(UpstreamError::InvalidContentLength),
{
    if status != 200 {
        return Err(UpstreamError::HttpError(status));
    }
    validate_response_content_length(content_length)
}

/// The admission gate: a counter of in-flight upstream calls, bounded by the
/// configured width. `try_acquire` refuses rather than waits, so the number of
/// calls that have entered and not yet exited never exceeds
/// `max_outstanding_requests`.
pub struct UpstreamGate {
    outstanding: usize,
    max_outstanding: usize,
}

impl UpstreamGate {
    pub closed spec fn spec_outstanding(&self) -> int {
        self.outstanding as int
    }

    pub closed spec fn spec_max_outstanding(&self) -> int {
        self.max_outstanding as int
    }

    /// In-flight calls never exceed the admission bound.
    pub open spec fn wf(&self) -> bool {
        0 < self.spec_max_outstanding() && self.spec_outstanding() <= self.spec_max_outstanding()
    }

    pub fn new(client_configuration: &ClientConfiguration) -> (r: UpstreamGate)
        requires
            client_configuration.wf(),
        ensures
            r.wf(),
            r.spec_outstanding() == 0,
            r.spec_max_outstanding() == client_configuration.max_outstanding_requests,
    {
        UpstreamGate { outstanding: 0, max_outstanding: client_configuration.max_outstanding_requests }
    }

    /// Takes a slot if one is free; refuses without waiting otherwise.
    pub fn try_acquire(&mut self) -> (r: bool)
        requires
            old(self).wf(),
        ensures
            final(self).wf(),
            final(self).spec_max_outstanding() == old(self).spec_max_outstanding(),
            r == (old(self).spec_outstanding() < old(self).spec_max_outstanding()),
            r ==> final(self).spec_outstanding() == old(self).spec_outstanding() + 1,
            !r ==> final(self).spec_outstanding() == old(self).spec_outstanding(),
    {
        if self.outstanding < self.max_outstanding {
            self.outstanding = self.outstanding + 1;
            true
        } else {
            false
        }
    }

    /// Gives a slot back; every exit path of an upstream call must do this
    /// exactly once for an acquired slot.
    pub fn release(&mut self)
        requires
            old(self).wf(),
            old(self).spec_outstanding() > 0,
        ensures
            final(self).wf(),
            final(self).spec_max_outstanding() == old(self).spec_max_outstanding(),
            final(self).spec_outstanding() == old(self).spec_outstanding() - 1,
    {
        self.outstanding = self.outstanding - 1;
    }

    pub fn outstanding(&self) -> (r: usize)
        ensures
            r == self.spec_outstanding(),
    {
        self.outstanding
    }
}

} // verus!
