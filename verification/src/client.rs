//! The client: owns the connection target, credentials and nonce state;
//! builds correlated requests and decides the send/retry policy.
//!
//! The HTTP transport itself lives outside this crate. The I/O layer
//! performs each POST and reports an [`AttemptOutcome`]; the functions
//! here decide what follows: retry once on an aborted pooled connection,
//! then decode and validate the correlation id.

use crate::codec::{decode_response, spec_decode_response};
use crate::error::{Error, TransportError};
use crate::{Request, Response, Value, ValueView};
use vstd::prelude::*;

verus! {

/// The model of an optional string.
pub open spec fn opt_str_view(o: Option<String>) -> Option<Seq<char>> {
    match o {
        Some(s) => Some(s@),
        None => None,
    }
}

/// A handle to a remote server: endpoint, optional credentials, and the
/// correlation counter. One client serves many exchanges.
///
/// The nonce is a plain field: a caller that shares one client across
/// threads must wrap the client in a mutual-exclusion lock.
#[derive(Debug)]
pub struct Client {
    url: String,
    user: Option<String>,
    pass: Option<String>,
    nonce: u64,
}

impl Client {
    /// The endpoint this client talks to.
    pub closed spec fn spec_url(&self) -> Seq<char> {
        self.url@
    }

    /// The configured user name, if any.
    pub closed spec fn spec_user(&self) -> Option<Seq<char>> {
        opt_str_view(self.user)
    }

    /// The configured password, if any.
    pub closed spec fn spec_pass(&self) -> Option<Seq<char>> {
        opt_str_view(self.pass)
    }

    /// The most recently issued nonce.
    pub closed spec fn spec_nonce(&self) -> u64 {
        self.nonce
    }

    /// Creates a new client. A password without a user name is
    /// disallowed; the other way around is fine.
    pub fn new(url: String, user: Option<String>, pass: Option<String>) -> (c: Client)
        requires
            pass is Some ==> user is Some,
        ensures
            c.spec_url() == url@,
            c.spec_user() == opt_str_view(user),
            c.spec_pass() == opt_str_view(pass),
            c.spec_nonce() == 0,
    {
        Client { url, user, pass, nonce: 0 }
    }

    /// Builds a request: the given method and parameters under a freshly
    /// minted numeric id, one past the previous.
    pub fn build_request(&mut self, name: String, params: Vec<Value>) -> (r: Request)
        requires
            old(self).spec_nonce() < i64::MAX as u64,
        ensures
            final(self).spec_nonce() == old(self).spec_nonce() + 1,
            final(self).spec_url() == old(self).spec_url(),
            final(self).spec_user() == old(self).spec_user(),
            final(self).spec_pass() == old(self).spec_pass(),
            r.method == name,
            r.params == params,
            r.id == Value::Num((old(self).spec_nonce() + 1) as i64),
            builds(*old(self), *final(self), r),
    {
        self.nonce = self.nonce + 1;
        Request { method: name, params, id: Value::Num(self.nonce as i64) }
    }

    /// Accessor for the last-used nonce.
    pub fn last_nonce(&self) -> (n: u64)
        ensures
            n == self.spec_nonce(),
    {
        self.nonce
    }

    /// The endpoint, for the I/O layer that performs the POST.
    pub fn url(&self) -> (r: &str)
        ensures
            r@ == self.spec_url(),
    {
        self.url.as_str()
    }

    /// The configured user name, for the I/O layer.
    pub fn user(&self) -> (r: &Option<String>)
        ensures
            opt_str_view(*r) == self.spec_user(),
    {
        &self.user
    }

    /// The configured password, for the I/O layer.
    pub fn pass(&self) -> (r: &Option<String>)
        ensures
            opt_str_view(*r) == self.spec_pass(),
    {
        &self.pass
    }
}

/// One build step: the nonce advanced by one and was issued as the
/// request's numeric id; target and credentials unchanged.
pub open spec fn builds(pre: Client, post: Client, r: Request) -> bool {
    &&& pre.spec_nonce() < i64::MAX as u64
    &&& post.spec_nonce() == pre.spec_nonce() + 1
    &&& post.spec_url() == pre.spec_url()
    &&& post.spec_user() == pre.spec_user()
    &&& post.spec_pass() == pre.spec_pass()
    &&& r@.id == ValueView::Num(pre.spec_nonce() + 1)
}

/// Two successive builds on one client yield strictly increasing
/// numeric ids, and the counter ends reflecting the most recent id, the
/// one `last_nonce` then reports.
pub proof fn lemma_nonce_monotonic(c0: Client, c1: Client, c2: Client, r1: Request, r2: Request)
    requires
        builds(c0, c1, r1),
        builds(c1, c2, r2),
    ensures
        r1@.id is Num && r2@.id is Num,
        r1@.id->Num_0 < r2@.id->Num_0,
        c2.spec_nonce() as int == r2@.id->Num_0,
{
}

/// What one transport attempt produced, as the I/O layer reports it.
#[derive(Debug)]
pub enum AttemptOutcome {
    /// The POST went through and the whole response body was read.
    Delivered(String),
    /// The transport failed before the exchange was established.
    TransportFailed(TransportError),
    /// The transport succeeded but reading the response stream failed.
    ReadFailed(String),
}

/// Which attempt just finished.
#[derive(Debug, Clone, Copy, PartialEq, Eq, Structural)]
pub enum SendPhase {
    /// The first POST of this exchange.
    First,
    /// The single retry after an aborted first POST.
    Retry,
}

/// What the I/O layer must do next.
#[derive(Debug)]
pub enum SendStep {
    /// Issue the POST again, with the same body and headers.
    Post,
    /// The exchange is over, with this outcome.
    Finished(Result<Response, Error>),
}

/// Decide what follows one transport attempt.
///
/// An aborted pooled connection on the first attempt is retried exactly
/// once; any other transport failure, and any failure on the retry, is
/// surfaced as `Transport`. A delivered body is decoded, and a response
/// whose id differs from the request's is discarded as `NonceMismatch`,
/// never handed to the caller.
pub fn send_step(request: &Request, phase: SendPhase, outcome: AttemptOutcome) -> (r: SendStep)
    ensures
        match outcome {
            AttemptOutcome::TransportFailed(e) => if phase == SendPhase::First && e.aborted {
                r is Post
            } else {
                r == SendStep::Finished(Err::<Response, Error>(Error::Transport(e)))
            },
            AttemptOutcome::ReadFailed(m) => r == SendStep::Finished(
                Err::<Response, Error>(Error::Io(m)),
            ),
            AttemptOutcome::Delivered(body) => match spec_decode_response(body@) {
                None => r == SendStep::Finished(Err::<Response, Error>(Error::Decode)),
                Some(rv) => if rv.id == request@.id {
                    r matches SendStep::Finished(Ok(resp)) && resp@ == rv
                } else {
                    r == SendStep::Finished(Err::<Response, Error>(Error::NonceMismatch))
                },
            },
        },
{
    match outcome {
        AttemptOutcome::Delivered(body) => {
            match decode_response(body.as_str()) {
                Ok(resp) => {
                    if resp.id.deep_eq(&request.id) {
                        SendStep::Finished(Ok(resp))
                    } else {
                        SendStep::Finished(Err(Error::NonceMismatch))
                    }
                },
                Err(e) => SendStep::Finished(Err(e)),
            }
        },
        AttemptOutcome::TransportFailed(e) => {
            if phase == SendPhase::First && e.aborted {
                SendStep::Post
            } else {
                SendStep::Finished(Err(Error::Transport(e)))
            }
        },
        AttemptOutcome::ReadFailed(m) => SendStep::Finished(Err(Error::Io(m))),
    }
}

impl Client {
    /// Resolve a whole exchange from the outcome of the first POST and,
    /// exactly when that one reports an aborted connection, the outcome
    /// of the single retry.
    ///
    /// A second aborted or failed attempt surfaces as `Transport`; there
    /// is no third attempt. A delivered body on either attempt is
    /// decoded and its id checked against the request's.
    pub fn send_request(&self, request: &Request, first: AttemptOutcome, retry: Option<
        AttemptOutcome,
    >) -> (r: Result<Response, Error>)
        requires
            (retry is Some) == (first matches AttemptOutcome::TransportFailed(e) && e.aborted),
        ensures
            match first {
                AttemptOutcome::TransportFailed(e) => if e.aborted {
                    match retry {
                        Some(AttemptOutcome::TransportFailed(e2)) => r == Err::<Response, Error>(
                            Error::Transport(e2),
                        ),
                        Some(AttemptOutcome::ReadFailed(m)) => r == Err::<Response, Error>(
                            Error::Io(m),
                        ),
                        Some(AttemptOutcome::Delivered(body)) => delivered_outcome(
                            *request,
                            body@,
                            r,
                        ),
                        None => false,
                    }
                } else {
                    r == Err::<Response, Error>(Error::Transport(e))
                },
                AttemptOutcome::ReadFailed(m) => r == Err::<Response, Error>(Error::Io(m)),
                AttemptOutcome::Delivered(body) => delivered_outcome(*request, body@, r),
            },
    {
        match send_step(request, SendPhase::First, first) {
            SendStep::Finished(r) => r,
            SendStep::Post => {
                match retry {
                    Some(second) => {
                        match send_step(request, SendPhase::Retry, second) {
                            SendStep::Finished(r) => r,
                            SendStep::Post => Err(Error::NonceMismatch),
                        }
                    },
                    None => Err(Error::NonceMismatch),
                }
            },
        }
    }
}

/// What a delivered body must resolve to: the decoded response exactly
/// when the body decodes and its id equals the request's; the exact
/// error otherwise.
pub open spec fn delivered_outcome(
    request: Request,
    body: Seq<char>,
    r: Result<Response, Error>,
) -> bool {
    match spec_decode_response(body) {
        None => r == Err::<Response, Error>(Error::Decode),
        Some(rv) => if rv.id == request@.id {
            r matches Ok(resp) && resp@ == rv
        } else {
            r == Err::<Response, Error>(Error::NonceMismatch)
        },
    }
}

} // verus!
