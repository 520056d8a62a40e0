//! What to do after each reply of a room-service call when the token may have expired.
//!
//! Every call is sent with the cached token. A reply saying the caller is not authenticated
//! (e.g. after a server restart) triggers one re-login with the stored credentials and, when
//! that gives a new token, one more send. Peer registration also retries other failures a
//! few times, waiting between tries. The calls themselves, the waiting and the re-login
//! happen outside; these functions only decide the next step.
use vstd::prelude::*;
use vstd::string::StringExecFns;

verus! {

/// How a call came back.
#[derive(Debug, Clone, Copy, PartialEq, Eq, Structural)]
pub enum CallReply {
    /// The call succeeded.
    Success,
    /// The server refused the token.
    Unauthenticated,
    /// Any other failure.
    Failed,
}

/// The next step of a call.
#[derive(Debug, Clone, Copy, PartialEq, Eq, Structural)]
pub enum CallStep {
    /// The call succeeded: use its reply.
    Succeed,
    /// The call failed for good.
    Fail,
    /// Log in again with the stored credentials.
    Relogin,
    /// Send the call again now (with the new token).
    Resend,
    /// Wait [`REGISTER_RETRY_DELAY_MS`] and send the call again.
    RetryAfterDelay,
}

/// Attempts of a peer registration, the first included.
pub const REGISTER_ATTEMPTS: u32 = 4;

/// Wait between two registration attempts, in milliseconds.
pub const REGISTER_RETRY_DELAY_MS: u32 = 500;

/// The step after a reply of a call that is sent at most twice: a refused token leads to
/// one re-login, unless one was already tried.
pub open spec fn single_call_reply_step(relogged: bool, reply: CallReply) -> CallStep {
    match reply {
        CallReply::Success => CallStep::Succeed,
        CallReply::Unauthenticated => if relogged {
            CallStep::Fail
        } else {
            CallStep::Relogin
        },
        CallReply::Failed => CallStep::Fail,
    }
}

/// The step after a re-login: send again with the new token, or give up without one.
pub open spec fn relogin_step(got_token: bool) -> CallStep {
    if got_token {
        CallStep::Resend
    } else {
        CallStep::Fail
    }
}

/// The step after a reply of a call that is sent at most twice (join, start, arrival report,
/// peer resolution, user lookup). `relogged` says whether this reply answers the send that
/// followed a re-login.
pub fn single_call_after_reply(relogged: bool, reply: CallReply) -> (r: CallStep)
    ensures
        r == single_call_reply_step(relogged, reply),
{
    match reply {
        CallReply::Success => CallStep::Succeed,
        CallReply::Unauthenticated => if relogged {
            CallStep::Fail
        } else {
            CallStep::Relogin
        },
        CallReply::Failed => CallStep::Fail,
    }
}

/// The step after a re-login attempt.
pub fn after_relogin(got_token: bool) -> (r: CallStep)
    ensures
        r == relogin_step(got_token),
{
    if got_token {
        CallStep::Resend
    } else {
        CallStep::Fail
    }
}

/// Progress of a peer registration: the index of the attempt under way (from 0) and whether
/// a re-login was tried.
#[derive(Debug, Clone, Copy, PartialEq, Eq, Structural)]
pub struct RegisterRetry {
    pub attempt: u32,
    pub relogin_attempted: bool,
}

/// The registration state and step after a reply to attempt `s.attempt`.
pub open spec fn register_reply_step(s: RegisterRetry, reply: CallReply) -> (RegisterRetry, CallStep) {
    match reply {
        CallReply::Success => (s, CallStep::Succeed),
        CallReply::Unauthenticated if !s.relogin_attempted => (
            RegisterRetry { relogin_attempted: true, ..s },
            CallStep::Relogin,
        ),
        _ => if s.attempt + 1 < REGISTER_ATTEMPTS {
            (RegisterRetry { attempt: (s.attempt + 1) as u32, ..s }, CallStep::RetryAfterDelay)
        } else {
            (s, CallStep::Fail)
        },
    }
}

/// The registration state and step after a re-login: a new token moves on to the next
/// attempt at once, when one is left.
pub open spec fn register_relogin_step(s: RegisterRetry, got_token: bool) -> (RegisterRetry, CallStep) {
    if !got_token {
        (s, CallStep::Fail)
    } else if s.attempt + 1 < REGISTER_ATTEMPTS {
        (RegisterRetry { attempt: (s.attempt + 1) as u32, ..s }, CallStep::Resend)
    } else {
        (s, CallStep::Fail)
    }
}

impl RegisterRetry {
    /// The first attempt, no re-login tried.
    pub fn new() -> (r: Self)
        ensures
            r.attempt == 0,
            !r.relogin_attempted,
    {
        RegisterRetry { attempt: 0, relogin_attempted: false }
    }

    /// Records the reply to the current attempt and gives the next step.
    pub fn on_reply(&mut self, reply: CallReply) -> (r: CallStep)
        requires
            old(self).attempt < REGISTER_ATTEMPTS,
        ensures
            (*final(self), r) == register_reply_step(*old(self), reply),
    {
        match reply {
            CallReply::Success => CallStep::Succeed,
            CallReply::Unauthenticated if !self.relogin_attempted => {
                self.relogin_attempted = true;
                CallStep::Relogin
            },
            _ => {
                if self.attempt + 1 < REGISTER_ATTEMPTS {
                    self.attempt = self.attempt + 1;
                    CallStep::RetryAfterDelay
                } else {
                    CallStep::Fail
                }
            },
        }
    }

    /// Records the outcome of the re-login and gives the next step.
    pub fn on_relogin(&mut self, got_token: bool) -> (r: CallStep)
        requires
            old(self).attempt < REGISTER_ATTEMPTS,
        ensures
            (*final(self), r) == register_relogin_step(*old(self), got_token),
    {
        if !got_token {
            CallStep::Fail
        } else if self.attempt + 1 < REGISTER_ATTEMPTS {
            self.attempt = self.attempt + 1;
            CallStep::Resend
        } else {
            CallStep::Fail
        }
    }
}

/// A call sent at most twice logs in again at most once: the reply to the send after a
/// re-login never asks for another one.
pub proof fn law_single_call_relogs_once(reply: CallReply)
    ensures
        single_call_reply_step(true, reply) != CallStep::Relogin,
        single_call_reply_step(true, reply) != CallStep::Resend,
{
}

/// Every step of a registration keeps the attempt index below the limit and never lowers
/// it; a re-login is asked for only when none was tried, and the flag then stays set. Each
/// new send moves to the next attempt, so at most [`REGISTER_ATTEMPTS`] sends and one
/// re-login happen.
pub proof fn law_register_bounded(s: RegisterRetry, reply: CallReply, got_token: bool)
    requires
        s.attempt < REGISTER_ATTEMPTS,
    ensures
        register_reply_step(s, reply).0.attempt < REGISTER_ATTEMPTS,
        register_reply_step(s, reply).0.attempt >= s.attempt,
        register_reply_step(s, reply).1 == CallStep::Relogin ==> !s.relogin_attempted
            && register_reply_step(s, reply).0.relogin_attempted,
        s.relogin_attempted ==> register_reply_step(s, reply).0.relogin_attempted,
        register_reply_step(s, reply).1 == CallStep::RetryAfterDelay
            ==> register_reply_step(s, reply).0.attempt == s.attempt + 1,
        register_relogin_step(s, got_token).0.attempt < REGISTER_ATTEMPTS,
        register_relogin_step(s, got_token).0.relogin_attempted == s.relogin_attempted,
        register_relogin_step(s, got_token).1 == CallStep::Resend ==> register_relogin_step(
            s,
            got_token,
        ).0.attempt == s.attempt + 1,
        register_relogin_step(s, got_token).1 != CallStep::Relogin,
{
}

/// The authorization header value sent with a call: `Bearer ` and the token, when there is
/// one.
pub fn bearer_value(token: &Option<String>) -> (r: Option<String>)
    ensures
        match token {
            Some(t) => r is Some && r->0@ == "Bearer "@ + t@,
            None => r is None,
        },
{
    match token {
        Some(t) => {
            let mut v = String::from_str("Bearer ");
            v.append(t.as_str());
            Some(v)
        },
        None => None,
    }
}

/// The address of the room and user services for a page served from `origin`.
pub fn grpc_endpoint(origin: &str) -> (r: String)
    ensures
        r@ == origin@ + "/grpc"@,
{
    let mut v = String::from_str(origin);
    v.append("/grpc");
    v
}

} // verus!
