//! Talking to the DNS daemon: when to try again, what to send, what to make of the reply.
use vstd::prelude::*;
use vstd::string::*;

use crate::network::error::NetworkError;
use crate::text::{decimal, decimal_text, trim, trimmed};

verus! {

/// Attempts to connect to the socket of the DNS daemon.
pub struct ConnectRetry {
    attempt: usize,
    retries: usize,
    delay_ms: u64,
}

/// What a `ConnectRetry` stands for.
pub struct ConnectState {
    /// The attempt that is being made, counted from one.
    pub attempt: nat,
    /// The number of attempts.
    pub retries: nat,
    /// How long to wait between two attempts.
    pub delay_ms: u64,
}

impl View for ConnectRetry {
    type V = ConnectState;

    closed spec fn view(&self) -> ConnectState {
        ConnectState {
            attempt: self.attempt as nat,
            retries: self.retries as nat,
            delay_ms: self.delay_ms,
        }
    }
}

impl ConnectRetry {
    /// The attempt is one of those that there are.
    #[verifier::type_invariant]
    closed spec fn wf(&self) -> bool {
        1 <= self.attempt <= self.retries
    }
}

/// What to do after an attempt that failed.
pub enum ConnectStep {
    /// Wait, then make the next attempt; `attempt` is the one that failed.
    Wait { attempt: usize, retries: usize, delay_ms: u64 },
    /// Make no more attempts.
    GiveUp { retries: usize },
}

/// What a `ConnectStep` stands for.
pub enum ConnectAction {
    Wait { attempt: nat, retries: nat, delay_ms: u64 },
    GiveUp { retries: nat },
}

impl View for ConnectStep {
    type V = ConnectAction;

    open spec fn view(&self) -> ConnectAction {
        match self {
            ConnectStep::Wait { attempt, retries, delay_ms } => ConnectAction::Wait {
                attempt: *attempt as nat,
                retries: *retries as nat,
                delay_ms: *delay_ms,
            },
            ConnectStep::GiveUp { retries } => ConnectAction::GiveUp { retries: *retries as nat },
        }
    }
}

/// The state before the first attempt.
pub open spec fn first_attempt(retries: nat, delay_ms: u64) -> ConnectState {
    ConnectState { attempt: 1, retries, delay_ms }
}

/// The state after an attempt that failed.
pub open spec fn next_attempt(s: ConnectState) -> ConnectState {
    if s.attempt == s.retries {
        s
    } else {
        ConnectState { attempt: s.attempt + 1, ..s }
    }
}

/// What to do after an attempt that failed: give up if it was the last.
pub open spec fn after_failure(s: ConnectState) -> ConnectAction {
    if s.attempt == s.retries {
        ConnectAction::GiveUp { retries: s.retries }
    } else {
        ConnectAction::Wait { attempt: s.attempt, retries: s.retries, delay_ms: s.delay_ms }
    }
}

/// The attempts to connect, `retries` of them with `delay_ms` between two.
pub fn connect_dns_socket_with_retry(retries: usize, delay_ms: u64) -> (r: ConnectRetry)
    requires
        retries >= 1,
    ensures
        r@ == first_attempt(retries as nat, delay_ms),
        r@.attempt == 1 && r@.retries == retries && r@.delay_ms == delay_ms,
{
    ConnectRetry { attempt: 1, retries, delay_ms }
}

impl ConnectRetry {
    /// Takes note that an attempt failed.
    pub fn failed(&mut self) -> (r: ConnectStep)
        ensures
            r@ == after_failure(old(self)@),
            final(self)@ == next_attempt(old(self)@),
            1 <= final(self)@.attempt <= final(self)@.retries,
            final(self)@.retries == old(self)@.retries,
            final(self)@.delay_ms == old(self)@.delay_ms,
            old(self)@.attempt == old(self)@.retries ==> {
                &&& r matches ConnectStep::GiveUp { retries }
                &&& retries == old(self)@.retries
                &&& final(self)@.attempt == old(self)@.attempt
            },
            old(self)@.attempt < old(self)@.retries ==> {
                &&& r matches ConnectStep::Wait { attempt, retries, delay_ms }
                &&& attempt == old(self)@.attempt
                &&& retries == old(self)@.retries
                &&& delay_ms == old(self)@.delay_ms
                &&& final(self)@.attempt == old(self)@.attempt + 1
            },
    {
        proof {
            use_type_invariant(&*self);
        }
        if self.attempt == self.retries {
            ConnectStep::GiveUp { retries: self.retries }
        } else {
            let attempt: usize = self.attempt;
            self.attempt = attempt + 1;
            ConnectStep::Wait { attempt, retries: self.retries, delay_ms: self.delay_ms }
        }
    }
}

/// The state after `failures` attempts that failed.
pub open spec fn after_failures(s: ConnectState, failures: nat) -> ConnectState
    decreases failures,
{
    if failures == 0 {
        s
    } else {
        next_attempt(after_failures(s, (failures - 1) as nat))
    }
}

/// There are exactly `retries` attempts: each failure before the last is followed by a wait of
/// `delay_ms`, and the last one by giving up.
pub proof fn gives_up_after_the_last_attempt(retries: nat, delay_ms: u64, failures: nat)
    requires
        failures < retries,
    ensures
        ({
            let s = after_failures(first_attempt(retries, delay_ms), failures);
            &&& s.attempt == failures + 1
            &&& after_failure(s) == (if failures + 1 == retries {
                ConnectAction::GiveUp { retries }
            } else {
                ConnectAction::Wait { attempt: failures + 1, retries, delay_ms }
            })
        }),
    decreases failures,
{
    if failures > 0 {
        gives_up_after_the_last_attempt(retries, delay_ms, (failures - 1) as nat);
    }
}

impl ConnectAction {
    /// What is said of a failure for which the system gives `reason`.
    pub open spec fn notice(self, reason: Seq<char>) -> Seq<char> {
        match self {
            ConnectAction::Wait { attempt, retries, delay_ms } => {
                "Attempt "@ + decimal(attempt) + "/"@ + decimal(retries)
                    + " failed to connect DNS socket: "@ + reason + ". Retrying in "@ + decimal(
                    delay_ms as nat,
                ) + " ms..."@
            },
            ConnectAction::GiveUp { retries } => {
                "Fatal error: failed to connect local DNS SOCKET after "@ + decimal(retries)
                    + " attempts: "@ + reason
            },
        }
    }
}

impl ConnectStep {
    /// What is said of a failure for which the system gives `reason`: an error where no
    /// attempt is left, and a line of text where there is one.
    pub fn notice(&self, reason: String) -> (r: Result<String, NetworkError>)
        ensures
            match r {
                Ok(text) => self is Wait && text@ == self@.notice(reason@),
                Err(error) => self is GiveUp && error.text() == self@.notice(reason@),
            },
            self matches ConnectStep::Wait { attempt, retries, delay_ms } ==> {
                &&& r matches Ok(text)
                &&& text@ == "Attempt "@ + decimal(*attempt as nat) + "/"@ + decimal(
                    *retries as nat,
                ) + " failed to connect DNS socket: "@ + reason@ + ". Retrying in "@ + decimal(
                    *delay_ms as nat,
                ) + " ms..."@
            },
            self matches ConnectStep::GiveUp { retries } ==> {
                &&& r matches Err(NetworkError::Unreachable { attempts, reason: why })
                &&& attempts == retries
                &&& why@ == reason@
            },
    {
        match self {
            ConnectStep::Wait { attempt, retries, delay_ms } => Ok(
                "Attempt ".to_string().concat(decimal_text(*attempt as u64).as_str()).concat(
                    "/",
                ).concat(decimal_text(*retries as u64).as_str()).concat(
                    " failed to connect DNS socket: ",
                ).concat(reason.as_str()).concat(". Retrying in ").concat(
                    decimal_text(*delay_ms).as_str(),
                ).concat(" ms..."),
            ),
            ConnectStep::GiveUp { retries } => Err(
                NetworkError::Unreachable { attempts: *retries, reason },
            ),
        }
    }
}

/// A message as it goes over the socket: one line.
pub fn frame_message(json: Vec<u8>) -> (r: Vec<u8>)
    ensures
        r@ == json@.push(0x0a),
{
    let mut line = json;
    line.push(0x0a);
    line
}

/// Whether the DNS daemon took a record, by the line with which it replied.
pub fn check_reply(srv_name: &str, reply: &str) -> (r: Result<(), NetworkError>)
    ensures
        r is Ok <==> trimmed(reply@) == "ok"@,
        r matches Err(error) ==> error matches NetworkError::RecordRefused {
            service,
            reply: text,
        } && service@ == srv_name@ && text@ == trimmed(reply@),
{
    let text = trim(reply);
    if text == "ok".to_string() {
        Ok(())
    } else {
        Err(NetworkError::RecordRefused { service: srv_name.to_string(), reply: text })
    }
}

} // verus!
