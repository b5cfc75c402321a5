//! The authorization handshake state machine.
//!
//! The interactive flow opens a browser toward the authorization page and
//! waits for a single callback request carrying a `code` and `state` query
//! parameter.  The listener, the browser and the rendezvous live outside
//! this crate; what is modelled here is the life of the handshake — idle,
//! awaiting the callback, completed — and the rule that a callback missing
//! either parameter is fatal, since there is no recovery path.

use vstd::prelude::*;

verus! {

/// Where the handshake stands.
#[derive(PartialEq, Eq, Structural, Debug, Clone, Copy)]
pub enum AuthPhase {
    /// Not started.
    Idle,
    /// The listener is up and the caller is blocked on the callback.
    AwaitingCode,
    /// The code/state pair has been captured, exactly once.
    Completed,
}

/// The handshake failed.
#[derive(PartialEq, Eq, Structural, Debug, Clone, Copy)]
pub enum AuthError {
    /// The callback arrived without a `code` or without a `state`.
    MissingCallbackParams,
}

/// The transient state of one authorization handshake.
pub struct AuthHandshake {
    pub phase: AuthPhase,
    pub code: Option<String>,
    pub state: Option<String>,
}

impl AuthHandshake {
    /// A handshake holds a captured pair exactly in its completed phase.
    pub open spec fn wf(&self) -> bool {
        &&& self.phase is Completed <==> self.code is Some
        &&& self.phase is Completed <==> self.state is Some
    }

    /// A fresh, idle handshake.
    pub fn new() -> (r: Self)
        ensures
            r.phase is Idle,
            r.wf(),
    {
        AuthHandshake { phase: AuthPhase::Idle, code: None, state: None }
    }

    /// Start waiting for the callback.  From here the caller blocks until
    /// `on_callback` hands the pair over.
    pub fn begin(&mut self)
        requires
            old(self).phase is Idle,
            old(self).wf(),
        ensures
            final(self).phase is AwaitingCode,
            final(self).code == old(self).code,
            final(self).state == old(self).state,
            final(self).wf(),
    {
        self.phase = AuthPhase::AwaitingCode;
    }

    /// Take in the single callback.  With both parameters present the
    /// handshake completes — once and for all, since completion leaves the
    /// awaiting phase; with either missing it fails and stays where it was.
    pub fn on_callback(&mut self, code: Option<String>, state: Option<String>) -> (r: Result<
        (),
        AuthError,
    >)
        requires
            old(self).phase is AwaitingCode,
            old(self).wf(),
        ensures
            r is Ok <==> code is Some && state is Some,
            r is Ok ==> final(self).phase is Completed && final(self).code == code
                && final(self).state == state,
            r is Err ==> *final(self) == *old(self) && r == Err::<(), AuthError>(
                AuthError::MissingCallbackParams,
            ),
            final(self).wf(),
    {
        match (code, state) {
            (Some(c), Some(s)) => {
                self.phase = AuthPhase::Completed;
                self.code = Some(c);
                self.state = Some(s);
                Ok(())
            },
            _ => Err(AuthError::MissingCallbackParams),
        }
    }

    /// The captured pair, once the handshake has completed.
    pub fn captured(&self) -> (r: (&String, &String))
        requires
            self.phase is Completed,
            self.wf(),
        ensures
            Some(*r.0) == self.code,
            Some(*r.1) == self.state,
    {
        match (&self.code, &self.state) {
            (Some(c), Some(s)) => (c, s),
            _ => unreached(),
        }
    }
}

} // verus!
