//! Lifecycle of the single live cluster session. The process holds at most
//! one session at a time in a slot; a successful connect atomically replaces
//! the slot's content, a failed connect leaves it untouched, and a
//! disconnect clears it. Sessions are identified here by the number the
//! manager issued for them; the caller keeps the matching transport handle
//! beside the manager, under one lock, so that every transition below is
//! atomic for concurrent observers.

use vstd::prelude::*;

verus! {

/// What a connect attempt reports back to the caller: cluster-refused
/// connects are reported, never fatal.
#[derive(Debug, PartialEq, Eq, Clone)]
pub struct ConnectResponse {
    pub ok: bool,
    pub message: String,
}

/// An operation needed a session while none is held.
#[derive(Debug, PartialEq, Eq, Clone)]
pub enum SessionError {
    NoActiveSession,
}

/// Everything a successful connect decides: the response to report, the
/// number of the session now live, and the prior session to close, if one
/// was held.
#[derive(Debug, PartialEq, Eq, Clone)]
pub struct ConnectSwap {
    pub response: ConnectResponse,
    pub session_id: u64,
    pub close_id: Option<u64>,
}

/// The credentials a connect uses: a username and a password when both were
/// supplied, anonymous otherwise — credentials are all-or-nothing.
#[derive(Debug, PartialEq, Eq, Clone)]
pub enum CredentialPolicy {
    Anonymous,
    UserPassword { username: String, password: String },
}

/// Builds the credential policy of a connect request: one credential
/// without the other counts as no credentials.
pub fn credential_policy(username: Option<String>, password: Option<String>) -> (r:
    CredentialPolicy)
    ensures
        r == (match (username, password) {
            (Some(u), Some(p)) => CredentialPolicy::UserPassword { username: u, password: p },
            _ => CredentialPolicy::Anonymous,
        }),
{
    match (username, password) {
        (Some(u), Some(p)) => CredentialPolicy::UserPassword { username: u, password: p },
        _ => CredentialPolicy::Anonymous,
    }
}

/// The slot that owns the one live session. `slot` holds the number of the
/// live session, `next_id` the number the next session will get, and
/// `closed` the numbers of every session that was handed out for closing.
pub struct SessionManager {
    pub slot: Option<u64>,
    pub next_id: u64,
    pub closed: Ghost<Set<u64>>,
}

impl SessionManager {
    /// Numbers are issued in order, and the live session is never one that
    /// was handed out for closing.
    pub open spec fn wf(&self) -> bool {
        &&& (self.slot matches Some(id) ==> id < self.next_id && !self.closed@.contains(id))
        &&& (forall|id: u64| self.closed@.contains(id) ==> id < self.next_id)
    }

    /// A manager that holds no session.
    pub fn new() -> (m: SessionManager)
        ensures
            m.wf(),
            m.slot is None,
            m.next_id == 0,
            m.closed@ == Set::<u64>::empty(),
    {
        SessionManager { slot: None, next_id: 0, closed: Ghost(Set::empty()) }
    }

    /// A connect succeeded: atomically replaces any prior session with the
    /// new one and hands the prior one out for closing.
    pub fn connect_succeeded(&mut self) -> (r: ConnectSwap)
        requires
            old(self).wf(),
            old(self).next_id < u64::MAX,
        ensures
            final (self).wf(),
            r.response.ok,
            r.response.message@ == "Connected"@,
            r.session_id == old(self).next_id,
            final (self).slot == Some(r.session_id),
            r.close_id == old(self).slot,
            final (self).next_id == old(self).next_id + 1,
            final (self).closed@ == (match old(self).slot {
                Some(id) => old(self).closed@.insert(id),
                None => old(self).closed@,
            }),
            !final (self).closed@.contains(r.session_id),
    {
        let id = self.next_id;
        let prior = self.slot;
        if let Some(p) = prior {
            proof {
                self.closed@ = self.closed@.insert(p);
            }
        }
        self.slot = Some(id);
        self.next_id = self.next_id + 1;
        ConnectSwap {
            response: ConnectResponse { ok: true, message: String::from_str("Connected") },
            session_id: id,
            close_id: prior,
        }
    }

    /// A connect failed: the cause is reported and any prior session is left
    /// exactly as it was, still connectable and usable.
    pub fn connect_failed(&mut self, message: String) -> (r: ConnectResponse)
        ensures
            *final (self) == *old(self),
            !r.ok,
            r.message@ == message@,
    {
        ConnectResponse { ok: false, message }
    }

    /// Closes the current session: clears the slot and hands the session out
    /// for closing; fails when none is held.
    pub fn disconnect(&mut self) -> (r: Result<u64, SessionError>)
        requires
            old(self).wf(),
        ensures
            final (self).wf(),
            match r {
                Ok(id) => {
                    &&& old(self).slot == Some(id)
                    &&& final (self).slot is None
                    &&& final (self).next_id == old(self).next_id
                    &&& final (self).closed@ == old(self).closed@.insert(id)
                },
                Err(e) => {
                    &&& e == SessionError::NoActiveSession
                    &&& old(self).slot is None
                    &&& *final (self) == *old(self)
                },
            },
    {
        match self.slot {
            Some(id) => {
                self.slot = None;
                proof {
                    self.closed@ = self.closed@.insert(id);
                }
                Ok(id)
            },
            None => Err(SessionError::NoActiveSession),
        }
    }

    /// The only way other components obtain a session: the number of the
    /// live session, or the error every session-needing operation reports
    /// when none is held.
    pub fn current_session(&self) -> (r: Result<u64, SessionError>)
        ensures
            match r {
                Ok(id) => self.slot == Some(id),
                Err(e) => e == SessionError::NoActiveSession && self.slot is None,
            },
    {
        match self.slot {
            Some(id) => Ok(id),
            None => Err(SessionError::NoActiveSession),
        }
    }
}

/// Law: a well-formed manager never holds a session that was handed out for
/// closing, so no caller can observe a closed-but-still-referenced session,
/// however connects, disconnects and lookups interleave.
pub proof fn lemma_live_session_not_closed(m: SessionManager)
    requires
        m.wf(),
    ensures
        m.slot matches Some(id) ==> !m.closed@.contains(id),
{
}

} // verus!
