//! The resilient operation: a bounded-retry state machine over a composite
//! read-modify-write, and the composite operation it drives.

use vstd::prelude::*;
use vstd::string::StringExecFns;
use crate::types::{User, UpdateUserRequest, DatabaseError, StatCategory};
use crate::model::{UpdateView, ErrorView, apply_update, emails_normalized};
use crate::service::{UserService, bump};

verus! {

/// How many attempts the resilient operation is budgeted.
pub const MAX_ATTEMPTS: u8 = 3;

/// The resilient operation's control state.
#[derive(Debug, Clone, Copy, PartialEq, Eq, Structural)]
pub enum OpState {
    /// About to read the target, with this many attempts still allowed.
    Attempting { attempts_left: u8 },
    /// A transient failure was seen; waiting out the backoff before the
    /// next attempt.
    Retrying { attempts_left: u8 },
    /// The composite operation finished successfully.
    Succeeded,
    /// The operation failed for good: the target was missing, the write
    /// failed, or the budget ran out.
    FailedTerminal,
}

/// What one attempt observed.
#[derive(Debug, Clone, Copy, PartialEq, Eq, Structural)]
pub enum AttemptEvent {
    /// The read found no record: non-retryable, retrying cannot manufacture
    /// a missing record.
    Missing,
    /// The read failed transiently: retry while the budget lasts.
    Transient,
    /// The read succeeded and the follow-up write finished with this
    /// outcome; the write is not retried.
    Updated { ok: bool },
    /// The backoff delay elapsed.
    BackoffDone,
}

/// The transition relation of the bounded-retry state machine: a missing
/// target fails immediately with zero retries; a transient failure retries
/// while attempts remain and fails terminally once they run out; the
/// follow-up write's outcome is final either way.
pub open spec fn spec_retry_step(s: OpState, ev: AttemptEvent) -> OpState {
    match s {
        OpState::Attempting { attempts_left } => match ev {
            AttemptEvent::Missing => OpState::FailedTerminal,
            AttemptEvent::Transient => if attempts_left > 1 {
                OpState::Retrying { attempts_left: (attempts_left - 1) as u8 }
            } else {
                OpState::FailedTerminal
            },
            AttemptEvent::Updated { ok } => if ok {
                OpState::Succeeded
            } else {
                OpState::FailedTerminal
            },
            AttemptEvent::BackoffDone => s,
        },
        OpState::Retrying { attempts_left } => match ev {
            AttemptEvent::BackoffDone => OpState::Attempting { attempts_left },
            _ => s,
        },
        _ => s,
    }
}

/// One transition of the retry state machine.
pub fn retry_step(s: OpState, ev: AttemptEvent) -> (r: OpState)
    ensures
        r == spec_retry_step(s, ev),
{
    match s {
        OpState::Attempting { attempts_left } => match ev {
            AttemptEvent::Missing => OpState::FailedTerminal,
            AttemptEvent::Transient => if attempts_left > 1 {
                OpState::Retrying { attempts_left: attempts_left - 1 }
            } else {
                OpState::FailedTerminal
            },
            AttemptEvent::Updated { ok } => if ok {
                OpState::Succeeded
            } else {
                OpState::FailedTerminal
            },
            AttemptEvent::BackoffDone => s,
        },
        OpState::Retrying { attempts_left } => match ev {
            AttemptEvent::BackoffDone => OpState::Attempting { attempts_left },
            _ => s,
        },
        _ => s,
    }
}

/// The attempts the state machine still allows from state `s`.
pub open spec fn attempts_of(s: OpState) -> int {
    match s {
        OpState::Attempting { attempts_left } => attempts_left as int,
        OpState::Retrying { attempts_left } => attempts_left as int,
        _ => 0,
    }
}

impl UserService {
    /// The composite resilient operation: read the record, prefix its name
    /// with "Processed: ", and write the new name back, under the bounded
    /// retry budget. A present identifier succeeds within the budget; a
    /// missing one fails `NotFound` at once, with zero retries.
    pub fn complex_user_operation(&mut self, id: &str) -> (r: Result<User, DatabaseError>)
        requires
            old(self).wf(),
        ensures
            final(self).wf(),
            r is Ok <==> old(self)@.store.contains_key(id@),
            r matches Ok(u) ==> ({
                &&& u@ == apply_update(
                    old(self)@.store[id@],
                    UpdateView {
                        name: Some("Processed: "@ + old(self)@.store[id@].name),
                        email: None,
                        age: None,
                    },
                    final(self)@.last_ts,
                )
                &&& final(self)@.store == old(self)@.store.insert(id@, u@)
                &&& final(self)@.stats == bump(
                    bump(old(self)@.stats, StatCategory::Read),
                    StatCategory::Update,
                )
                &&& old(self)@.last_ts <= final(self)@.last_ts
            }),
            r matches Err(e) ==> e@ == ErrorView::NotFound && final(self)@ == old(self)@,
            emails_normalized(old(self)@.store) ==> emails_normalized(final(self)@.store),
    {
        let mut st = OpState::Attempting { attempts_left: MAX_ATTEMPTS };
        loop
            invariant
                old(self).wf(),
                self@ == old(self)@,
                st matches OpState::Attempting { attempts_left },
                1 <= attempts_of(st) <= MAX_ATTEMPTS,
            decreases attempts_of(st),
        {
            match self.get_user(id) {
                Ok(found) => {
                    let mut new_name = String::from_str("Processed: ");
                    new_name.append(found.name.as_str());
                    let upd = UpdateUserRequest { name: Some(new_name), email: None, age: None };
                    let res = self.update_user(id, upd);
                    let ok = res.is_ok();
                    st = retry_step(st, AttemptEvent::Updated { ok });
                    return res;
                },
                Err(e) => {
                    st = retry_step(st, AttemptEvent::Missing);
                    return Err(e);
                },
            }
        }
    }
}

} // verus!
