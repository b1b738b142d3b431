//! The preboard service's stashbag exchange.
//!
//! Creating a stashbag is a loop: after the request the device streams
//! status replies while the user may be entering a passcode. Reading the
//! replies (each with a one-second timeout) is the caller's I/O; the
//! decisions are [`StashbagCreation::on_reply`] and
//! [`commit_stashbag_result`].

use vstd::prelude::*;

use crate::error::IdeviceError;
use crate::restore::errors::RestoreError;
use vstd::string::StringExecFns;

verus! {

/// How many status replies (or one-second read timeouts) creating a
/// stashbag waits for.
pub const STASHBAG_CREATE_ATTEMPTS: u32 = 130;

/// The result of a stashbag creation request.
#[derive(Debug, Clone, Copy, PartialEq, Eq, Structural)]
pub enum StashbagOutcome {
    /// The device does not need a stashbag (for example, no passcode is set).
    NotRequired,
    /// A stashbag was created and must be committed with the AP ticket.
    CommitRequired,
}

/// What a preboard reply says: its boolean flags (absent counts as false),
/// whether it carries an `Error`, and its `ErrorString`.
#[derive(Debug, Clone)]
pub struct PreboardReply {
    /// `Skip`: no stashbag is needed.
    pub skip: bool,
    /// `ShowDialog`: the device asks for the passcode.
    pub show_dialog: bool,
    /// `Timeout`: the passcode was not entered in time.
    pub timeout: bool,
    /// `HideDialog`: the stashbag was created.
    pub hide_dialog: bool,
    /// `StashbagCommitComplete`: the commit went through.
    pub commit_complete: bool,
    /// Whether the reply has an `Error` entry.
    pub has_error: bool,
    /// The reply's `ErrorString`, when it is a string.
    pub error_string: Option<String>,
}

/// The error description of a reply: present exactly when it has an `Error`
/// entry; its `ErrorString`, or `unknown error`.
pub open spec fn reply_error(r: PreboardReply) -> Option<Seq<char>> {
    if !r.has_error {
        None
    } else {
        match r.error_string {
            Some(s) => Some(s@),
            None => Some("unknown error"@),
        }
    }
}

/// Extracts the error description of a preboard reply, if it reports one.
pub fn stashbag_error(reply: &PreboardReply) -> (r: Option<String>)
    ensures
        match reply_error(*reply) {
            Some(m) => r matches Some(s) && s@ == m,
            None => r is None,
        },
{
    if !reply.has_error {
        return None;
    }
    match &reply.error_string {
        Some(s) => Some(s.clone()),
        None => Some(String::from_str("unknown error")),
    }
}

/// A stashbag error with `prefix` followed by `detail`.
fn stashbag_failure(prefix: &str, detail: &str) -> (e: IdeviceError)
    ensures
        e matches IdeviceError::Restore(RestoreError::Stashbag(m)) && m@ == prefix@ + detail@,
{
    let mut m = String::from_str(prefix);
    m.append(detail);
    IdeviceError::Restore(RestoreError::Stashbag(m))
}

/// The next step of stashbag creation.
#[derive(Debug)]
pub enum StashbagStep {
    /// Creation is over, with this outcome.
    Finished(StashbagOutcome),
    /// Keep reading replies.
    KeepWaiting,
    /// Creation failed.
    Failed(IdeviceError),
}

/// What a reply decides during creation, before the attempt count is
/// looked at: `Skip` ends it (no stashbag needed), `ShowDialog` waits, an
/// error or `Timeout` fails, `HideDialog` ends it (commit needed), and
/// anything else waits.
pub open spec fn creation_decision(r: PreboardReply, step: StashbagStep) -> bool {
    if r.skip {
        step == StashbagStep::Finished(StashbagOutcome::NotRequired)
    } else if r.show_dialog {
        step is KeepWaiting
    } else if reply_error(r) is Some {
        step matches StashbagStep::Failed(IdeviceError::Restore(RestoreError::Stashbag(m)))
            && m@ == "could not create stashbag: "@ + reply_error(r)->0
    } else if r.timeout {
        step matches StashbagStep::Failed(IdeviceError::Restore(RestoreError::Stashbag(_)))
    } else if r.hide_dialog {
        step == StashbagStep::Finished(StashbagOutcome::CommitRequired)
    } else {
        step is KeepWaiting
    }
}

/// The wait for a stashbag to be created: how many replies or read timeouts
/// are still allowed.
#[derive(Debug)]
pub struct StashbagCreation {
    attempts_left: u32,
}

impl StashbagCreation {
    /// How many replies or read timeouts are still allowed.
    pub closed spec fn remaining(&self) -> nat {
        self.attempts_left as nat
    }

    /// Starts waiting, after the creation request was sent.
    pub fn new() -> (r: StashbagCreation)
        ensures
            r.remaining() == STASHBAG_CREATE_ATTEMPTS,
    {
        StashbagCreation { attempts_left: STASHBAG_CREATE_ATTEMPTS }
    }

    /// Decides on the next reply, or on a read timeout (`None`). Each call
    /// uses one attempt; when the last one is used and the reply does not end
    /// creation, creation fails.
    pub fn on_reply(&mut self, reply: Option<&PreboardReply>) -> (step: StashbagStep)
        requires
            old(self).remaining() > 0,
        ensures
            final(self).remaining() == old(self).remaining() - 1,
            match reply {
                Some(r) => {
                    let decided = creation_decision(*r, step);
                    decided || (final(self).remaining() == 0 && step is Failed && creation_decision(
                        *r,
                        StashbagStep::KeepWaiting,
                    ))
                },
                None => if final(self).remaining() == 0 {
                    step is Failed
                } else {
                    step is KeepWaiting
                },
            },
            step is KeepWaiting ==> final(self).remaining() > 0,
    {
        self.attempts_left = self.attempts_left - 1;
        let step = match reply {
            None => StashbagStep::KeepWaiting,
            Some(r) => Self::decide(r),
        };
        match step {
            StashbagStep::KeepWaiting => {
                if self.attempts_left == 0 {
                    StashbagStep::Failed(
                        IdeviceError::Restore(
                            RestoreError::Stashbag(
                                "timed out waiting for stashbag creation".to_owned(),
                            ),
                        ),
                    )
                } else {
                    StashbagStep::KeepWaiting
                }
            },
            other => other,
        }
    }

    fn decide(r: &PreboardReply) -> (step: StashbagStep)
        ensures
            creation_decision(*r, step),
    {
        if r.skip {
            return StashbagStep::Finished(StashbagOutcome::NotRequired);
        }
        if r.show_dialog {
            return StashbagStep::KeepWaiting;
        }
        match stashbag_error(r) {
            Some(err) => {
                return StashbagStep::Failed(
                    stashbag_failure("could not create stashbag: ", err.as_str()),
                );
            },
            None => {},
        }
        if r.timeout {
            return StashbagStep::Failed(
                IdeviceError::Restore(
                    RestoreError::Stashbag(
                        "timed out waiting for the passcode to be entered on the device".to_owned(),
                    ),
                ),
            );
        }
        if r.hide_dialog {
            return StashbagStep::Finished(StashbagOutcome::CommitRequired);
        }
        StashbagStep::KeepWaiting
    }
}

/// What the reply to a commit request means: no reply in time, an error, a
/// confirmation, or anything else.
pub open spec fn commit_decision(reply: Option<PreboardReply>, r: Result<(), IdeviceError>) -> bool {
    match reply {
        None => r matches Err(IdeviceError::Restore(RestoreError::Stashbag(_))),
        Some(m) => if reply_error(m) is Some {
            r matches Err(IdeviceError::Restore(RestoreError::Stashbag(e))) && e@
                == "could not commit stashbag: "@ + reply_error(m)->0
        } else if m.commit_complete {
            r is Ok
        } else {
            r matches Err(IdeviceError::Restore(RestoreError::Stashbag(_)))
        },
    }
}

/// Decides the outcome of a commit from its reply, or from its absence
/// (`None`: no reply within the thirty seconds allowed).
pub fn commit_stashbag_result(reply: Option<&PreboardReply>) -> (r: Result<(), IdeviceError>)
    ensures
        commit_decision(
            match reply {
                Some(m) => Some(*m),
                None => None,
            },
            r,
        ),
{
    let m = match reply {
        None => {
            return Err(
                IdeviceError::Restore(RestoreError::Stashbag("timed out committing stashbag".to_owned())),
            );
        },
        Some(m) => m,
    };
    match stashbag_error(m) {
        Some(err) => {
            return Err(stashbag_failure("could not commit stashbag: ", err.as_str()));
        },
        None => {},
    }
    if m.commit_complete {
        return Ok(());
    }
    Err(
        IdeviceError::Restore(
            RestoreError::Stashbag(
                "preboard service did not confirm the stashbag commit".to_owned(),
            ),
        ),
    )
}

} // verus!
