//! Cancellation of listener tasks.
//!
//! A [`CancelToken`] is a handle on a task's shared cancellation token. Besides
//! the token it keeps, for the proofs, whether cancellation was requested
//! through this handle: a token once cancelled stays cancelled, so every later
//! read through the handle then reports cancellation.
use vstd::prelude::*;
use tokio_util::sync::CancellationToken;
use crate::lifecycle::Signal;

verus! {

#[verifier::external_type_specification]
#[verifier::external_body]
pub struct ExCancellationToken(CancellationToken);

/// A handle on a task's cancellation token.
pub struct CancelToken {
    token: CancellationToken,
    asked: Ghost<bool>,
}

impl CancelToken {
    /// Whether cancellation was requested through this handle.
    pub closed spec fn asked(&self) -> bool {
        self.asked@
    }

    /// The token this handle works on.
    pub closed spec fn shared(&self) -> CancellationToken {
        self.token
    }

    /// A handle on `token` through which nothing has been requested yet.
    pub fn new(token: CancellationToken) -> (r: CancelToken)
        ensures
            !r.asked(),
            r.shared() == token,
    {
        CancelToken { token, asked: Ghost(false) }
    }

    /// The token this handle works on.
    pub fn token(&self) -> (r: &CancellationToken)
        ensures
            *r == self.shared(),
    {
        &self.token
    }

    /// Calls `CancellationToken::cancel`, which marks the token and every
    /// clone of it cancelled and wakes the tasks waiting on it; cancellation
    /// is never undone. Claimed: cancellation is now requested through this
    /// handle, which still works on the same token.
    #[verifier::external_body]
    fn cancel(&mut self)
        ensures
            final(self).asked(),
            final(self).shared() == old(self).shared(),
    {
        self.token.cancel()
    }

    /// Calls `CancellationToken::is_cancelled`. Claimed: it reports
    /// cancellation whenever cancellation was requested through this handle
    /// (a token once cancelled stays cancelled). When nothing was requested
    /// here, another clone may still have cancelled it, so nothing is claimed.
    #[verifier::external_body]
    fn is_cancelled(&self) -> (r: bool)
        ensures
            self.asked() ==> r,
    {
        self.token.is_cancelled()
    }

    /// What a task reports once `begin` has returned: the token as read now.
    pub fn began_signal(&self) -> (s: Signal)
        ensures
            s matches Signal::Began { cancelled } && (self.asked() ==> cancelled),
    {
        Signal::Began { cancelled: self.is_cancelled() }
    }

    /// What a task reports once `handle` has returned: the token as read now.
    pub fn handled_signal(&self) -> (s: Signal)
        ensures
            s matches Signal::Handled { cancelled } && (self.asked() ==> cancelled),
    {
        Signal::Handled { cancelled: self.is_cancelled() }
    }
}

/// Cancels the token when `stop` holds, and leaves it untouched otherwise: a
/// listener that has handled its last allowed event stops its own task this way.
pub fn cancel_when(stop: bool, token: &mut CancelToken)
    ensures
        final(token).asked() == (old(token).asked() || stop),
        final(token).shared() == old(token).shared(),
{
    if stop {
        token.cancel();
    }
}

} // verus!
