//! Redirect state: the transient record of where an unauthenticated caller
//! was trying to go, replayed after a successful login.  The record is
//! write-once-read-once: consuming it clears it, so a later consume in the
//! same session finds nothing and cannot replay a stale target.  The carrier
//! is a browser-session cookie; this type models its value, and the HTTP
//! layer mirrors it into cookie operations.

use vstd::prelude::*;

verus! {

/// The `(subdomain, path)` a caller was headed for.  `None` as subdomain
/// means the proxy-local site.
pub struct RedirectTarget {
    pub subdomain: Option<String>,
    pub path: String,
}

/// The per-session redirect record.
pub struct RedirectState {
    pending: Option<RedirectTarget>,
}

/// What one `consume` call does: it returns the pending target, whatever it
/// was, and leaves nothing behind.
pub open spec fn consume_step(
    pre: RedirectState,
    post: RedirectState,
    r: Option<RedirectTarget>,
) -> bool {
    r == pre.pending_target() && post.pending_target() is None
}

impl RedirectState {
    /// The stored target, if any.
    pub closed spec fn pending_target(&self) -> Option<RedirectTarget> {
        self.pending
    }

    /// A fresh session: nothing to redirect to.
    pub fn new() -> (r: Self)
        ensures
            r.pending_target() is None,
    {
        RedirectState { pending: None }
    }

    /// A session whose cookie already carries a target (or none); the HTTP
    /// layer builds this from the request's cookie value.
    pub fn from_value(value: Option<RedirectTarget>) -> (r: Self)
        ensures
            r.pending_target() == value,
    {
        RedirectState { pending: value }
    }

    /// Records where the caller was headed; an earlier unconsumed target is
    /// replaced.
    pub fn set(&mut self, target: RedirectTarget)
        ensures
            final(self).pending_target() == Some(target),
    {
        self.pending = Some(target);
    }

    /// Takes the pending target and clears it in one step.
    pub fn consume(&mut self) -> (r: Option<RedirectTarget>)
        ensures
            consume_step(*old(self), *final(self), r),
    {
        self.pending.take()
    }

    /// The redirect record is single-use: after any two consecutive
    /// `consume` calls on the same session, the second one returns `None`,
    /// whatever was stored at the start.
    pub proof fn lemma_consume_single_use(
        s0: RedirectState,
        s1: RedirectState,
        s2: RedirectState,
        r1: Option<RedirectTarget>,
        r2: Option<RedirectTarget>,
    )
        requires
            consume_step(s0, s1, r1),
            consume_step(s1, s2, r2),
        ensures
            r2 is None,
    {
    }
}

} // verus!
