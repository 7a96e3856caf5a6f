use vstd::prelude::*;
use crate::frame::{clone_reason, reason_view, CloseReason, CloseReasonView};

verus! {

/// Where the close handshake stands.
#[derive(Clone, Copy, Debug, PartialEq, Eq, Structural)]
pub enum ClosePhase {
    Open,
    LocalClosing,
    RemoteClosing,
    Closed,
}

/// The close handshake as both halves of a connection see it. The two flags
/// only ever go from false to true.
#[derive(Clone, Debug)]
pub struct CloseState {
    local_close_sent: bool,
    remote_close_received: bool,
    reason: Option<CloseReason>,
}

pub struct CloseStateView {
    pub local: bool,
    pub remote: bool,
    pub reason: Option<CloseReasonView>,
}

impl View for CloseState {
    type V = CloseStateView;

    closed spec fn view(&self) -> CloseStateView {
        CloseStateView {
            local: self.local_close_sent,
            remote: self.remote_close_received,
            reason: reason_view(self.reason),
        }
    }
}

pub open spec fn phase_of(s: CloseStateView) -> ClosePhase {
    if s.local && s.remote {
        ClosePhase::Closed
    } else if s.local {
        ClosePhase::LocalClosing
    } else if s.remote {
        ClosePhase::RemoteClosing
    } else {
        ClosePhase::Open
    }
}

/// The state after a close frame went out with `r`; the first reason recorded stays.
pub open spec fn after_local_close(s: CloseStateView, r: Option<CloseReasonView>) -> CloseStateView {
    CloseStateView {
        local: true,
        remote: s.remote,
        reason: if s.reason is Some { s.reason } else { r },
    }
}

/// The state after the peer's close frame with `r` arrived.
pub open spec fn after_remote_close(s: CloseStateView, r: Option<CloseReasonView>) -> CloseStateView {
    CloseStateView {
        local: s.local,
        remote: true,
        reason: if s.reason is Some { s.reason } else { r },
    }
}

impl CloseState {
    pub fn new() -> (s: CloseState)
        ensures
            !s@.local,
            !s@.remote,
            s@.reason is None,
    {
        CloseState { local_close_sent: false, remote_close_received: false, reason: None }
    }

    pub fn local_close_sent(&self) -> (r: bool)
        ensures
            r == self@.local,
    {
        self.local_close_sent
    }

    pub fn remote_close_received(&self) -> (r: bool)
        ensures
            r == self@.remote,
    {
        self.remote_close_received
    }

    pub fn reason(&self) -> (r: Option<CloseReason>)
        ensures
            reason_view(r) == self@.reason,
    {
        clone_reason(&self.reason)
    }

    pub fn phase(&self) -> (p: ClosePhase)
        ensures
            p == phase_of(self@),
    {
        if self.local_close_sent && self.remote_close_received {
            ClosePhase::Closed
        } else if self.local_close_sent {
            ClosePhase::LocalClosing
        } else if self.remote_close_received {
            ClosePhase::RemoteClosing
        } else {
            ClosePhase::Open
        }
    }

    pub fn record_local_close(&mut self, r: Option<CloseReason>)
        ensures
            final(self)@ == after_local_close(old(self)@, reason_view(r)),
    {
        self.local_close_sent = true;
        if self.reason.is_none() {
            self.reason = r;
        }
    }

    pub fn record_remote_close(&mut self, r: Option<CloseReason>)
        ensures
            final(self)@ == after_remote_close(old(self)@, reason_view(r)),
    {
        self.remote_close_received = true;
        if self.reason.is_none() {
            self.reason = r;
        }
    }
}

} // verus!
