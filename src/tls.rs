//! The TLS acceptance adapter as a state machine. Each accepted transport
//! connection runs Pending -> Handshaking -> Established | Failed; the accept
//! stream hands established connections on with their peer address and
//! drops failed ones without stopping.
use vstd::prelude::*;

verus! {

#[derive(Clone, Copy, Debug, PartialEq, Eq, Structural)]
pub enum Phase {
    Pending,
    Handshaking,
    Established,
    Failed,
}

/// What the adapter does with a connection whose handshake has ended.
pub enum Admission {
    /// Hand the decrypted connection on, with the peer address captured at accept.
    Admit { peer: String },
    /// Drop the connection; nothing is handed on.
    Discard,
}

/// One transport connection on its way through the TLS handshake. The peer
/// address is captured when the connection is accepted and never changes.
pub struct Connection {
    peer: String,
    phase: Phase,
}

impl Connection {
    pub closed spec fn peer_view(&self) -> Seq<char> {
        self.peer@
    }

    pub closed spec fn phase_view(&self) -> Phase {
        self.phase
    }

    /// A connection just accepted from `peer`.
    pub fn accepted(peer: String) -> (r: Connection)
        ensures
            r.phase_view() == Phase::Pending,
            r.peer_view() == peer@,
    {
        Connection { peer, phase: Phase::Pending }
    }

    /// The peer address, the same in every phase.
    pub fn peer(&self) -> (r: &String)
        ensures
            r@ == self.peer_view(),
    {
        &self.peer
    }

    pub fn phase(&self) -> (r: Phase)
        ensures
            r == self.phase_view(),
    {
        self.phase
    }

    /// The handshake starts.
    pub fn begin_handshake(&mut self)
        requires
            old(self).phase_view() == Phase::Pending,
        ensures
            final(self).phase_view() == Phase::Handshaking,
            final(self).peer_view() == old(self).peer_view(),
    {
        self.phase = Phase::Handshaking;
    }

    /// The handshake has ended, successfully where `ok`: the connection is
    /// admitted with its captured peer address, or discarded.
    pub fn finish_handshake(&mut self, ok: bool) -> (r: Admission)
        requires
            old(self).phase_view() == Phase::Handshaking,
        ensures
            final(self).peer_view() == old(self).peer_view(),
            ok ==> final(self).phase_view() == Phase::Established,
            ok ==> (r matches Admission::Admit { peer } && peer@ == old(self).peer_view()),
            !ok ==> final(self).phase_view() == Phase::Failed && r is Discard,
    {
        if ok {
            self.phase = Phase::Established;
            Admission::Admit { peer: self.peer.clone() }
        } else {
            self.phase = Phase::Failed;
            Admission::Discard
        }
    }
}

/// The accept stream: open until the listener ends, with counts of the
/// connections handed on and dropped.
pub struct AcceptStream {
    pub open: bool,
    pub established: u64,
    pub dropped: u64,
}

/// The stream after one handshake outcome: only the matching count moves.
pub open spec fn stream_after(s: AcceptStream, admitted: bool) -> AcceptStream {
    if admitted {
        AcceptStream { open: s.open, established: (s.established + 1) as u64, dropped: s.dropped }
    } else {
        AcceptStream { open: s.open, established: s.established, dropped: (s.dropped + 1) as u64 }
    }
}

impl AcceptStream {
    pub fn new() -> (r: AcceptStream)
        ensures
            r.open,
            r.established == 0,
            r.dropped == 0,
    {
        AcceptStream { open: true, established: 0, dropped: 0 }
    }

    /// Records the outcome of one handshake. The stream stays as open as it
    /// was, whatever the outcome.
    pub fn record(&mut self, outcome: &Admission)
        requires
            old(self).established < u64::MAX,
            old(self).dropped < u64::MAX,
        ensures
            *final(self) == stream_after(*old(self), outcome is Admit),
    {
        match outcome {
            Admission::Admit { .. } => {
                self.established = self.established + 1;
            },
            Admission::Discard => {
                self.dropped = self.dropped + 1;
            },
        }
    }

    /// The listener has ended: nothing more is accepted.
    pub fn close(&mut self)
        ensures
            !final(self).open,
            final(self).established == old(self).established,
            final(self).dropped == old(self).dropped,
    {
        self.open = false;
    }
}

/// A failed handshake is contained: the connection is discarded and nothing
/// is handed on, while the stream stays open and keeps every connection it
/// already handed on.
pub proof fn lemma_failed_handshake_contained(s: AcceptStream)
    requires
        s.dropped < u64::MAX,
    ensures
        stream_after(s, false).open == s.open,
        stream_after(s, false).established == s.established,
{
}

} // verus!
