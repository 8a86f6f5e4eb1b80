//! Handles for one session's bi-stream. The stream halves themselves are
//! the transport's: the handles only pair them up (and, on the server, tag
//! them with the authenticated peer) until the handshake is done and the
//! proxy loops take them apart.

use vstd::prelude::*;

use crate::keys::PeerKey;

verus! {

/// The client's handle on the server it dialled: the two halves of the
/// bi-stream, writer first.
pub struct P2TermServerHandle<W, R> {
    send_stream: W,
    recv_stream: R,
}

impl<W, R> P2TermServerHandle<W, R> {
    /// The write half.
    pub closed spec fn send_part(&self) -> &W {
        &self.send_stream
    }

    /// The read half.
    pub closed spec fn recv_part(&self) -> &R {
        &self.recv_stream
    }

    /// Pairs the two halves of a freshly opened bi-stream.
    pub fn new(w: W, r: R) -> (h: Self)
        ensures
            *h.send_part() == w && *h.recv_part() == r,
    {
        P2TermServerHandle { send_stream: w, recv_stream: r }
    }

    /// Takes the handle apart for the proxy loops, writer first.
    pub fn decompose(self) -> (r: (W, R))
        ensures
            r.0 == *self.send_part() && r.1 == *self.recv_part(),
    {
        (self.send_stream, self.recv_stream)
    }
}

/// The server's handle on an accepted client: the authenticated peer and
/// the two halves of the accepted bi-stream.
pub struct P2TermClientHandle<W, R> {
    peer: PeerKey,
    write_stream: W,
    read_stream: R,
}

impl<W, R> P2TermClientHandle<W, R> {
    /// The authenticated peer this handle serves.
    pub closed spec fn peer_part(&self) -> &PeerKey {
        &self.peer
    }

    /// The write half.
    pub closed spec fn write_part(&self) -> &W {
        &self.write_stream
    }

    /// The read half.
    pub closed spec fn read_part(&self) -> &R {
        &self.read_stream
    }

    /// Tags an accepted bi-stream with the peer it authenticated as.
    pub fn new(peer: PeerKey, write: W, read: R) -> (h: Self)
        ensures
            *h.peer_part() == peer && *h.write_part() == write && *h.read_part() == read,
    {
        P2TermClientHandle { peer, write_stream: write, read_stream: read }
    }

    /// Takes the handle apart for the proxy loops, writer first.
    pub fn decompose(self) -> (r: (W, R))
        ensures
            r.0 == *self.write_part() && r.1 == *self.read_part(),
    {
        (self.write_stream, self.read_stream)
    }
}

} // verus!
