use vstd::prelude::*;

use crate::broadcast::catch_up;
use crate::frame::{fits_viewer_limit, Frame, FrameKind, FrameView, MAX_VIEWER_FRAME};
use crate::registry::{Lobbies, RegistryView, StreamerHandle, ViewerHandle};
use crate::relay::{RelayView, QUEUE_CAPACITY};

verus! {

/// What a session's read loop got from its socket.
#[derive(Debug, PartialEq, Eq)]
pub enum SocketEvent {
    /// A frame arrived.
    Received(Frame),
    /// The socket was closed or failed.
    Ended,
}

impl View for SocketEvent {
    /// The frame that arrived, or `None` once the socket is gone.
    type V = Option<FrameView>;

    open spec fn view(&self) -> Option<FrameView> {
        match self {
            SocketEvent::Received(f) => Some(f@),
            SocketEvent::Ended => None,
        }
    }
}

/// What a session's loop does after a step.
#[derive(Clone, Copy, Debug, PartialEq, Eq, Structural)]
pub enum Flow {
    /// Go on with the next event.
    Continue,
    /// The streamer's queue is full: offer the same frame again later.
    Wait,
    /// The session is over.
    End,
}

/// What a viewer's broadcast loop gets when it asks for the next frame.
#[derive(Debug, PartialEq, Eq)]
pub enum Polled {
    /// Write this frame to the viewer's socket.
    Deliver(Frame),
    /// Nothing new yet: wait for the streamer to publish.
    Wait,
    /// The streamer is gone: the session is over.
    End,
}

/// The model of `Polled`.
pub enum PollView {
    Deliver(FrameView),
    Wait,
    End,
}

impl View for Polled {
    type V = PollView;

    open spec fn view(&self) -> PollView {
        match self {
            Polled::Deliver(f) => PollView::Deliver(f@),
            Polled::Wait => PollView::Wait,
            Polled::End => PollView::End,
        }
    }
}

impl RegistryView {
    /// The streamer of relay `relay` broadcasts `f`; close frames are not
    /// relayed.
    pub open spec fn publish(self, user: Seq<char>, relay: u64, f: FrameView) -> RegistryView {
        match self.relay_of(user, relay) {
            Some(r) => if f.0 != FrameKind::Close && r.history.len() < u64::MAX {
                self.with_relay(
                    user,
                    RelayView { id: r.id, queue: r.queue, history: r.history.push(f) },
                )
            } else {
                self
            },
            None => self,
        }
    }

    /// A streamer's socket yields `ev`: a frame is broadcast; the end of
    /// the socket ends the session and removes its lobby.
    pub open spec fn streamer_event(self, user: Seq<char>, relay: u64, ev: Option<FrameView>) -> (
        Flow,
        RegistryView,
    ) {
        match ev {
            Some(f) => (Flow::Continue, self.publish(user, relay, f)),
            None => (
                Flow::End,
                if self.relay_of(user, relay) is Some {
                    self.remove(user)
                } else {
                    self
                },
            ),
        }
    }

    /// The streamer of relay `relay` takes the oldest queued viewer frame.
    pub open spec fn take_for_streamer(self, user: Seq<char>, relay: u64) -> (
        Option<FrameView>,
        RegistryView,
    ) {
        match self.relay_of(user, relay) {
            Some(r) => if r.queue.len() > 0 {
                (
                    Some(r.queue[0]),
                    self.with_relay(
                        user,
                        RelayView { id: r.id, queue: r.queue.drop_first(), history: r.history },
                    ),
                )
            } else {
                (None, self)
            },
            None => (None, self),
        }
    }

    /// A viewer's socket yields `ev`. Close frames are ignored and frames
    /// over the size limit dropped; any other frame is queued for the
    /// streamer, or waits while the queue is full. The session ends with
    /// its socket or once the streamer is gone.
    pub open spec fn viewer_event(self, user: Seq<char>, relay: u64, ev: Option<FrameView>) -> (
        Flow,
        RegistryView,
    ) {
        match ev {
            None => (Flow::End, self),
            Some(f) => if f.0 == FrameKind::Close || !fits_viewer_limit(f) {
                (Flow::Continue, self)
            } else {
                match self.relay_of(user, relay) {
                    None => (Flow::End, self),
                    Some(r) => if r.queue.len() >= QUEUE_CAPACITY {
                        (Flow::Wait, self)
                    } else {
                        (
                            Flow::Continue,
                            self.with_relay(
                                user,
                                RelayView { id: r.id, queue: r.queue.push(f), history: r.history },
                            ),
                        )
                    },
                }
            },
        }
    }

    /// A viewer at `cursor` asks for the next broadcast frame; a cursor
    /// that fell behind skips to the oldest frame still held.
    pub open spec fn poll(self, user: Seq<char>, relay: u64, cursor: nat) -> (PollView, nat) {
        match self.relay_of(user, relay) {
            None => (PollView::End, cursor),
            Some(r) => {
                let c = catch_up(cursor, r.history.len());
                if c < r.history.len() {
                    (PollView::Deliver(r.history[c as int]), c + 1)
                } else {
                    (PollView::Wait, c)
                }
            },
        }
    }
}

impl Lobbies {
    /// One step of the streamer's read loop.
    pub fn streamer_on_socket(&mut self, h: &StreamerHandle, ev: SocketEvent) -> (r: Flow)
        requires
            old(self).wf(),
        ensures
            final(self).wf(),
            (r, final(self)@) == old(self)@.streamer_event(h.user@, h.relay, ev@),
    {
        let ghost before = self@;
        match ev {
            SocketEvent::Ended => {
                match self.take_relay(&h.user, h.relay) {
                    Some(_) => {
                        let ghost mid = self@;
                        self.remove(h.user.as_str());
                        proof {
                            assert(mid.lobbies.remove(h.user@) =~= before.lobbies.remove(h.user@));
                        }
                    },
                    None => {},
                }
                Flow::End
            },
            SocketEvent::Received(f) => {
                if f.is_close() {
                    return Flow::Continue;
                }
                let ghost fv = f@;
                match self.take_relay(&h.user, h.relay) {
                    Some(x) => {
                        let mut x = x;
                        x.publish(f);
                        let ghost xv = x@;
                        self.restore_relay(&h.user, x);
                        proof {
                            let r = before.relay_of(h.user@, h.relay)->Some_0;
                            if r.history.len() < u64::MAX {
                                assert(self@.lobbies =~= before.publish(
                                    h.user@,
                                    h.relay,
                                    fv,
                                ).lobbies);
                            } else {
                                assert(xv == r);
                                assert(self@.lobbies =~= before.lobbies);
                            }
                        }
                    },
                    None => {},
                }
                Flow::Continue
            },
        }
    }

    /// One step of the streamer's write loop: the oldest viewer frame
    /// waiting for it, if any.
    pub fn streamer_next(&mut self, h: &StreamerHandle) -> (r: Option<Frame>)
        requires
            old(self).wf(),
        ensures
            final(self).wf(),
            (match r {
                Some(f) => Some(f@),
                None => None,
            }, final(self)@) == old(self)@.take_for_streamer(h.user@, h.relay),
    {
        let ghost before = self@;
        match self.take_relay(&h.user, h.relay) {
            Some(x) => {
                let mut x = x;
                let got = x.dequeue();
                self.restore_relay(&h.user, x);
                proof {
                    let r = before.relay_of(h.user@, h.relay)->Some_0;
                    if r.queue.len() > 0 {
                        assert(self@.lobbies =~= before.take_for_streamer(
                            h.user@,
                            h.relay,
                        ).1.lobbies);
                    } else {
                        assert(self@.lobbies =~= before.lobbies);
                    }
                }
                got
            },
            None => None,
        }
    }

    /// One step of a viewer's read loop. On `Flow::Wait` the frame was not
    /// taken and should be offered again.
    pub fn viewer_on_socket(&mut self, h: &ViewerHandle, ev: &SocketEvent) -> (r: Flow)
        requires
            old(self).wf(),
        ensures
            final(self).wf(),
            (r, final(self)@) == old(self)@.viewer_event(h.user@, h.relay, ev@),
    {
        let ghost before = self@;
        match ev {
            SocketEvent::Ended => Flow::End,
            SocketEvent::Received(f) => {
                if f.is_close() || f.len() > MAX_VIEWER_FRAME {
                    return Flow::Continue;
                }
                match self.take_relay(&h.user, h.relay) {
                    Some(x) => {
                        let mut x = x;
                        let sent = x.enqueue(f.duplicate());
                        self.restore_relay(&h.user, x);
                        proof {
                            let r = before.relay_of(h.user@, h.relay)->Some_0;
                            if r.queue.len() < QUEUE_CAPACITY {
                                assert(self@.lobbies =~= before.viewer_event(
                                    h.user@,
                                    h.relay,
                                    ev@,
                                ).1.lobbies);
                            } else {
                                assert(self@.lobbies =~= before.lobbies);
                            }
                        }
                        match sent {
                            Ok(()) => Flow::Continue,
                            Err(_) => Flow::Wait,
                        }
                    },
                    None => Flow::End,
                }
            },
        }
    }

    /// One step of a viewer's broadcast loop: the next frame for the
    /// viewer, which advances its cursor.
    pub fn viewer_poll(&self, h: &mut ViewerHandle) -> (r: Polled)
        requires
            self.wf(),
        ensures
            final(h).user == old(h).user,
            final(h).relay == old(h).relay,
            (r@, final(h).cursor as nat) == self@.poll(old(h).user@, old(h).relay, old(h).cursor as nat),
    {
        match self.relay_ref(&h.user, h.relay) {
            Some(x) => match x.recv(&mut h.cursor) {
                Some(f) => Polled::Deliver(f),
                None => Polled::Wait,
            },
            None => Polled::End,
        }
    }
}

} // verus!
