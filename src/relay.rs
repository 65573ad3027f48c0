use std::collections::VecDeque;

use vstd::prelude::*;

use crate::broadcast::{catch_up, Broadcast};
use crate::frame::{Frame, FrameView};

verus! {

/// How many viewer frames may wait for the streamer before viewers are
/// held back.
pub const QUEUE_CAPACITY: usize = 100;

/// The model of a relay: its identity, the viewer frames waiting for the
/// streamer (oldest first), and every frame the streamer has broadcast.
pub struct RelayView {
    pub id: u64,
    pub queue: Seq<FrameView>,
    pub history: Seq<FrameView>,
}

/// The two conduits of a connected lobby: a bounded queue from all viewers
/// to the streamer, and a broadcast from the streamer to all viewers.
pub struct Relay {
    id: u64,
    to_streamer: VecDeque<Frame>,
    from_streamer: Broadcast,
}

impl View for Relay {
    type V = RelayView;

    closed spec fn view(&self) -> RelayView {
        RelayView {
            id: self.id,
            queue: self.to_streamer@.map_values(|f: Frame| f@),
            history: self.from_streamer@,
        }
    }
}

impl Relay {
    pub closed spec fn wf(&self) -> bool {
        &&& self.from_streamer.wf()
        &&& self.to_streamer@.len() <= QUEUE_CAPACITY
        &&& self.from_streamer@.len() <= u64::MAX
    }

    /// A fresh relay with nothing queued and nothing broadcast.
    pub fn new(id: u64) -> (r: Relay)
        ensures
            r.wf(),
            r@ == (RelayView { id, queue: Seq::empty(), history: Seq::empty() }),
    {
        let r = Relay { id, to_streamer: VecDeque::new(), from_streamer: Broadcast::new() };
        proof {
            assert(r@.queue =~= Seq::<FrameView>::empty());
        }
        r
    }

    pub fn id(&self) -> (r: u64)
        ensures
            r == self@.id,
    {
        self.id
    }

    /// The cursor at which a new subscriber starts: after everything
    /// published so far.
    pub fn subscribe(&self) -> (r: u64)
        requires
            self.wf(),
        ensures
            r == self@.history.len(),
    {
        self.from_streamer.position()
    }

    /// Broadcasts a frame from the streamer.
    pub fn publish(&mut self, f: Frame)
        requires
            old(self).wf(),
        ensures
            final(self).wf(),
            final(self)@.id == old(self)@.id,
            final(self)@.queue == old(self)@.queue,
            old(self)@.history.len() < u64::MAX ==> final(self)@.history
                == old(self)@.history.push(f@),
            old(self)@.history.len() >= u64::MAX ==> final(self)@.history == old(self)@.history,
    {
        self.from_streamer.publish(f);
    }

    /// Reads the next broadcast frame for the subscriber at `cursor`,
    /// skipping what was overwritten.
    pub fn recv(&self, cursor: &mut u64) -> (r: Option<Frame>)
        requires
            self.wf(),
        ensures
            ({
                let c = catch_up(*old(cursor) as nat, self@.history.len());
                if c < self@.history.len() {
                    &&& r is Some
                    &&& r->Some_0@ == self@.history[c as int]
                    &&& *final(cursor) == c + 1
                } else {
                    &&& r is None
                    &&& *final(cursor) == c
                }
            }),
    {
        self.from_streamer.recv(cursor)
    }

    /// Queues a viewer frame for the streamer; a full queue hands the frame
    /// back unchanged.
    pub fn enqueue(&mut self, f: Frame) -> (r: Result<(), Frame>)
        requires
            old(self).wf(),
        ensures
            final(self).wf(),
            final(self)@.id == old(self)@.id,
            final(self)@.history == old(self)@.history,
            old(self)@.queue.len() < QUEUE_CAPACITY ==> r is Ok && final(self)@.queue
                == old(self)@.queue.push(f@),
            old(self)@.queue.len() >= QUEUE_CAPACITY ==> r is Err && r->Err_0 == f
                && final(self)@.queue == old(self)@.queue,
    {
        if self.to_streamer.len() >= QUEUE_CAPACITY {
            return Err(f);
        }
        let ghost old_q = self.to_streamer@;
        let ghost fv = f@;
        self.to_streamer.push_back(f);
        proof {
            assert(self.to_streamer@.map_values(|g: Frame| g@) =~= old_q.map_values(
                |g: Frame| g@,
            ).push(fv));
        }
        Ok(())
    }

    /// Takes the oldest queued viewer frame, if any.
    pub fn dequeue(&mut self) -> (r: Option<Frame>)
        requires
            old(self).wf(),
        ensures
            final(self).wf(),
            final(self)@.id == old(self)@.id,
            final(self)@.history == old(self)@.history,
            old(self)@.queue.len() == 0 ==> r is None && final(self)@.queue == old(self)@.queue,
            old(self)@.queue.len() > 0 ==> r is Some && r->Some_0@ == old(self)@.queue[0]
                && final(self)@.queue == old(self)@.queue.drop_first(),
    {
        let ghost old_q = self.to_streamer@;
        let r = self.to_streamer.pop_front();
        proof {
            if old_q.len() > 0 {
                assert(self.to_streamer@.map_values(|g: Frame| g@) =~= old_q.map_values(
                    |g: Frame| g@,
                ).drop_first());
            }
        }
        r
    }
}

} // verus!
