use vstd::prelude::*;

use crate::frame::{Frame, FrameView};

verus! {

/// How many of the most recent broadcast frames stay readable.
pub const BROADCAST_CAPACITY: usize = 100;

/// Sequence number of the oldest frame that a broadcast of `sent` frames
/// still holds.
pub open spec fn oldest_retained(sent: nat) -> nat {
    if sent <= BROADCAST_CAPACITY {
        0
    } else {
        (sent - BROADCAST_CAPACITY) as nat
    }
}

/// Where a subscriber reads next: a cursor that fell out of the retained
/// window is moved up to its oldest frame.
pub open spec fn catch_up(cursor: nat, sent: nat) -> nat {
    if cursor < oldest_retained(sent) {
        oldest_retained(sent)
    } else {
        cursor
    }
}

/// A single-producer, many-consumer broadcast over a ring of fixed capacity.
///
/// Frame number `s` (counting from zero) lives in slot `s % BROADCAST_CAPACITY`
/// until it is overwritten. Subscribers are plain cursors held by the
/// reader, so publishing never waits and the ring never grows past its
/// capacity.
pub struct Broadcast {
    slots: Vec<Frame>,
    sent: u64,
    history: Ghost<Seq<FrameView>>,
}

impl View for Broadcast {
    /// Every frame ever published, in publish order.
    type V = Seq<FrameView>;

    closed spec fn view(&self) -> Seq<FrameView> {
        self.history@
    }
}

/// Two sequence numbers less than a capacity apart use different slots.
proof fn lemma_distinct_slots(a: int, b: int)
    requires
        0 <= a < b,
        b - a < BROADCAST_CAPACITY,
    ensures
        a % (BROADCAST_CAPACITY as int) != b % (BROADCAST_CAPACITY as int),
{
    let c = BROADCAST_CAPACITY as int;
    assert(a % c != b % c) by (nonlinear_arith)
        requires
            0 <= a < b,
            b - a < c,
            c > 0,
    {
        if a % c == b % c {
            assert(b - a == c * (b / c - a / c));
            if b / c - a / c >= 1 {
                assert(c * (b / c - a / c) >= c);
            }
        }
    };
}

impl Broadcast {
    pub closed spec fn wf(&self) -> bool {
        &&& self.history@.len() == self.sent
        &&& self.slots@.len() == if self.sent <= BROADCAST_CAPACITY {
            self.sent as int
        } else {
            BROADCAST_CAPACITY as int
        }
        &&& forall|s: int|
            oldest_retained(self.sent as nat) <= s < self.sent ==> #[trigger] self.slots@[s
                % (BROADCAST_CAPACITY as int)]@ == self.history@[s]
    }

    /// A broadcast on which nothing was published yet.
    pub fn new() -> (r: Broadcast)
        ensures
            r.wf(),
            r@ == Seq::<FrameView>::empty(),
    {
        Broadcast { slots: Vec::new(), sent: 0, history: Ghost(Seq::empty()) }
    }

    /// Number of frames published so far: the cursor of a new subscriber,
    /// which sees nothing that was published before it came.
    pub fn position(&self) -> (r: u64)
        requires
            self.wf(),
        ensures
            r == self@.len(),
    {
        self.sent
    }

    /// Publishes a frame to every subscriber. A broadcast that has numbered
    /// `u64::MAX` frames takes no more.
    pub fn publish(&mut self, f: Frame)
        requires
            old(self).wf(),
        ensures
            final(self).wf(),
            old(self)@.len() < u64::MAX ==> final(self)@ == old(self)@.push(f@),
            old(self)@.len() == u64::MAX ==> final(self)@ == old(self)@,
    {
        if self.sent == u64::MAX {
            return;
        }
        let ghost old_slots = self.slots@;
        let ghost fv = f@;
        let idx = (self.sent % (BROADCAST_CAPACITY as u64)) as usize;
        if self.slots.len() < BROADCAST_CAPACITY {
            self.slots.push(f);
        } else {
            self.slots.set(idx, f);
        }
        let ghost sent = self.sent as int;
        self.sent = self.sent + 1;
        self.history = Ghost(self.history@.push(fv));
        proof {
            assert forall|s: int|
                oldest_retained(self.sent as nat) <= s < self.sent implies #[trigger] self.slots@[s
                    % (BROADCAST_CAPACITY as int)]@ == self.history@[s] by {
                if s < sent {
                    lemma_distinct_slots(s, sent);
                    assert(old_slots[s % (BROADCAST_CAPACITY as int)]@ == self.history@[s]);
                }
            }
        }
    }

    /// Reads the frame at `cursor` and advances the cursor past it.
    ///
    /// A cursor that fell behind the retained window first skips to the
    /// oldest frame still held; `None` means nothing new was published yet.
    pub fn recv(&self, cursor: &mut u64) -> (r: Option<Frame>)
        requires
            self.wf(),
        ensures
            ({
                let c = catch_up(*old(cursor) as nat, self@.len());
                if c < self@.len() {
                    &&& r is Some
                    &&& r->Some_0@ == self@[c as int]
                    &&& *final(cursor) == c + 1
                } else {
                    &&& r is None
                    &&& *final(cursor) == c
                }
            }),
    {
        let oldest: u64 = if self.sent <= BROADCAST_CAPACITY as u64 {
            0
        } else {
            self.sent - BROADCAST_CAPACITY as u64
        };
        if *cursor < oldest {
            *cursor = oldest;
        }
        if *cursor < self.sent {
            let idx = (*cursor % (BROADCAST_CAPACITY as u64)) as usize;
            let ghost s = *cursor as int;
            assert(self.slots@[s % (BROADCAST_CAPACITY as int)]@ == self.history@[s]);
            let f = self.slots[idx].duplicate();
            *cursor = *cursor + 1;
            Some(f)
        } else {
            None
        }
    }
}

} // verus!
