use vstd::prelude::*;

use crate::broadcast::{oldest_retained, BROADCAST_CAPACITY};
use crate::errors::ErrorKind;
use crate::frame::{fits_viewer_limit, FrameKind, FrameView};
use crate::registry::RegistryView;
use crate::relay::RelayView;
use crate::session::{Flow, PollView};

verus! {

/// The registry after the streamer of relay `relay` broadcast each frame of
/// `fs`, in order.
pub open spec fn publish_all(reg: RegistryView, user: Seq<char>, relay: u64, fs: Seq<FrameView>) -> RegistryView
    decreases fs.len(),
{
    if fs.len() == 0 {
        reg
    } else {
        publish_all(reg, user, relay, fs.drop_last()).publish(user, relay, fs.last())
    }
}

/// Creating a lobby twice for one user: the second call fails with
/// `LobbyAlreadyExists`, changes nothing, and the lobby keeps the key the
/// first call issued (if that call succeeded).
pub proof fn lemma_create_twice(reg: RegistryView, user: Seq<char>, first: Seq<char>, second: Seq<char>)
    ensures
        ({
            let (r1, reg1) = reg.create(user, first);
            let (r2, reg2) = reg1.create(user, second);
            &&& r2 == Err::<Seq<char>, ErrorKind>(ErrorKind::LobbyAlreadyExists)
            &&& reg2 == reg1
            &&& r1 is Ok ==> reg2.lobbies[user].key == first
        }),
{
}

/// A streamer handshake with a key other than the lobby's (the key its
/// creation returned) fails with `NotAllowed` and changes nothing.
pub proof fn lemma_wrong_key_refused(reg: RegistryView, user: Seq<char>, created: Seq<char>, key: Seq<char>)
    requires
        key != created,
    ensures
        reg.create(user, created).0 is Ok ==> ({
            let reg1 = reg.create(user, created).1;
            reg1.connect_streamer(user, key) == (
                Err::<u64, ErrorKind>(ErrorKind::NotAllowed),
                reg1,
            )
        }),
        reg.lobbies.contains_key(user) && key != reg.lobbies[user].key ==> reg.connect_streamer(
            user,
            key,
        ) == (Err::<u64, ErrorKind>(ErrorKind::NotAllowed), reg),
{
}

/// Of two streamer handshakes with the right key on a lobby without a
/// streamer, the first installs a fresh relay and the second fails with
/// `AlreadyConnected`, leaving the registry as the first left it.
pub proof fn lemma_one_streamer_wins(reg: RegistryView, user: Seq<char>)
    requires
        reg.lobbies.contains_key(user),
        reg.lobbies[user].relay is None,
        reg.next_id < u64::MAX,
    ensures
        ({
            let key = reg.lobbies[user].key;
            let (r1, reg1) = reg.connect_streamer(user, key);
            let (r2, reg2) = reg1.connect_streamer(user, key);
            &&& r1 == Ok::<u64, ErrorKind>(reg.next_id)
            &&& reg1.lobbies[user].relay == Some(
                RelayView { id: reg.next_id, queue: Seq::empty(), history: Seq::empty() },
            )
            &&& r2 == Err::<u64, ErrorKind>(ErrorKind::AlreadyConnected)
            &&& reg2 == reg1
        }),
{
}

/// A viewer handshake on a new lobby fails with `NotFound`; after the
/// streamer's handshake it succeeds, on the streamer's relay.
pub proof fn lemma_viewer_needs_streamer(reg: RegistryView, user: Seq<char>, key: Seq<char>)
    requires
        !reg.lobbies.contains_key(user),
        reg.next_id < u64::MAX,
    ensures
        ({
            let reg1 = reg.create(user, key).1;
            let (s, reg2) = reg1.connect_streamer(user, key);
            &&& reg1.connect_viewer(user) == Err::<(u64, nat), ErrorKind>(ErrorKind::NotFound)
            &&& s is Ok
            &&& reg2.connect_viewer(user) == Ok::<(u64, nat), ErrorKind>((s->Ok_0, 0))
        }),
{
}

/// Broadcasting a sequence of frames appends them, in order, to the
/// relay's history and changes nothing else about the relay.
pub proof fn lemma_publish_all(reg: RegistryView, user: Seq<char>, relay: u64, fs: Seq<FrameView>)
    requires
        reg.relay_of(user, relay) is Some,
        reg.relay_of(user, relay)->Some_0.history.len() + fs.len() < u64::MAX,
        forall|k: int| 0 <= k < fs.len() ==> (#[trigger] fs[k]).0 != FrameKind::Close,
    ensures
        ({
            let r = reg.relay_of(user, relay)->Some_0;
            publish_all(reg, user, relay, fs).relay_of(user, relay) == Some(
                RelayView { id: r.id, queue: r.queue, history: r.history + fs },
            )
        }),
    decreases fs.len(),
{
    let r = reg.relay_of(user, relay)->Some_0;
    if fs.len() == 0 {
        assert(r.history + fs =~= r.history);
    } else {
        lemma_publish_all(reg, user, relay, fs.drop_last());
        assert(fs.drop_last().len() < fs.len());
        assert((r.history + fs.drop_last()).push(fs.last()) =~= r.history + fs);
    }
}

/// A viewer that subscribed before the streamer broadcast `fs`, no more
/// frames than the broadcast holds, reads them all, in publish order.
pub proof fn lemma_in_order_delivery(
    reg: RegistryView,
    user: Seq<char>,
    relay: u64,
    fs: Seq<FrameView>,
    k: int,
)
    requires
        reg.relay_of(user, relay) is Some,
        reg.relay_of(user, relay)->Some_0.history.len() + fs.len() < u64::MAX,
        forall|j: int| 0 <= j < fs.len() ==> (#[trigger] fs[j]).0 != FrameKind::Close,
        fs.len() <= BROADCAST_CAPACITY,
        0 <= k < fs.len(),
    ensures
        ({
            let start = reg.relay_of(user, relay)->Some_0.history.len();
            publish_all(reg, user, relay, fs).poll(user, relay, (start + k) as nat) == (
                PollView::Deliver(fs[k]),
                (start + k + 1) as nat,
            )
        }),
{
    lemma_publish_all(reg, user, relay, fs);
    let r = reg.relay_of(user, relay)->Some_0;
    let n = r.history.len() + fs.len();
    assert(oldest_retained(n) <= r.history.len());
    assert((r.history + fs)[r.history.len() + k] == fs[k]);
}

/// A viewer that subscribed before the streamer broadcast `fs`, more
/// frames than the broadcast holds, and read none of them meanwhile,
/// misses the oldest ones but goes on reading the rest in order; its
/// session does not end.
pub proof fn lemma_lagging_viewer_resumes(
    reg: RegistryView,
    user: Seq<char>,
    relay: u64,
    fs: Seq<FrameView>,
    k: int,
)
    requires
        reg.relay_of(user, relay) is Some,
        reg.relay_of(user, relay)->Some_0.history.len() + fs.len() < u64::MAX,
        forall|j: int| 0 <= j < fs.len() ==> (#[trigger] fs[j]).0 != FrameKind::Close,
        fs.len() > BROADCAST_CAPACITY,
        0 <= k < fs.len(),
    ensures
        ({
            let start = reg.relay_of(user, relay)->Some_0.history.len();
            let skipped = fs.len() - BROADCAST_CAPACITY;
            let after = publish_all(reg, user, relay, fs);
            &&& after.poll(user, relay, start as nat) == (
                PollView::Deliver(fs[skipped]),
                (start + skipped + 1) as nat,
            )
            &&& skipped <= k ==> after.poll(user, relay, (start + k) as nat) == (
                PollView::Deliver(fs[k]),
                (start + k + 1) as nat,
            )
        }),
{
    lemma_publish_all(reg, user, relay, fs);
    let r = reg.relay_of(user, relay)->Some_0;
    let start = r.history.len();
    let skipped = fs.len() - BROADCAST_CAPACITY;
    let n = start + fs.len();
    assert(oldest_retained(n) == start + skipped);
    assert((r.history + fs)[start + skipped] == fs[skipped]);
    if skipped <= k {
        assert((r.history + fs)[start + k] == fs[k]);
    }
}

/// A viewer frame of at most the size limit is queued and is the next
/// frame the streamer takes; a larger one is dropped without a trace.
pub proof fn lemma_viewer_frame_limit(reg: RegistryView, user: Seq<char>, relay: u64, f: FrameView)
    requires
        reg.relay_of(user, relay) is Some,
        reg.relay_of(user, relay)->Some_0.queue.len() == 0,
        f.0 != FrameKind::Close,
    ensures
        fits_viewer_limit(f) ==> ({
            let (flow, reg1) = reg.viewer_event(user, relay, Some(f));
            &&& flow == Flow::Continue
            &&& reg1.take_for_streamer(user, relay).0 == Some(f)
        }),
        !fits_viewer_limit(f) ==> reg.viewer_event(user, relay, Some(f)) == (Flow::Continue, reg),
{
}

/// When the streamer's socket ends, its lobby is removed: every viewer of
/// it is told to end, a viewer handshake finds nothing, and the user can
/// create a lobby again.
pub proof fn lemma_streamer_end_tears_down(
    reg: RegistryView,
    user: Seq<char>,
    relay: u64,
    key: Seq<char>,
)
    requires
        reg.relay_of(user, relay) is Some,
    ensures
        ({
            let (flow, reg1) = reg.streamer_event(user, relay, None);
            &&& flow == Flow::End
            &&& !reg1.lobbies.contains_key(user)
            &&& forall|v: u64, c: nat| #[trigger] reg1.poll(user, v, c).0 == PollView::End
            &&& forall|v: u64, f: FrameView|
                f.0 != FrameKind::Close && fits_viewer_limit(f) ==> #[trigger] reg1.viewer_event(
                    user,
                    v,
                    Some(f),
                ).0 == Flow::End
            &&& reg1.connect_viewer(user) == Err::<(u64, nat), ErrorKind>(ErrorKind::NotFound)
            &&& reg1.create(user, key).0 == Ok::<Seq<char>, ErrorKind>(key)
        }),
{
}

/// Once a streamer's socket has ended, its viewers stay out of any lobby
/// that the same user opens and streams to afterwards: the new relay has a
/// new identity, so their polls keep ending.
pub proof fn lemma_old_viewers_stay_out(
    reg: RegistryView,
    user: Seq<char>,
    relay: u64,
    key: Seq<char>,
    cursor: nat,
)
    requires
        reg.ids_issued(),
        reg.relay_of(user, relay) is Some,
    ensures
        ({
            let reg1 = reg.streamer_event(user, relay, None).1;
            let reg2 = reg1.create(user, key).1;
            let reg3 = reg2.connect_streamer(user, key).1;
            &&& reg3.relay_of(user, relay) is None
            &&& reg3.poll(user, relay, cursor).0 == PollView::End
        }),
{
}

} // verus!
