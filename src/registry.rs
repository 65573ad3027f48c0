use vstd::prelude::*;

use crate::errors::{ErrorKind, Errors};
use crate::relay::{Relay, RelayView};

verus! {

/// The model of a lobby: the streamer's one-time key and, while a streamer
/// is connected, its relay.
pub struct LobbyView {
    pub key: Seq<char>,
    pub relay: Option<RelayView>,
}

/// The model of the registry: each user's lobby, and the identity that the
/// next relay will get.
pub struct RegistryView {
    pub lobbies: Map<Seq<char>, LobbyView>,
    pub next_id: u64,
}

/// One channel's session: its owner, the streamer key, and the relay that
/// exists while the streamer is connected.
pub struct Lobby {
    owner: String,
    streamer_key: String,
    connection: Option<Relay>,
}

impl View for Lobby {
    type V = LobbyView;

    closed spec fn view(&self) -> LobbyView {
        LobbyView {
            key: self.streamer_key@,
            relay: match self.connection {
                Some(r) => Some(r@),
                None => None,
            },
        }
    }
}

impl Lobby {
    pub closed spec fn spec_owner(&self) -> Seq<char> {
        self.owner@
    }

    pub closed spec fn wf(&self) -> bool {
        match self.connection {
            Some(r) => r.wf(),
            None => true,
        }
    }
}

/// The owners of the lobbies in `s` are pairwise distinct.
pub open spec fn owners_unique(s: Seq<Lobby>) -> bool {
    forall|i: int, j: int|
        0 <= i < s.len() && 0 <= j < s.len() && #[trigger] s[i].spec_owner()
            == #[trigger] s[j].spec_owner() ==> i == j
}

/// Whether some lobby in `s` belongs to `u`.
pub open spec fn has_owner(s: Seq<Lobby>, u: Seq<char>) -> bool {
    exists|i: int| 0 <= i < s.len() && #[trigger] s[i].spec_owner() == u
}

/// The lobbies of `s` as a map from owner to lobby.
pub open spec fn lobby_map(s: Seq<Lobby>) -> Map<Seq<char>, LobbyView> {
    Map::new(
        |u: Seq<char>| has_owner(s, u),
        |u: Seq<char>| s[choose|i: int| 0 <= i < s.len() && #[trigger] s[i].spec_owner() == u]@,
    )
}

proof fn lemma_map_at(s: Seq<Lobby>, i: int)
    requires
        owners_unique(s),
        0 <= i < s.len(),
    ensures
        lobby_map(s).contains_key(s[i].spec_owner()),
        lobby_map(s)[s[i].spec_owner()] == s[i]@,
{
    let u = s[i].spec_owner();
    assert(has_owner(s, u));
    let j = choose|j: int| 0 <= j < s.len() && #[trigger] s[j].spec_owner() == u;
    assert(j == i);
}

proof fn lemma_map_update(s: Seq<Lobby>, i: int, l: Lobby)
    requires
        owners_unique(s),
        0 <= i < s.len(),
        l.spec_owner() == s[i].spec_owner(),
    ensures
        owners_unique(s.update(i, l)),
        lobby_map(s.update(i, l)) == lobby_map(s).insert(l.spec_owner(), l@),
{
    let t = s.update(i, l);
    assert forall|a: int, b: int|
        0 <= a < t.len() && 0 <= b < t.len() && #[trigger] t[a].spec_owner()
            == #[trigger] t[b].spec_owner() implies a == b by {
        assert(s[a].spec_owner() == s[b].spec_owner());
    }
    assert forall|u: Seq<char>| has_owner(t, u) == (has_owner(s, u) || u == l.spec_owner()) by {
        if has_owner(t, u) {
            let j = choose|j: int| 0 <= j < t.len() && #[trigger] t[j].spec_owner() == u;
            assert(s[j].spec_owner() == u);
        }
        if has_owner(s, u) {
            let j = choose|j: int| 0 <= j < s.len() && #[trigger] s[j].spec_owner() == u;
            assert(t[j].spec_owner() == u);
        }
        if u == l.spec_owner() {
            assert(t[i].spec_owner() == u);
        }
    }
    assert forall|u: Seq<char>| #[trigger]
        lobby_map(t).contains_key(u) implies lobby_map(t)[u] == lobby_map(s).insert(
        l.spec_owner(),
        l@,
    )[u] by {
        let j = choose|j: int| 0 <= j < t.len() && #[trigger] t[j].spec_owner() == u;
        lemma_map_at(t, j);
        if j != i {
            lemma_map_at(s, j);
        }
    }
    assert(lobby_map(t) =~= lobby_map(s).insert(l.spec_owner(), l@));
}

proof fn lemma_map_push(s: Seq<Lobby>, l: Lobby)
    requires
        owners_unique(s),
        !has_owner(s, l.spec_owner()),
    ensures
        owners_unique(s.push(l)),
        lobby_map(s.push(l)) == lobby_map(s).insert(l.spec_owner(), l@),
{
    let t = s.push(l);
    assert forall|a: int, b: int|
        0 <= a < t.len() && 0 <= b < t.len() && #[trigger] t[a].spec_owner()
            == #[trigger] t[b].spec_owner() implies a == b by {
        if a < s.len() && b < s.len() {
            assert(s[a].spec_owner() == s[b].spec_owner());
        } else if a < s.len() {
            assert(s[a].spec_owner() == l.spec_owner());
        } else if b < s.len() {
            assert(s[b].spec_owner() == l.spec_owner());
        }
    }
    assert forall|u: Seq<char>| has_owner(t, u) == (has_owner(s, u) || u == l.spec_owner()) by {
        if has_owner(t, u) {
            let j = choose|j: int| 0 <= j < t.len() && #[trigger] t[j].spec_owner() == u;
            if j < s.len() {
                assert(s[j].spec_owner() == u);
            }
        }
        if has_owner(s, u) {
            let j = choose|j: int| 0 <= j < s.len() && #[trigger] s[j].spec_owner() == u;
            assert(t[j].spec_owner() == u);
        }
        if u == l.spec_owner() {
            assert(t[s.len() as int].spec_owner() == u);
        }
    }
    assert forall|u: Seq<char>| #[trigger]
        lobby_map(t).contains_key(u) implies lobby_map(t)[u] == lobby_map(s).insert(
        l.spec_owner(),
        l@,
    )[u] by {
        let j = choose|j: int| 0 <= j < t.len() && #[trigger] t[j].spec_owner() == u;
        lemma_map_at(t, j);
        if j < s.len() {
            lemma_map_at(s, j);
        }
    }
    assert(lobby_map(t) =~= lobby_map(s).insert(l.spec_owner(), l@));
}

proof fn lemma_map_remove(s: Seq<Lobby>, i: int)
    requires
        owners_unique(s),
        0 <= i < s.len(),
    ensures
        owners_unique(s.remove(i)),
        lobby_map(s.remove(i)) == lobby_map(s).remove(s[i].spec_owner()),
{
    let t = s.remove(i);
    let gone = s[i].spec_owner();
    assert forall|a: int, b: int|
        0 <= a < t.len() && 0 <= b < t.len() && #[trigger] t[a].spec_owner()
            == #[trigger] t[b].spec_owner() implies a == b by {
        let sa = if a < i { a } else { a + 1 };
        let sb = if b < i { b } else { b + 1 };
        assert(s[sa].spec_owner() == s[sb].spec_owner());
    }
    assert forall|u: Seq<char>| has_owner(t, u) == (has_owner(s, u) && u != gone) by {
        if has_owner(t, u) {
            let j = choose|j: int| 0 <= j < t.len() && #[trigger] t[j].spec_owner() == u;
            let sj = if j < i { j } else { j + 1 };
            assert(s[sj].spec_owner() == u);
        }
        if has_owner(s, u) && u != gone {
            let j = choose|j: int| 0 <= j < s.len() && #[trigger] s[j].spec_owner() == u;
            if j < i {
                assert(t[j].spec_owner() == u);
            } else {
                assert(t[j - 1].spec_owner() == u);
            }
        }
    }
    assert forall|u: Seq<char>| #[trigger]
        lobby_map(t).contains_key(u) implies lobby_map(t)[u] == lobby_map(s).remove(gone)[u] by {
        let j = choose|j: int| 0 <= j < t.len() && #[trigger] t[j].spec_owner() == u;
        lemma_map_at(t, j);
        let sj = if j < i { j } else { j + 1 };
        lemma_map_at(s, sj);
    }
    assert(lobby_map(t) =~= lobby_map(s).remove(gone));
}

/// Relies on uuid's `Uuid::new_v4` and its `Display`: a random version-4
/// UUID, written as 36 hyphenated lowercase hex characters.
#[verifier::external_body]
fn fresh_key() -> (r: String)
    ensures
        r@.len() == 36,
{
    uuid::Uuid::new_v4().to_string()
}

/// The error for a second lobby of one user.
fn lobby_exists() -> (r: Errors)
    ensures
        r.kind() == ErrorKind::LobbyAlreadyExists,
{
    Errors::LobbyAlreadyExists(
        "Lobby already in play, please close the existing game instance or wait for the previous lobby to close".to_owned(),
    )
}

impl RegistryView {
    /// The relay of `user`'s lobby, if a streamer is connected there
    /// through the relay with identity `relay`.
    pub open spec fn relay_of(self, user: Seq<char>, relay: u64) -> Option<RelayView> {
        if self.lobbies.contains_key(user) {
            match self.lobbies[user].relay {
                Some(r) => if r.id == relay {
                    Some(r)
                } else {
                    None
                },
                None => None,
            }
        } else {
            None
        }
    }

    /// The registry with `user`'s lobby holding relay `r`, its key unchanged.
    pub open spec fn with_relay(self, user: Seq<char>, r: RelayView) -> RegistryView {
        RegistryView {
            lobbies: self.lobbies.insert(
                user,
                LobbyView { key: self.lobbies[user].key, relay: Some(r) },
            ),
            next_id: self.next_id,
        }
    }

    /// Every relay in the registry got its identity before `next_id`, so
    /// the next relay's identity is new.
    pub open spec fn ids_issued(self) -> bool {
        forall|u: Seq<char>|
            #[trigger] self.lobbies.contains_key(u) && self.lobbies[u].relay is Some
                ==> self.lobbies[u].relay->Some_0.id < self.next_id
    }

    /// Creating a lobby for `user` whose streamer key is `key`.
    pub open spec fn create(self, user: Seq<char>, key: Seq<char>) -> (
        Result<Seq<char>, ErrorKind>,
        RegistryView,
    ) {
        if self.lobbies.contains_key(user) {
            (Err(ErrorKind::LobbyAlreadyExists), self)
        } else {
            (
                Ok(key),
                RegistryView {
                    lobbies: self.lobbies.insert(user, LobbyView { key, relay: None }),
                    next_id: self.next_id,
                },
            )
        }
    }

    /// Dropping `user`'s lobby, with its relay, if there is one.
    pub open spec fn remove(self, user: Seq<char>) -> RegistryView {
        RegistryView { lobbies: self.lobbies.remove(user), next_id: self.next_id }
    }

    /// The streamer handshake: the lobby must exist, the key must match,
    /// and no streamer may be connected yet. Success installs a fresh relay
    /// and yields its identity.
    pub open spec fn connect_streamer(self, user: Seq<char>, key: Seq<char>) -> (
        Result<u64, ErrorKind>,
        RegistryView,
    ) {
        if !self.lobbies.contains_key(user) {
            (Err(ErrorKind::NotFound), self)
        } else if key != self.lobbies[user].key {
            (Err(ErrorKind::NotAllowed), self)
        } else if self.lobbies[user].relay is Some {
            (Err(ErrorKind::AlreadyConnected), self)
        } else if self.next_id == u64::MAX {
            (Err(ErrorKind::Unknown), self)
        } else {
            (
                Ok(self.next_id),
                RegistryView {
                    lobbies: self.lobbies.insert(
                        user,
                        LobbyView {
                            key,
                            relay: Some(
                                RelayView {
                                    id: self.next_id,
                                    queue: Seq::empty(),
                                    history: Seq::empty(),
                                },
                            ),
                        },
                    ),
                    next_id: (self.next_id + 1) as u64,
                },
            )
        }
    }

    /// The viewer handshake: the lobby must exist and have a streamer.
    /// Success yields the relay's identity and a cursor that starts after
    /// everything broadcast so far.
    pub open spec fn connect_viewer(self, user: Seq<char>) -> Result<(u64, nat), ErrorKind> {
        if self.lobbies.contains_key(user) && self.lobbies[user].relay is Some {
            let r = self.lobbies[user].relay->Some_0;
            Ok((r.id, r.history.len()))
        } else {
            Err(ErrorKind::NotFound)
        }
    }
}

/// A read-only snapshot of a lobby.
#[derive(Debug, PartialEq, Eq)]
pub struct LobbySummary {
    pub owner: String,
    pub connected: bool,
}

/// What a streamer needs to act on its lobby after the handshake.
#[derive(Debug, PartialEq, Eq)]
pub struct StreamerHandle {
    pub user: String,
    pub relay: u64,
}

/// What a viewer needs to act on a lobby after the handshake: the lobby,
/// the relay it joined, and its own read cursor into the broadcast.
#[derive(Debug, PartialEq, Eq)]
pub struct ViewerHandle {
    pub user: String,
    pub relay: u64,
    pub cursor: u64,
}

impl Lobby {
    /// A lobby for `owner` with a freshly drawn streamer key and no streamer.
    pub fn new(owner: String) -> (r: Lobby)
        ensures
            r.spec_owner() == owner@,
            r@.key.len() == 36,
            r@.relay is None,
            r.wf(),
    {
        Lobby::with_key(owner, fresh_key())
    }

    /// A lobby for `owner` with the given streamer key and no streamer.
    pub fn with_key(owner: String, key: String) -> (r: Lobby)
        ensures
            r.spec_owner() == owner@,
            r@ == (LobbyView { key: key@, relay: None }),
            r.wf(),
    {
        Lobby { owner, streamer_key: key, connection: None }
    }

    /// The streamer key of this lobby.
    pub fn key(&self) -> (r: &str)
        ensures
            r@ == self@.key,
    {
        self.streamer_key.as_str()
    }
}

/// The registry of all lobbies, one per user.
pub struct Lobbies {
    lobbies: Vec<Lobby>,
    next_relay_id: u64,
}

impl View for Lobbies {
    type V = RegistryView;

    closed spec fn view(&self) -> RegistryView {
        RegistryView { lobbies: lobby_map(self.lobbies@), next_id: self.next_relay_id }
    }
}

impl Default for Lobbies {
    fn default() -> (r: Lobbies)
        ensures
            r.wf(),
            r@.lobbies == Map::<Seq<char>, LobbyView>::empty(),
            r@.next_id == 0,
    {
        Lobbies::new()
    }
}

impl Lobbies {
    pub closed spec fn wf(&self) -> bool {
        &&& owners_unique(self.lobbies@)
        &&& self@.ids_issued()
        &&& forall|i: int| 0 <= i < self.lobbies@.len() ==> (#[trigger] self.lobbies@[i]).wf()
    }

    /// An empty registry.
    pub fn new() -> (r: Lobbies)
        ensures
            r.wf(),
            r@.lobbies == Map::<Seq<char>, LobbyView>::empty(),
            r@.next_id == 0,
    {
        let r = Lobbies { lobbies: Vec::new(), next_relay_id: 0 };
        proof {
            assert(r@.lobbies =~= Map::<Seq<char>, LobbyView>::empty());
        }
        r
    }

    /// Each relay of a well-formed registry has an identity below the
    /// next one to be issued.
    pub proof fn lemma_ids_issued(&self)
        requires
            self.wf(),
        ensures
            self@.ids_issued(),
    {
    }

    /// Index of `user`'s lobby in the vector, if it has one.
    fn find(&self, user: &String) -> (r: Option<usize>)
        requires
            self.wf(),
        ensures
            match r {
                Some(i) => {
                    &&& i < self.lobbies@.len()
                    &&& self.lobbies@[i as int].spec_owner() == user@
                    &&& self@.lobbies.contains_key(user@)
                    &&& self@.lobbies[user@] == self.lobbies@[i as int]@
                },
                None => !self@.lobbies.contains_key(user@),
            },
    {
        let mut i: usize = 0;
        while i < self.lobbies.len()
            invariant
                self.wf(),
                i <= self.lobbies@.len(),
                forall|j: int| 0 <= j < i ==> (#[trigger] self.lobbies@[j]).spec_owner() != user@,
            decreases self.lobbies@.len() - i,
        {
            if self.lobbies[i].owner == *user {
                proof {
                    lemma_map_at(self.lobbies@, i as int);
                }
                return Some(i);
            }
            i = i + 1;
        }
        None
    }

    /// Puts `l` in place of the lobby at `i`, which has the same owner, and
    /// returns the lobby that stood there.
    fn replace_at(&mut self, i: usize, l: Lobby) -> (prev: Lobby)
        requires
            old(self).wf(),
            i < old(self).lobbies@.len(),
            l.spec_owner() == old(self).lobbies@[i as int].spec_owner(),
            l.wf(),
            l@.relay matches Some(r) ==> r.id < old(self)@.next_id,
        ensures
            final(self).wf(),
            prev == old(self).lobbies@[i as int],
            final(self)@ == (RegistryView {
                lobbies: old(self)@.lobbies.insert(l.spec_owner(), l@),
                next_id: old(self)@.next_id,
            }),
    {
        proof {
            lemma_map_update(self.lobbies@, i as int, l);
        }
        let mut slot = l;
        self.lobbies.set_and_swap(i, &mut slot);
        slot
    }

    /// A snapshot of `user`'s lobby: its owner and whether a streamer is
    /// connected.
    pub fn lookup(&self, user: &str) -> (r: Option<LobbySummary>)
        requires
            self.wf(),
        ensures
            self@.lobbies.contains_key(user@) <==> r is Some,
            r matches Some(s) ==> s.owner@ == user@ && s.connected == self@.lobbies[user@].relay is Some,
    {
        let u = user.to_owned();
        match self.find(&u) {
            Some(i) => Some(
                LobbySummary {
                    owner: self.lobbies[i].owner.clone(),
                    connected: self.lobbies[i].connection.is_some(),
                },
            ),
            None => None,
        }
    }

    /// Creates a lobby for `user` with a freshly drawn streamer key and
    /// returns that key; fails if `user` has a lobby already.
    pub fn new_lobby(&mut self, user: &str) -> (r: Result<String, Errors>)
        requires
            old(self).wf(),
        ensures
            final(self).wf(),
            match r {
                Ok(k) => k@.len() == 36 && old(self)@.create(user@, k@) == (
                    Ok::<Seq<char>, ErrorKind>(k@),
                    final(self)@,
                ),
                Err(e) => old(self)@.create(user@, Seq::empty()) == (
                    Err::<Seq<char>, ErrorKind>(e.kind()),
                    final(self)@,
                ),
            },
    {
        let u = user.to_owned();
        if self.find(&u).is_some() {
            return Err(lobby_exists());
        }
        let lobby = Lobby::new(u);
        let key = lobby.streamer_key.clone();
        proof {
            lemma_map_push(self.lobbies@, lobby);
        }
        self.lobbies.push(lobby);
        Ok(key)
    }

    /// Creates a lobby for `user` whose streamer key is `key` and returns
    /// that key; fails if `user` has a lobby already.
    pub fn new_lobby_with_key(&mut self, user: &str, key: String) -> (r: Result<String, Errors>)
        requires
            old(self).wf(),
        ensures
            final(self).wf(),
            (match r {
                Ok(k) => Ok::<Seq<char>, ErrorKind>(k@),
                Err(e) => Err(e.kind()),
            }, final(self)@) == old(self)@.create(user@, key@),
    {
        let u = user.to_owned();
        if self.find(&u).is_some() {
            return Err(lobby_exists());
        }
        let lobby = Lobby::with_key(u, key);
        let k = lobby.streamer_key.clone();
        proof {
            lemma_map_push(self.lobbies@, lobby);
        }
        self.lobbies.push(lobby);
        Ok(k)
    }

    /// Removes `user`'s lobby, with its relay; does nothing if there is none.
    pub fn remove(&mut self, user: &str)
        requires
            old(self).wf(),
        ensures
            final(self).wf(),
            final(self)@ == old(self)@.remove(user@),
    {
        let u = user.to_owned();
        match self.find(&u) {
            Some(i) => {
                proof {
                    lemma_map_remove(self.lobbies@, i as int);
                }
                self.lobbies.remove(i);
            },
            None => {
                proof {
                    assert(self@.lobbies.remove(user@) =~= self@.lobbies);
                }
            },
        }
    }

    /// The streamer handshake for `user`'s lobby with `key`.
    ///
    /// Fails with `NotFound` if there is no such lobby, `NotAllowed` if
    /// the key differs from the lobby's, `AlreadyConnected` if a streamer
    /// holds the lobby, and `Unknown` once every relay identity has been
    /// issued. On success a fresh relay is installed in the same step, so
    /// of two handshakes exactly one can win.
    pub fn connect_streamer(&mut self, user: &str, key: &str) -> (r: Result<StreamerHandle, Errors>)
        requires
            old(self).wf(),
        ensures
            final(self).wf(),
            (match r {
                Ok(h) => Ok::<u64, ErrorKind>(h.relay),
                Err(e) => Err(e.kind()),
            }, final(self)@) == old(self)@.connect_streamer(user@, key@),
            r matches Ok(h) ==> h.user@ == user@,
    {
        let u = user.to_owned();
        let i = match self.find(&u) {
            Some(i) => i,
            None => {
                return Err(Errors::NotFound("You do not have a lobby open".to_owned()));
            },
        };
        let k = key.to_owned();
        if !(k == self.lobbies[i].streamer_key) {
            return Err(Errors::NotAllowed("Wrong key!".to_owned()));
        }
        if self.lobbies[i].connection.is_some() {
            return Err(
                Errors::AlreadyConnected("You are already connected to this lobby".to_owned()),
            );
        }
        if self.next_relay_id == u64::MAX {
            return Err(Errors::Unknown("No relay identity is left".to_owned()));
        }
        let id = self.next_relay_id;
        self.next_relay_id = id + 1;
        let l = Lobby { owner: u.clone(), streamer_key: k, connection: Some(Relay::new(id)) };
        let _ = self.replace_at(i, l);
        Ok(StreamerHandle { user: u, relay: id })
    }

    /// The viewer handshake for `user`'s lobby.
    ///
    /// Fails with `NotFound` if there is no such lobby or no streamer is
    /// connected to it. On success the viewer's cursor starts after all
    /// that was broadcast so far; the registry is not changed.
    pub fn connect_user(&self, user: &str) -> (r: Result<ViewerHandle, Errors>)
        requires
            self.wf(),
        ensures
            (match r {
                Ok(h) => Ok::<(u64, nat), ErrorKind>((h.relay, h.cursor as nat)),
                Err(e) => Err(e.kind()),
            }) == self@.connect_viewer(user@),
            r matches Ok(h) ==> h.user@ == user@,
    {
        let u = user.to_owned();
        let i = match self.find(&u) {
            Some(i) => i,
            None => {
                return Err(Errors::NotFound("Lobby does not exist".to_owned()));
            },
        };
        match &self.lobbies[i].connection {
            Some(relay) => {
                let id = relay.id();
                let cursor = relay.subscribe();
                Ok(ViewerHandle { user: u, relay: id, cursor })
            },
            None => Err(
                Errors::NotFound("The game has not yet connected to this lobby".to_owned()),
            ),
        }
    }

    /// Detaches relay `relay` from `user`'s lobby, for `restore_relay` to
    /// put back; `None` if that relay is not there.
    pub(crate) fn take_relay(&mut self, user: &String, relay: u64) -> (r: Option<Relay>)
        requires
            old(self).wf(),
        ensures
            final(self).wf(),
            match r {
                Some(x) => {
                    &&& old(self)@.relay_of(user@, relay) == Some(x@)
                    &&& x.wf()
                    &&& x@.id < old(self)@.next_id
                    &&& final(self)@ == (RegistryView {
                        lobbies: old(self)@.lobbies.insert(
                            user@,
                            LobbyView { key: old(self)@.lobbies[user@].key, relay: None },
                        ),
                        next_id: old(self)@.next_id,
                    })
                },
                None => {
                    &&& old(self)@.relay_of(user@, relay) is None
                    &&& final(self)@ == old(self)@
                },
            },
    {
        let i = match self.find(user) {
            Some(i) => i,
            None => {
                return None;
            },
        };
        let live = match &self.lobbies[i].connection {
            Some(x) => x.id() == relay,
            None => false,
        };
        if !live {
            return None;
        }
        let l = Lobby {
            owner: self.lobbies[i].owner.clone(),
            streamer_key: self.lobbies[i].streamer_key.clone(),
            connection: None,
        };
        let prev = self.replace_at(i, l);
        prev.connection
    }

    /// Installs `x` as the relay of `user`'s lobby.
    pub(crate) fn restore_relay(&mut self, user: &String, x: Relay)
        requires
            old(self).wf(),
            x.wf(),
            x@.id < old(self)@.next_id,
            old(self)@.lobbies.contains_key(user@),
        ensures
            final(self).wf(),
            final(self)@ == old(self)@.with_relay(user@, x@),
    {
        match self.find(user) {
            Some(i) => {
                let l = Lobby {
                    owner: self.lobbies[i].owner.clone(),
                    streamer_key: self.lobbies[i].streamer_key.clone(),
                    connection: Some(x),
                };
                let _ = self.replace_at(i, l);
            },
            None => {},
        }
    }

    /// The relay `relay` of `user`'s lobby, if it is still there.
    pub(crate) fn relay_ref(&self, user: &String, relay: u64) -> (r: Option<&Relay>)
        requires
            self.wf(),
        ensures
            match r {
                Some(x) => self@.relay_of(user@, relay) == Some(x@) && x.wf(),
                None => self@.relay_of(user@, relay) is None,
            },
    {
        let i = match self.find(user) {
            Some(i) => i,
            None => {
                return None;
            },
        };
        match &self.lobbies[i].connection {
            Some(x) => if x.id() == relay {
                Some(x)
            } else {
                None
            },
            None => None,
        }
    }
}

} // verus!
