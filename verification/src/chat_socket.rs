//! The chat endpoint: the registry of connected peers and what is queued
//! for each of them.
//!
//! A connection is admitted on a valid bearer token. From then on every
//! frame it sends is queued for every peer in the registry, itself
//! included, until it leaves. The registry is the one thing that connections
//! share: the caller keeps it behind a lock and writes what is queued for a
//! peer to that peer's socket after the lock has been given up.

use crate::clock::{unix_time, CLOCK_END};
use crate::errors::Error;
use crate::json::{
    bool_json, bool_text, int_decimal, int_text, json_string_text, json_text,
    optional_string_text,
};
use crate::jwt::{decode, token_claims};
use crate::session_jwt::SessionJwt;
use vstd::prelude::*;
use vstd::string::*;

verus! {

/// The address of a peer: an internet address and a port.
#[derive(Clone, Copy, Debug, PartialEq, Eq, Structural)]
pub enum PeerAddr {
    /// An address of version 4, its four bytes as one number.
    V4 { ip: u32, port: u16 },
    /// An address of version 6, its sixteen bytes as one number.
    V6 { ip6: u128, port6: u16, flowinfo: u32, scope_id: u32 },
}

/// A peer in the registry: who it is, and what waits to be written to it.
/// The queue has no bound: what a peer does not read piles up.
#[derive(Debug)]
pub struct ChatClient {
    user: String,
    queue: Vec<String>,
}

/// A [`ChatClient`] as contracts see it.
pub struct ChatClientView {
    pub user: Seq<char>,
    pub queue: Seq<Seq<char>>,
}

impl View for ChatClient {
    type V = ChatClientView;

    closed spec fn view(&self) -> ChatClientView {
        ChatClientView { user: self.user@, queue: self.queue.deep_view() }
    }
}

impl ChatClient {
    /// A peer with this identity and nothing queued.
    pub fn new(user: String) -> (r: Self)
        ensures
            r@ == (ChatClientView { user: user@, queue: Seq::empty() }),
    {
        let r = ChatClient { user, queue: Vec::new() };
        assert(r.queue.deep_view() =~= Seq::<Seq<char>>::empty());
        r
    }

    /// The identity of the peer.
    pub fn user(&self) -> (r: &str)
        ensures
            r@ == self@.user,
    {
        self.user.as_str()
    }

    /// How many messages wait to be written to the peer.
    pub fn queued(&self) -> (r: usize)
        ensures
            r == self@.queue.len(),
    {
        self.queue.len()
    }
}

/// A message as a peer receives it.
#[derive(Debug)]
pub struct ChatMessage {
    /// The identity of the peer that the message is from.
    pub user: String,
    /// When the message was taken in, in seconds since the Unix epoch.
    pub time: i64,
    /// Whether the receiver is the sender.
    pub its_me: bool,
    /// What the sender wrote; nothing for the notice that it has joined.
    pub msg: Option<String>,
}

impl ChatMessage {
    /// The message as one JSON object, given the JSON text of its strings.
    pub open spec fn frame_text(
        user_json: Seq<char>,
        time: int,
        its_me: bool,
        msg_json: Seq<char>,
    ) -> Seq<char> {
        "{\"user\":"@ + user_json + ",\"time\":"@ + int_text(time) + ",\"its_me\":"@
            + bool_text(its_me) + ",\"msg\":"@ + msg_json + "}"@
    }

    /// What the sender wrote, as contracts see it.
    pub open spec fn body(&self) -> Option<Seq<char>> {
        match self.msg {
            Some(text) => Some(text@),
            None => None,
        }
    }

    /// The text that goes on the wire.
    pub open spec fn text(&self) -> Seq<char> {
        message_text(self.user@, self.time as int, self.its_me, self.body())
    }

    /// Encodes the message as the JSON object that goes on the wire.
    pub fn to_message(&self) -> (r: String)
        ensures
            r@ == self.text(),
    {
        let user_json = json_text(self.user.as_str());
        let msg_json = match &self.msg {
            Some(text) => json_text(text.as_str()),
            None => "null".to_owned(),
        };
        frame_message(user_json.as_str(), self.time, self.its_me, msg_json.as_str())
    }
}

/// The text on the wire of a message from `user`, taken in at `time`, for a
/// receiver that is the sender or not.
pub open spec fn message_text(
    user: Seq<char>,
    time: int,
    its_me: bool,
    body: Option<Seq<char>>,
) -> Seq<char> {
    ChatMessage::frame_text(json_string_text(user), time, its_me, optional_string_text(body))
}

/// Frames a message around the JSON text of its strings.
pub fn frame_message(user_json: &str, time: i64, its_me: bool, msg_json: &str) -> (r: String)
    ensures
        r@ == ChatMessage::frame_text(user_json@, time as int, its_me, msg_json@),
{
    let mut text = "{\"user\":".to_owned();
    text.append(user_json);
    text.append(",\"time\":");
    text.append(int_decimal(time).as_str());
    text.append(",\"its_me\":");
    text.append(bool_json(its_me));
    text.append(",\"msg\":");
    text.append(msg_json);
    text.append("}");
    text
}

/// What a connection is told when its token is refused. It is the same
/// whatever was wrong with the token: the reason is for the log.
pub open spec fn rejection_text() -> Seq<char> {
    "{\"error\":\"Authentication error\"}"@
}

/// Writes what a connection is told when its token is refused.
pub fn rejection() -> (r: String)
    ensures
        r@ == rejection_text(),
{
    "{\"error\":\"Authentication error\"}".to_owned()
}

/// The registry as contracts see it: the peers by their addresses.
pub type Peers = Map<PeerAddr, ChatClientView>;

/// The registry after a message from `user` at `sender` has been queued for
/// every peer: each peer gets it at the end of its queue, marked as its own
/// for the peer at `sender` and for no other.
pub open spec fn enqueued(
    peers: Peers,
    sender: PeerAddr,
    user: Seq<char>,
    time: int,
    body: Option<Seq<char>>,
) -> Peers {
    Map::new(
        |addr: PeerAddr| peers.contains_key(addr),
        |addr: PeerAddr|
            ChatClientView {
                user: peers[addr].user,
                queue: peers[addr].queue.push(message_text(user, time, addr == sender, body)),
            },
    )
}

/// The registry after `user` has joined at `addr`: it is in the registry,
/// with nothing queued but the notice of its joining, which every peer gets.
pub open spec fn joined(peers: Peers, addr: PeerAddr, user: Seq<char>, time: int) -> Peers {
    enqueued(
        peers.insert(addr, ChatClientView { user, queue: Seq::empty() }),
        addr,
        user,
        time,
        None,
    )
}

/// The registry after the peer at `addr` has sent `text`: every peer gets
/// it, under the identity that the sender was admitted with. A frame from an
/// address that is not in the registry changes nothing.
pub open spec fn relayed(peers: Peers, addr: PeerAddr, text: Seq<char>, time: int) -> Peers {
    if peers.contains_key(addr) {
        enqueued(peers, addr, peers[addr].user, time, Some(text))
    } else {
        peers
    }
}

/// The registry after what was queued for the peer at `addr` has been taken
/// out to be written.
pub open spec fn drained(peers: Peers, addr: PeerAddr) -> Peers {
    if peers.contains_key(addr) {
        peers.insert(addr, ChatClientView { user: peers[addr].user, queue: Seq::empty() })
    } else {
        peers
    }
}

/// What the registry answers to a connection that asks to be let in.
#[derive(Debug)]
pub enum Admission {
    /// The connection is a peer now.
    Accepted,
    /// The connection is refused. It is told the notice, and is closed. The
    /// reason is why its token was refused, for the log.
    Rejected { notice: String, reason: Error },
}

/// The registry of the peers that are connected.
#[derive(Debug)]
pub struct PeerMap {
    peers: Vec<(PeerAddr, ChatClient)>,
}

impl View for PeerMap {
    type V = Peers;

    closed spec fn view(&self) -> Peers {
        Map::new(
            |addr: PeerAddr| self.has(addr),
            |addr: PeerAddr| self.peers@[self.index_of(addr)].1@,
        )
    }
}

impl PeerMap {
    spec fn addrs(&self) -> Seq<PeerAddr> {
        self.peers@.map_values(|peer: (PeerAddr, ChatClient)| peer.0)
    }

    spec fn has(&self, addr: PeerAddr) -> bool {
        exists|i: int| 0 <= i < self.peers@.len() && (#[trigger] self.peers@[i]).0 == addr
    }

    spec fn index_of(&self, addr: PeerAddr) -> int {
        choose|i: int| 0 <= i < self.peers@.len() && (#[trigger] self.peers@[i]).0 == addr
    }

    /// No address is in the registry twice.
    pub closed spec fn wf(&self) -> bool {
        forall|i: int, j: int|
            0 <= i < j < self.peers@.len() ==> (#[trigger] self.peers@[i]).0 != (
            #[trigger] self.peers@[j]).0
    }

    proof fn lemma_dom(&self)
        requires
            self.wf(),
        ensures
            self@.dom() == self.addrs().to_set(),
            self@.dom().finite(),
            self@.dom().len() == self.peers@.len(),
            self.addrs().no_duplicates(),
    {
        let addrs = self.addrs();
        assert forall|addr: PeerAddr| self@.dom().contains(addr) <==> addrs.to_set().contains(
            addr,
        ) by {
            if self.has(addr) {
                let i = self.index_of(addr);
                assert(addrs[i] == addr);
            }
            if addrs.contains(addr) {
                let i = choose|i: int| 0 <= i < addrs.len() && addrs[i] == addr;
                assert(self.peers@[i].0 == addr);
            }
        }
        assert(self@.dom() =~= addrs.to_set());
        assert forall|i: int, j: int|
            0 <= i < addrs.len() && 0 <= j < addrs.len() && i != j implies addrs[i] != addrs[j] by {
            if i < j {
                assert(self.peers@[i].0 != self.peers@[j].0);
            } else {
                assert(self.peers@[j].0 != self.peers@[i].0);
            }
        }
        addrs.unique_seq_to_set();
        vstd::seq_lib::seq_to_set_is_finite(addrs);
    }

    /// A registry without peers.
    pub fn new() -> (r: Self)
        ensures
            r.wf(),
            r@ == Peers::empty(),
    {
        let r = PeerMap { peers: Vec::new() };
        assert(r@ =~= Peers::empty());
        r
    }

    /// The number of peers in the registry.
    pub fn len(&self) -> (r: usize)
        requires
            self.wf(),
        ensures
            self@.dom().finite(),
            r == self@.dom().len(),
    {
        proof {
            self.lemma_dom();
        }
        self.peers.len()
    }

    fn position(&self, addr: PeerAddr) -> (r: Option<usize>)
        requires
            self.wf(),
        ensures
            match r {
                Some(i) => i < self.peers@.len() && self.peers@[i as int].0 == addr && self.has(
                    addr,
                ) && self.index_of(addr) == i,
                None => !self.has(addr),
            },
    {
        let mut i: usize = 0;
        while i < self.peers.len()
            invariant
                self.wf(),
                i <= self.peers@.len(),
                forall|j: int| 0 <= j < i ==> (#[trigger] self.peers@[j]).0 != addr,
            decreases self.peers@.len() - i,
        {
            if self.peers[i].0 == addr {
                assert(self.peers@[i as int].0 == addr);
                return Some(i);
            }
            i += 1;
        }
        None
    }

    /// Whether a peer with this address is in the registry.
    pub fn contains(&self, addr: PeerAddr) -> (r: bool)
        requires
            self.wf(),
        ensures
            r == self@.contains_key(addr),
    {
        self.position(addr).is_some()
    }

    /// The peer with this address, if it is in the registry.
    pub fn get(&self, addr: PeerAddr) -> (r: Option<&ChatClient>)
        requires
            self.wf(),
        ensures
            match r {
                Some(client) => self@.contains_key(addr) && self@[addr] == client@,
                None => !self@.contains_key(addr),
            },
    {
        match self.position(addr) {
            Some(i) => Some(&self.peers[i].1),
            None => None,
        }
    }

    /// Puts a peer into the registry under its address, in place of the one
    /// that was there, if any.
    pub fn insert(&mut self, addr: PeerAddr, client: ChatClient)
        requires
            old(self).wf(),
        ensures
            final(self).wf(),
            final(self)@ == old(self)@.insert(addr, client@),
    {
        let ghost before = *self;
        match self.position(addr) {
            Some(i) => {
                self.peers[i] = (addr, client);
            },
            None => {
                self.peers.push((addr, client));
            },
        }
        proof {
            let after = *self;
            assert forall|a: PeerAddr| after.has(a) <==> (before.has(a) || a == addr) by {
                if before.has(a) {
                    let j = before.index_of(a);
                    assert(after.peers@[j].0 == a);
                }
                if a == addr {
                    let j = if before.has(a) {
                        before.index_of(a)
                    } else {
                        before.peers@.len() as int
                    };
                    assert(after.peers@[j].0 == a);
                }
                if after.has(a) {
                    let j = after.index_of(a);
                    if a != addr {
                        assert(before.peers@[j].0 == a);
                    }
                }
            }
            assert forall|a: PeerAddr| after.has(a) implies after@[a] == before@.insert(
                addr,
                client@,
            )[a] by {
                let j = after.index_of(a);
                if a != addr {
                    assert(before.peers@[j].0 == a);
                    assert(before.index_of(a) == j);
                }
            }
            assert(after@ =~= before@.insert(addr, client@));
        }
    }

    /// Takes the peer with this address out of the registry, if it is
    /// there.
    pub fn remove(&mut self, addr: PeerAddr) -> (r: Option<ChatClient>)
        requires
            old(self).wf(),
        ensures
            final(self).wf(),
            final(self)@ == old(self)@.remove(addr),
            match r {
                Some(client) => old(self)@.contains_key(addr) && old(self)@[addr] == client@,
                None => !old(self)@.contains_key(addr),
            },
    {
        let ghost before = *self;
        match self.position(addr) {
            Some(i) => {
                let (_, client) = self.peers.remove(i);
                proof {
                    let after = *self;
                    assert forall|a: PeerAddr| after.has(a) <==> (before.has(a) && a != addr) by {
                        if before.has(a) && a != addr {
                            let j = before.index_of(a);
                            let k = if j < i {
                                j
                            } else {
                                j - 1
                            };
                            assert(after.peers@[k].0 == a);
                        }
                        if after.has(a) {
                            let k = after.index_of(a);
                            let j = if k < i {
                                k
                            } else {
                                k + 1
                            };
                            assert(before.peers@[j].0 == a);
                        }
                    }
                    assert forall|a: PeerAddr| after.has(a) implies after@[a] == before@[a] by {
                        let k = after.index_of(a);
                        let j = if k < i {
                            k
                        } else {
                            k + 1
                        };
                        assert(before.peers@[j].0 == a);
                        assert(before.index_of(a) == j);
                    }
                    assert(after@ =~= before@.remove(addr));
                }
                Some(client)
            },
            None => {
                assert(self@ =~= before@.remove(addr));
                None
            },
        }
    }
}

impl PeerMap {
    /// Queues a message for every peer, framed around the JSON text of its
    /// strings.
    fn enqueue(&mut self, sender: PeerAddr, user_json: &str, time: i64, msg_json: &str)
        requires
            old(self).wf(),
        ensures
            final(self).wf(),
            final(self)@.dom() == old(self)@.dom(),
            forall|addr: PeerAddr| #[trigger]
                old(self)@.contains_key(addr) ==> final(self)@[addr] == (ChatClientView {
                    user: old(self)@[addr].user,
                    queue: old(self)@[addr].queue.push(
                        ChatMessage::frame_text(user_json@, time as int, addr == sender, msg_json@),
                    ),
                }),
    {
        let ghost before = *self;
        let mut i: usize = 0;
        while i < self.peers.len()
            invariant
                before.wf(),
                i <= self.peers@.len(),
                self.peers@.len() == before.peers@.len(),
                forall|j: int|
                    0 <= j < self.peers@.len() ==> (#[trigger] self.peers@[j]).0
                        == before.peers@[j].0,
                forall|j: int|
                    i <= j < self.peers@.len() ==> (#[trigger] self.peers@[j]).1@
                        == before.peers@[j].1@,
                forall|j: int|
                    0 <= j < i ==> (#[trigger] self.peers@[j]).1@ == (ChatClientView {
                        user: before.peers@[j].1@.user,
                        queue: before.peers@[j].1@.queue.push(
                            ChatMessage::frame_text(
                                user_json@,
                                time as int,
                                before.peers@[j].0 == sender,
                                msg_json@,
                            ),
                        ),
                    }),
            decreases self.peers@.len() - i,
        {
            let its_me = self.peers[i].0 == sender;
            let text = frame_message(user_json, time, its_me, msg_json);
            let ghost queue = self.peers@[i as int].1.queue.deep_view();
            self.peers[i].1.queue.push(text);
            assert(self.peers@[i as int].1.queue.deep_view() =~= queue.push(text@));
            i += 1;
        }
        proof {
            let after = *self;
            assert forall|a: PeerAddr| after.has(a) <==> before.has(a) by {
                if before.has(a) {
                    let j = before.index_of(a);
                    assert(after.peers@[j].0 == a);
                }
                if after.has(a) {
                    let j = after.index_of(a);
                    assert(before.peers@[j].0 == a);
                }
            }
            assert(after@.dom() =~= before@.dom());
            assert forall|i: int, j: int| 0 <= i < j < after.peers@.len() implies (
            #[trigger] after.peers@[i]).0 != (#[trigger] after.peers@[j]).0 by {
                assert(before.peers@[i].0 != before.peers@[j].0);
            }
            assert forall|a: PeerAddr| #[trigger] before@.contains_key(a) implies after@[a] == (
            ChatClientView {
                user: before@[a].user,
                queue: before@[a].queue.push(
                    ChatMessage::frame_text(user_json@, time as int, a == sender, msg_json@),
                ),
            }) by {
                let j = before.index_of(a);
                assert(after.peers@[j].0 == a);
                assert(after.index_of(a) == j);
            }
        }
    }

    /// Queues a message from `user` at `sender` for every peer in the
    /// registry.
    pub fn broadcast(&mut self, sender: PeerAddr, user: &str, time: i64, body: Option<&str>)
        requires
            old(self).wf(),
        ensures
            final(self).wf(),
            final(self)@ == enqueued(
                old(self)@,
                sender,
                user@,
                time as int,
                match body {
                    Some(text) => Some(text@),
                    None => None,
                },
            ),
    {
        let user_json = json_text(user);
        let msg_json = match body {
            Some(text) => json_text(text),
            None => "null".to_owned(),
        };
        let ghost before = self@;
        self.enqueue(sender, user_json.as_str(), time, msg_json.as_str());
        assert(self@ =~= enqueued(
            before,
            sender,
            user@,
            time as int,
            match body {
                Some(text) => Some(text@),
                None => None,
            },
        ));
    }
}

impl PeerMap {
    /// Lets `user` in at `addr`, at `time`: puts it into the registry with
    /// nothing queued, and queues the notice of its joining for every peer,
    /// the new one included.
    pub fn join_at(&mut self, addr: PeerAddr, user: String, time: i64)
        requires
            old(self).wf(),
        ensures
            final(self).wf(),
            final(self)@ == joined(old(self)@, addr, user@, time as int),
    {
        let user_json = json_text(user.as_str());
        let ghost before = self@;
        self.insert(addr, ChatClient::new(user));
        self.enqueue(addr, user_json.as_str(), time, "null");
        assert(self@ =~= joined(before, addr, user@, time as int));
    }

    /// Takes in a frame that the peer at `addr` has sent, at `time`: queues
    /// it for every peer, under the identity that the sender was let in
    /// with. Returns whether the sender is a peer; a frame from any other
    /// address changes nothing.
    pub fn relay_at(&mut self, addr: PeerAddr, text: &str, time: i64) -> (known: bool)
        requires
            old(self).wf(),
        ensures
            final(self).wf(),
            known == old(self)@.contains_key(addr),
            final(self)@ == relayed(old(self)@, addr, text@, time as int),
    {
        let user = match self.get(addr) {
            Some(client) => client.user().to_owned(),
            None => {
                return false;
            },
        };
        self.broadcast(addr, user.as_str(), time, Some(text));
        true
    }

    /// Takes in a frame that the peer at `addr` has sent, now by the wall
    /// clock.
    pub fn relay(&mut self, addr: PeerAddr, text: &str) -> (known: bool)
        requires
            old(self).wf(),
        ensures
            final(self).wf(),
            known == old(self)@.contains_key(addr),
            exists|time: int|
                0 <= time < CLOCK_END && final(self)@ == #[trigger] relayed(
                    old(self)@,
                    addr,
                    text@,
                    time,
                ),
    {
        let time = unix_time();
        self.relay_at(addr, text, time)
    }

    /// Takes the peer at `addr` out of the registry when its connection has
    /// ended. Returns whether it was there. The peers that stay are told
    /// nothing.
    pub fn leave(&mut self, addr: PeerAddr) -> (r: bool)
        requires
            old(self).wf(),
        ensures
            final(self).wf(),
            r == old(self)@.contains_key(addr),
            final(self)@ == old(self)@.remove(addr),
    {
        self.remove(addr).is_some()
    }

    /// Takes out what is queued for the peer at `addr`, oldest first, to be
    /// written to its socket. Nothing is queued for an address that is not
    /// in the registry.
    pub fn take_outbound(&mut self, addr: PeerAddr) -> (r: Vec<String>)
        requires
            old(self).wf(),
        ensures
            final(self).wf(),
            final(self)@ == drained(old(self)@, addr),
            r.deep_view() == if old(self)@.contains_key(addr) {
                old(self)@[addr].queue
            } else {
                Seq::empty()
            },
    {
        let ghost before = self@;
        match self.remove(addr) {
            Some(client) => {
                let ChatClient { user, queue } = client;
                self.insert(addr, ChatClient::new(user));
                assert(self@ =~= drained(before, addr));
                queue
            },
            None => {
                assert(self@ =~= before);
                let none: Vec<String> = Vec::new();
                assert(none.deep_view() =~= Seq::<Seq<char>>::empty());
                none
            },
        }
    }

    /// Answers a connection at `addr` whose token has been checked, at
    /// `time`. The holder of a valid token joins under the subject of the
    /// token. Any other connection is refused: the registry stays as it is,
    /// and the connection is told so, in the same words whatever the reason.
    pub fn admit_at(
        &mut self,
        addr: PeerAddr,
        credential: Result<SessionJwt, Error>,
        time: i64,
    ) -> (r: Admission)
        requires
            old(self).wf(),
        ensures
            final(self).wf(),
            match credential {
                Ok(claims) => r is Accepted && final(self)@ == joined(
                    old(self)@,
                    addr,
                    claims.sub@,
                    time as int,
                ),
                Err(refused) => {
                    &&& final(self)@ == old(self)@
                    &&& r matches Admission::Rejected { notice, reason }
                    &&& notice@ == rejection_text()
                    &&& reason == refused
                },
            },
    {
        match credential {
            Ok(claims) => {
                self.join_at(addr, claims.sub, time);
                Admission::Accepted
            },
            Err(reason) => Admission::Rejected { notice: rejection(), reason },
        }
    }

    /// Answers a connection at `addr` that has presented `token`: verifies
    /// the token under the secret `key` and lets its holder in, now by the
    /// wall clock, or refuses the connection.
    ///
    /// Whether a token is valid is for the verification to say, and depends
    /// on the clock. A connection that is accepted joins under the subject
    /// that its token carries. One that is refused leaves the registry as it
    /// was.
    pub fn accept(&mut self, addr: PeerAddr, key: &str, token: &str) -> (r: Admission)
        requires
            old(self).wf(),
        ensures
            final(self).wf(),
            match r {
                Admission::Accepted => {
                    &&& token_claims(token@).1 matches Some(user)
                    &&& exists|time: int|
                        0 <= time < CLOCK_END && final(self)@ == #[trigger] joined(
                            old(self)@,
                            addr,
                            user,
                            time,
                        )
                },
                Admission::Rejected { notice, reason } => {
                    &&& final(self)@ == old(self)@
                    &&& notice@ == rejection_text()
                    &&& (reason is JWTError || reason is InvalidJWT)
                    &&& (reason is InvalidJWT ==> token_claims(token@).0 is None || token_claims(
                        token@,
                    ).1 is None)
                },
            },
    {
        let credential = decode(key.to_owned(), token.to_owned());
        let time = unix_time();
        let ghost before = self@;
        let r = self.admit_at(addr, credential, time);
        proof {
            if r is Accepted {
                let user = token_claims(token@).1->Some_0;
                assert(self@ == joined(before, addr, user, time as int));
            }
        }
        r
    }
}

/// One thing that happened at the chat endpoint.
pub enum ChatStep {
    /// The connection at `addr` has presented a token. `user` is the
    /// subject of the token where it was valid.
    Hello { addr: PeerAddr, user: Option<Seq<char>>, time: int },
    /// The connection at `addr` has sent a frame.
    Frame { addr: PeerAddr, text: Seq<char>, time: int },
    /// What was queued for the connection at `addr` has been taken out to be
    /// written.
    Drain { addr: PeerAddr },
    /// The connection at `addr` has ended.
    Gone { addr: PeerAddr },
}

impl ChatStep {
    /// The connection that the step is about.
    pub open spec fn addr(self) -> PeerAddr {
        match self {
            ChatStep::Hello { addr, .. } => addr,
            ChatStep::Frame { addr, .. } => addr,
            ChatStep::Drain { addr } => addr,
            ChatStep::Gone { addr } => addr,
        }
    }

    /// Whether the step is the connection at `addr` presenting a valid
    /// token.
    pub open spec fn admits(self, addr: PeerAddr) -> bool {
        self matches ChatStep::Hello { addr: a, user: Some(_), .. } && a == addr
    }

    /// Whether the step is the end of the connection at `addr`.
    pub open spec fn dismisses(self, addr: PeerAddr) -> bool {
        self matches ChatStep::Gone { addr: a } && a == addr
    }
}

/// The registry after one step.
pub open spec fn chat_step(peers: Peers, step: ChatStep) -> Peers {
    match step {
        ChatStep::Hello { addr, user: Some(user), time } => joined(peers, addr, user, time),
        ChatStep::Hello { addr, user: None, time } => peers,
        ChatStep::Frame { addr, text, time } => relayed(peers, addr, text, time),
        ChatStep::Drain { addr } => drained(peers, addr),
        ChatStep::Gone { addr } => peers.remove(addr),
    }
}

/// The registry after a sequence of steps.
pub open spec fn chat_run(peers: Peers, steps: Seq<ChatStep>) -> Peers
    decreases steps.len(),
{
    if steps.len() == 0 {
        peers
    } else {
        chat_step(chat_run(peers, steps.drop_last()), steps.last())
    }
}

/// Whether the connection at `addr` is live after the steps: it has
/// presented a valid token, and has not ended since.
pub open spec fn is_live(steps: Seq<ChatStep>, addr: PeerAddr) -> bool {
    exists|i: int|
        0 <= i < steps.len() && (#[trigger] steps[i]).admits(addr) && forall|j: int|
            i < j < steps.len() ==> !(#[trigger] steps[j]).dismisses(addr)
}

/// The steps without those of the connection at `addr`.
pub open spec fn without(steps: Seq<ChatStep>, addr: PeerAddr) -> Seq<ChatStep>
    decreases steps.len(),
{
    if steps.len() == 0 {
        Seq::empty()
    } else if steps.last().addr() == addr {
        without(steps.drop_last(), addr)
    } else {
        without(steps.drop_last(), addr).push(steps.last())
    }
}

/// A step changes who is in the registry only by letting a connection in or
/// by taking one out.
pub proof fn lemma_step_dom(peers: Peers, step: ChatStep)
    ensures
        chat_step(peers, step).dom() == if step.admits(step.addr()) {
            peers.dom().insert(step.addr())
        } else if step.dismisses(step.addr()) {
            peers.dom().remove(step.addr())
        } else {
            peers.dom()
        },
{
    let after = chat_step(peers, step);
    match step {
        ChatStep::Hello { addr, user: Some(user), time } => {
            assert(after.dom() =~= peers.dom().insert(addr));
        },
        ChatStep::Hello { addr, user: None, time } => {},
        ChatStep::Frame { addr, text, time } => {
            assert(after.dom() =~= peers.dom());
        },
        ChatStep::Drain { addr } => {
            assert(after.dom() =~= peers.dom());
        },
        ChatStep::Gone { addr } => {
            assert(after.dom() =~= peers.dom().remove(addr));
        },
    }
}

/// The connections that are live after the steps.
pub open spec fn live(steps: Seq<ChatStep>) -> Set<PeerAddr> {
    Set::new(|addr: PeerAddr| is_live(steps, addr))
}

/// The registry holds exactly the live connections: whatever has happened
/// since it was empty, a connection is in it if and only if it has presented
/// a valid token and has not ended since. So the registry has as many peers
/// as there are live connections, at every moment.
pub proof fn lemma_registry_holds_the_live(steps: Seq<ChatStep>)
    ensures
        chat_run(Peers::empty(), steps).dom() == live(steps),
        live(steps).finite(),
        chat_run(Peers::empty(), steps).dom().len() == live(steps).len(),
{
    assert forall|addr: PeerAddr|
        chat_run(Peers::empty(), steps).dom().contains(addr) <==> live(steps).contains(addr) by {
        lemma_peer_is_live(steps, addr);
    }
    assert(chat_run(Peers::empty(), steps).dom() =~= live(steps));
    lemma_peer_is_live(steps, PeerAddr::V4 { ip: 0, port: 0 });
}

proof fn lemma_peer_is_live(steps: Seq<ChatStep>, addr: PeerAddr)
    ensures
        chat_run(Peers::empty(), steps).contains_key(addr) <==> is_live(steps, addr),
        chat_run(Peers::empty(), steps).dom().finite(),
    decreases steps.len(),
{
    if steps.len() > 0 {
        let earlier = steps.drop_last();
        let last = steps.last();
        let before = chat_run(Peers::empty(), earlier);
        lemma_peer_is_live(earlier, addr);
        lemma_step_dom(before, last);
        if is_live(earlier, addr) && !last.dismisses(addr) {
            let i = choose|i: int|
                0 <= i < earlier.len() && (#[trigger] earlier[i]).admits(addr) && forall|j: int|
                    i < j < earlier.len() ==> !(#[trigger] earlier[j]).dismisses(addr);
            assert(steps[i].admits(addr));
            assert forall|j: int| i < j < steps.len() implies !(#[trigger] steps[j]).dismisses(
                addr,
            ) by {
                if j < earlier.len() {
                    assert(!earlier[j].dismisses(addr));
                }
            }
        }
        if last.admits(addr) {
            assert(steps[steps.len() - 1].admits(addr));
        }
        if is_live(steps, addr) {
            let i = choose|i: int|
                0 <= i < steps.len() && (#[trigger] steps[i]).admits(addr) && forall|j: int|
                    i < j < steps.len() ==> !(#[trigger] steps[j]).dismisses(addr);
            if i < earlier.len() {
                assert(earlier[i].admits(addr));
                assert forall|j: int| i < j < earlier.len() implies !(
                #[trigger] earlier[j]).dismisses(addr) by {
                    assert(!steps[j].dismisses(addr));
                }
                assert(!steps[steps.len() - 1].dismisses(addr));
            }
        }
    }
}

/// A connection that has never presented a valid token is not in the
/// registry, so nothing is ever queued for it, and nothing that it sends is
/// ever queued for anyone: the registry is what it would be had the
/// connection never been there.
pub proof fn lemma_stranger_leaves_no_trace(steps: Seq<ChatStep>, addr: PeerAddr)
    requires
        forall|i: int| 0 <= i < steps.len() ==> !(#[trigger] steps[i]).admits(addr),
    ensures
        !chat_run(Peers::empty(), steps).contains_key(addr),
        chat_run(Peers::empty(), steps) == chat_run(Peers::empty(), without(steps, addr)),
    decreases steps.len(),
{
    lemma_peer_is_live(steps, addr);
    if steps.len() > 0 {
        let earlier = steps.drop_last();
        let last = steps.last();
        let before = chat_run(Peers::empty(), earlier);
        assert forall|i: int| 0 <= i < earlier.len() implies !(#[trigger] earlier[i]).admits(
            addr,
        ) by {
            assert(!steps[i].admits(addr));
        }
        lemma_stranger_leaves_no_trace(earlier, addr);
        assert(!steps[steps.len() - 1].admits(addr));
        if last.addr() == addr {
            assert(chat_step(before, last) =~= before);
        } else {
            let kept = without(earlier, addr).push(last);
            assert(kept.drop_last() =~= without(earlier, addr));
            assert(kept.last() == last);
        }
    }
}

/// Frames of one sender reach every peer in the order in which they were
/// sent: each frame is queued behind everything that was queued before it.
pub proof fn lemma_frames_keep_their_order(
    peers: Peers,
    sender: PeerAddr,
    first: Seq<char>,
    first_time: int,
    second: Seq<char>,
    second_time: int,
    receiver: PeerAddr,
)
    requires
        peers.contains_key(sender),
        peers.contains_key(receiver),
    ensures
        relayed(
            relayed(peers, sender, first, first_time),
            sender,
            second,
            second_time,
        )[receiver].queue == peers[receiver].queue.push(
            message_text(peers[sender].user, first_time, receiver == sender, Some(first)),
        ).push(message_text(peers[sender].user, second_time, receiver == sender, Some(second))),
{
}

/// A peer is told of a message that it is its own exactly when it is the
/// sender, and every peer is told.
pub proof fn lemma_every_peer_is_told(
    peers: Peers,
    sender: PeerAddr,
    text: Seq<char>,
    time: int,
    receiver: PeerAddr,
)
    requires
        peers.contains_key(sender),
        peers.contains_key(receiver),
    ensures
        relayed(peers, sender, text, time).contains_key(receiver),
        relayed(peers, sender, text, time)[receiver].queue.last() == message_text(
            peers[sender].user,
            time,
            receiver == sender,
            Some(text),
        ),
{
}

} // verus!
