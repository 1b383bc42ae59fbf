//! The socket hub: the registry of connected clients and the fan-out of
//! presence and evidence events.
//!
//! Each client owns a bounded outbox. A message goes to every client that
//! has room for it; a client whose outbox is full is dropped, and the others
//! receive the message all the same.
use crate::liveness::pairs;
use crate::table::Table;
use crate::views::{ProjectionView, ViewEvidence};
use crate::text::texts;
use vstd::prelude::*;

verus! {

/// What a client asks of the hub.
#[derive(Debug, PartialEq, Eq)]
pub enum CentralWebSocketRequest {
    Connect(String),
    Disconnect,
}

/// What the hub sends to a client.
#[derive(Debug)]
pub enum CentralWebSocketResponse {
    /// The presence map: each live processor with the expiry of its lease.
    Processor(Vec<(String, i64)>),
    /// A newly accepted piece of evidence.
    Evidence(ViewEvidence),
    /// A processor whose lease ran out.
    Left(String),
}

/// Mathematical value of a [`CentralWebSocketResponse`].
pub ghost enum ResponseView {
    Processor(Seq<(Seq<char>, i64)>),
    Evidence(ProjectionView),
    Left(Seq<char>),
}

impl View for CentralWebSocketResponse {
    type V = ResponseView;

    open spec fn view(&self) -> ResponseView {
        match self {
            CentralWebSocketResponse::Processor(m) => ResponseView::Processor(pairs(m@)),
            CentralWebSocketResponse::Evidence(e) => ResponseView::Evidence(e@),
            CentralWebSocketResponse::Left(id) => ResponseView::Left(id@),
        }
    }
}

impl CentralWebSocketResponse {
    /// An independent copy with the same value.
    pub fn duplicate(&self) -> (r: Self)
        ensures
            r@ == self@,
    {
        match self {
            CentralWebSocketResponse::Processor(m) => {
                let mut copy: Vec<(String, i64)> = Vec::new();
                let mut i: usize = 0;
                while i < m.len()
                    invariant
                        i <= m.len(),
                        copy@.len() == i,
                        forall|j: int|
                            0 <= j < i ==> (#[trigger] copy@[j]).0@ == m@[j].0@ && copy@[j].1
                                == m@[j].1,
                    decreases m.len() - i,
                {
                    copy.push((m[i].0.clone(), m[i].1));
                    i += 1;
                }
                assert(pairs(copy@) =~= pairs(m@));
                CentralWebSocketResponse::Processor(copy)
            },
            CentralWebSocketResponse::Evidence(e) => CentralWebSocketResponse::Evidence(
                e.duplicate(),
            ),
            CentralWebSocketResponse::Left(id) => CentralWebSocketResponse::Left(id.clone()),
        }
    }
}

/// The messages of an outbox, in order.
pub open spec fn response_views(v: Seq<CentralWebSocketResponse>) -> Seq<ResponseView> {
    Seq::new(v.len(), |i: int| v[i]@)
}

/// A registered client: the user it speaks for and what waits to be sent.
pub struct Client {
    user_id: String,
    outbox: Vec<CentralWebSocketResponse>,
}

/// Mathematical value of a [`Client`].
pub ghost struct ClientView {
    pub user_id: Seq<char>,
    pub outbox: Seq<ResponseView>,
}

impl View for Client {
    type V = ClientView;

    closed spec fn view(&self) -> ClientView {
        ClientView { user_id: self.user_id@, outbox: response_views(self.outbox@) }
    }
}

/// Whether a text frame that is no tagged request is the bare word that
/// asks to disconnect.
pub open spec fn is_bare_disconnect(text: Seq<char>) -> bool {
    text == "disconnect"@
}

/// The request that a text frame carries: the tagged request where the
/// frame decoded as one, else a disconnect where the frame is the bare word
/// `disconnect`, else none.
pub fn request_of(decoded: Option<CentralWebSocketRequest>, text: &String) -> (r: Option<
    CentralWebSocketRequest,
>)
    ensures
        decoded.is_some() ==> r == decoded,
        decoded.is_none() ==> r == (if is_bare_disconnect(text@) {
            Some(CentralWebSocketRequest::Disconnect)
        } else {
            None
        }),
{
    match decoded {
        Some(req) => Some(req),
        None => {
            let word = String::from_str("disconnect");
            if *text == word {
                Some(CentralWebSocketRequest::Disconnect)
            } else {
                None
            }
        },
    }
}

/// The clients after `message` went out: those with room hold it at the end
/// of their outbox, the others are gone.
pub open spec fn delivered(m: Map<Seq<char>, ClientView>, capacity: nat, message: ResponseView) -> Map<
    Seq<char>,
    ClientView,
> {
    Map::new(
        |k: Seq<char>| m.contains_key(k) && m[k].outbox.len() < capacity,
        |k: Seq<char>| ClientView { user_id: m[k].user_id, outbox: m[k].outbox.push(message) },
    )
}

/// The clients after `message` went to `client` alone: the client holds it
/// at the end of its outbox where it had room, and is gone where it had
/// none.
pub open spec fn sent(
    m: Map<Seq<char>, ClientView>,
    capacity: nat,
    client: Seq<char>,
    message: ResponseView,
) -> Map<Seq<char>, ClientView> {
    if !m.contains_key(client) {
        m
    } else if m[client].outbox.len() < capacity {
        m.insert(
            client,
            ClientView { user_id: m[client].user_id, outbox: m[client].outbox.push(message) },
        )
    } else {
        m.remove(client)
    }
}

/// The clients that have no room for another message.
pub open spec fn saturated(m: Map<Seq<char>, ClientView>, capacity: nat) -> Set<Seq<char>> {
    Set::new(|k: Seq<char>| m.contains_key(k) && m[k].outbox.len() >= capacity)
}

/// The clients after `client` registered for `user` and was sent
/// `greeting`. What waited for an earlier registration of the same client
/// still waits, in front of the greeting.
pub open spec fn connected(
    m: Map<Seq<char>, ClientView>,
    capacity: nat,
    client: Seq<char>,
    user: Seq<char>,
    greeting: ResponseView,
) -> Map<Seq<char>, ClientView> {
    let waiting = if m.contains_key(client) {
        m[client].outbox
    } else {
        Seq::empty()
    };
    if waiting.len() < capacity {
        m.insert(client, ClientView { user_id: user, outbox: waiting.push(greeting) })
    } else {
        m.remove(client)
    }
}

/// Registry of connected clients.
pub struct Hub {
    clients: Table<Client>,
    capacity: usize,
}

impl Hub {
    /// The clients, each with its user and its outbox.
    pub closed spec fn view(&self) -> Map<Seq<char>, ClientView> {
        Map::new(|k: Seq<char>| self.clients@.contains_key(k), |k: Seq<char>| self.clients@[k]@)
    }

    /// How many messages an outbox holds at most.
    pub closed spec fn capacity(&self) -> nat {
        self.capacity as nat
    }

    /// Internal consistency of the registry: no outbox is over capacity.
    pub closed spec fn wf(&self) -> bool {
        &&& self.clients.wf()
        &&& forall|k: Seq<char>| #[trigger]
            self.clients@.contains_key(k) ==> self.clients@[k].outbox@.len() <= self.capacity
    }

    /// A hub without clients whose outboxes will hold `capacity` messages.
    pub fn new(capacity: usize) -> (r: Self)
        ensures
            r.wf(),
            r.capacity() == capacity,
            r@ == Map::<Seq<char>, ClientView>::empty(),
    {
        let r = Hub { clients: Table::new(), capacity };
        assert(r@ =~= Map::<Seq<char>, ClientView>::empty());
        r
    }

    /// Number of registered clients.
    pub fn len(&self) -> (n: usize)
        requires
            self.wf(),
        ensures
            n == self.client_ids().len(),
    {
        self.clients.len()
    }

    /// The registered clients, in the order in which they registered.
    pub closed spec fn client_ids(&self) -> Seq<Seq<char>> {
        self.clients.keys()
    }

    /// `client_ids()` lists exactly the registered clients, each once.
    pub proof fn law_client_ids_list_the_clients(&self)
        requires
            self.wf(),
        ensures
            self.client_ids().no_duplicates(),
            forall|k: Seq<char>| self.client_ids().contains(k) <==> self@.contains_key(k),
    {
    }

    /// Whether `client` is registered.
    pub fn is_connected(&self, client: &String) -> (r: bool)
        requires
            self.wf(),
        ensures
            r == self@.contains_key(client@),
    {
        self.clients.contains(client)
    }

    /// The client at position `i` of `client_ids()`, with its user.
    pub fn client_at(&self, i: usize) -> (r: (String, String))
        requires
            self.wf(),
            i < self.client_ids().len(),
        ensures
            r.0@ == self.client_ids()[i as int],
            self@.contains_key(r.0@),
            r.1@ == self@[r.0@].user_id,
    {
        proof {
            self.clients.lemma_entry(i as int);
        }
        (self.clients.key_at(i).clone(), self.clients.value_at(i).user_id.clone())
    }

    /// Registers `client` for `user` and sends it `greeting`, the current
    /// presence map. A client that has no room for the greeting is dropped.
    pub fn connect(&mut self, client: String, user: String, greeting: CentralWebSocketResponse)
        requires
            old(self).wf(),
        ensures
            final(self).wf(),
            final(self).capacity() == old(self).capacity(),
            final(self)@ == connected(old(self)@, old(self).capacity(), client@, user@, greeting@),
    {
        let ghost before = *self;
        let mut outbox = match self.clients.remove(&client) {
            Some(c) => c.outbox,
            None => Vec::new(),
        };
        assert(response_views(outbox@) =~= (if before@.contains_key(client@) {
            before@[client@].outbox
        } else {
            Seq::empty()
        }));
        if outbox.len() < self.capacity {
            let ghost waiting = response_views(outbox@);
            outbox.push(greeting);
            assert(response_views(outbox@) =~= waiting.push(greeting@));
            self.clients.insert(client, Client { user_id: user, outbox });
        }
        assert(self@ =~= connected(before@, before.capacity(), client@, user@, greeting@));
    }

    /// Forgets `client`. The other clients stay as they are.
    pub fn disconnect(&mut self, client: &String)
        requires
            old(self).wf(),
        ensures
            final(self).wf(),
            final(self).capacity() == old(self).capacity(),
            final(self)@ == old(self)@.remove(client@),
    {
        let ghost before = *self;
        let _ = self.clients.remove(client);
        assert(self@ =~= before@.remove(client@));
    }

    /// Hands out what waits for `client`, oldest first, and leaves its
    /// outbox empty. An unknown client has nothing waiting.
    pub fn drain(&mut self, client: &String) -> (r: Vec<CentralWebSocketResponse>)
        requires
            old(self).wf(),
        ensures
            final(self).wf(),
            final(self).capacity() == old(self).capacity(),
            old(self)@.contains_key(client@) ==> response_views(r@) == old(self)@[client@].outbox
                && final(self)@ == old(self)@.insert(
                client@,
                ClientView { user_id: old(self)@[client@].user_id, outbox: Seq::empty() },
            ),
            !old(self)@.contains_key(client@) ==> r@.len() == 0 && final(self)@ == old(self)@,
    {
        let ghost before = *self;
        match self.clients.position(client) {
            Some(i) => {
                proof {
                    before.clients.lemma_entry(i as int);
                }
                let user_id = self.clients.value_at(i).user_id.clone();
                let fresh = Client { user_id, outbox: Vec::new() };
                assert(fresh@.outbox =~= Seq::<ResponseView>::empty());
                assert(fresh@ == (ClientView {
                    user_id: before@[client@].user_id,
                    outbox: Seq::empty(),
                }));
                let taken = self.clients.swap_value_at(i, fresh);
                proof {
                    assert forall|k: Seq<char>| #[trigger]
                        self.clients@.contains_key(k) implies self.clients@[k]
                        == before.clients@.insert(client@, fresh)[k] by {
                        let j = self.clients.keys().index_of(k);
                        assert(0 <= j < self.clients.keys().len() && self.clients.keys()[j] == k);
                        before.clients.lemma_entry(j);
                    }
                    assert(self.clients@ =~= before.clients@.insert(client@, fresh));
                    assert(self@ =~= before@.insert(client@, fresh@));
                }
                taken.outbox
            },
            None => {
                let r: Vec<CentralWebSocketResponse> = Vec::new();
                assert(self@ =~= before@);
                r
            },
        }
    }

    /// Sends `message` to `client` alone. Where the client has room, the
    /// message joins the end of its outbox; where it has none, the client is
    /// dropped. An unknown client changes nothing. Returns whether the
    /// message was taken.
    pub fn send(&mut self, client: &String, message: CentralWebSocketResponse) -> (taken: bool)
        requires
            old(self).wf(),
        ensures
            final(self).wf(),
            final(self).capacity() == old(self).capacity(),
            final(self)@ == sent(old(self)@, old(self).capacity(), client@, message@),
            taken == (old(self)@.contains_key(client@) && old(self)@[client@].outbox.len() < old(self).capacity()),
    {
        let ghost before = *self;
        match self.clients.position(client) {
            Some(i) => {
                proof {
                    before.clients.lemma_entry(i as int);
                }
                if self.clients.value_at(i).outbox.len() < self.capacity {
                    let placeholder = Client { user_id: String::new(), outbox: Vec::new() };
                    let mut c = self.clients.swap_value_at(i, placeholder);
                    let ghost waiting = response_views(c.outbox@);
                    c.outbox.push(message);
                    assert(response_views(c.outbox@) =~= waiting.push(message@));
                    let ghost shown = c@;
                    self.clients.set_value_at(i, c);
                    assert(self@ =~= before@.insert(client@, shown));
                    true
                } else {
                    let _ = self.clients.remove_at(i);
                    assert(self@ =~= before@.remove(client@));
                    false
                }
            },
            None => {
                assert(self@ =~= before@);
                false
            },
        }
    }

    /// Sends `message` to every client. A client with room holds the
    /// message at the end of its outbox afterwards. A client without room
    /// is dropped; the identifiers of the dropped clients are returned,
    /// each once.
    pub fn broadcast(&mut self, message: &CentralWebSocketResponse) -> (dropped: Vec<String>)
        requires
            old(self).wf(),
        ensures
            final(self).wf(),
            final(self).capacity() == old(self).capacity(),
            final(self)@ == delivered(old(self)@, old(self).capacity(), message@),
            texts(dropped@).no_duplicates(),
            texts(dropped@).to_set() == saturated(old(self)@, old(self).capacity()),
    {
        let ghost before = *self;
        let n = self.clients.len();
        let mut keep: Vec<bool> = Vec::new();
        let mut dropped: Vec<String> = Vec::new();
        let ghost mut src: Seq<int> = Seq::empty();
        let mut i: usize = 0;
        while i < n
            invariant
                before.wf(),
                self.clients.wf(),
                self.capacity == before.capacity,
                self.clients.keys() == before.clients.keys(),
                n == before.clients.keys().len(),
                i <= n,
                keep@.len() == i,
                forall|j: int|
                    0 <= j < i ==> #[trigger] keep@[j] == (before.clients.values()[j].outbox@.len()
                        < before.capacity),
                forall|j: int|
                    0 <= j < i && keep@[j] ==> (#[trigger] self.clients.values()[j])@ == (ClientView {
                        user_id: before.clients.values()[j]@.user_id,
                        outbox: before.clients.values()[j]@.outbox.push(message@),
                    }),
                forall|j: int|
                    i <= j < n ==> #[trigger] self.clients.values()[j] == before.clients.values()[j],
                src.len() == dropped@.len(),
                forall|e: int|
                    0 <= e < src.len() ==> 0 <= #[trigger] src[e] < i && dropped@[e]@
                        == before.clients.keys()[src[e]] && !keep@[src[e]],
                forall|e: int, f: int| 0 <= e < f < src.len() ==> src[e] < src[f],
                forall|j: int|
                    0 <= j < i && !keep@[j] ==> texts(dropped@).contains(
                        #[trigger] before.clients.keys()[j],
                    ),
            decreases n - i,
        {
            let room = self.clients.value_at(i).outbox.len() < self.capacity;
            if room {
                let placeholder = Client { user_id: String::new(), outbox: Vec::new() };
                let mut c = self.clients.swap_value_at(i, placeholder);
                let ghost waiting = response_views(c.outbox@);
                c.outbox.push(message.duplicate());
                assert(response_views(c.outbox@) =~= waiting.push(message@));
                let _ = self.clients.swap_value_at(i, c);
            } else {
                let ghost prev = dropped@;
                dropped.push(self.clients.key_at(i).clone());
                proof {
                    src = src.push(i as int);
                    assert forall|j: int| 0 <= j < i + 1 && !(if j < i {
                        keep@[j]
                    } else {
                        room
                    }) implies texts(dropped@).contains(#[trigger] before.clients.keys()[j]) by {
                        if j < i {
                            assert(texts(prev).contains(before.clients.keys()[j]));
                            let e = texts(prev).index_of(before.clients.keys()[j]);
                            assert(texts(dropped@)[e] == before.clients.keys()[j]);
                        } else {
                            assert(texts(dropped@)[prev.len() as int] == before.clients.keys()[j]);
                        }
                    }
                }
            }
            keep.push(room);
            i += 1;
        }
        let ghost mid = self.clients;
        self.clients.retain(&keep);
        proof {
            assert forall|k: Seq<char>| #[trigger]
                delivered(before@, before.capacity(), message@).contains_key(
                    k,
                ) implies self@.contains_key(k) && self@[k] == delivered(
                before@,
                before.capacity(),
                message@,
            )[k] by {
                let t = before.clients.keys().index_of(k);
                assert(0 <= t < n && before.clients.keys()[t] == k);
                before.clients.lemma_entry(t);
                mid.lemma_entry(t);
            }
            assert forall|k: Seq<char>| #[trigger] self@.contains_key(k) implies delivered(
                before@,
                before.capacity(),
                message@,
            ).contains_key(k) by {
                assert(mid@.contains_key(k));
                let t = mid.keys().index_of(k);
                assert(0 <= t < n && mid.keys()[t] == k);
                before.clients.lemma_entry(t);
                mid.lemma_entry(t);
            }
            assert(self@ =~= delivered(before@, before.capacity(), message@));
            assert forall|k: Seq<char>| #[trigger]
                self.clients@.contains_key(k) implies self.clients@[k].outbox@.len()
                <= self.capacity by {
                let t = mid.keys().index_of(k);
                assert(mid@.contains_key(k));
                assert(0 <= t < n && mid.keys()[t] == k);
                before.clients.lemma_entry(t);
                mid.lemma_entry(t);
                assert(self.clients@[k]@.outbox.len() == before.clients.values()[t]@.outbox.len()
                    + 1);
            }
            assert forall|e: int, f: int|
                0 <= e < texts(dropped@).len() && 0 <= f < texts(dropped@).len() && e
                    != f implies texts(dropped@)[e] != texts(dropped@)[f] by {
                assert(src[e] != src[f]);
            }
            assert forall|k: Seq<char>| #[trigger]
                texts(dropped@).to_set().contains(k) implies saturated(
                before@,
                before.capacity(),
            ).contains(k) by {
                assert(texts(dropped@).contains(k));
                let e = texts(dropped@).index_of(k);
                assert(0 <= e < dropped@.len() && texts(dropped@)[e] == k);
                before.clients.lemma_entry(src[e]);
            }
            assert forall|k: Seq<char>| #[trigger]
                saturated(before@, before.capacity()).contains(k) implies texts(
                dropped@,
            ).to_set().contains(k) by {
                let t = before.clients.keys().index_of(k);
                assert(0 <= t < n && before.clients.keys()[t] == k);
                before.clients.lemma_entry(t);
            }
            assert(texts(dropped@).to_set() =~= saturated(before@, before.capacity()));
        }
        dropped
    }
}

/// A client that does not drain its outbox is dropped by the message that
/// finds the outbox full, while every client with room receives that
/// message.
pub proof fn law_slow_client_is_dropped(
    m: Map<Seq<char>, ClientView>,
    capacity: nat,
    message: ResponseView,
    slow: Seq<char>,
    other: Seq<char>,
)
    requires
        m.contains_key(slow),
        m[slow].outbox.len() >= capacity,
        m.contains_key(other),
        m[other].outbox.len() < capacity,
    ensures
        !delivered(m, capacity, message).contains_key(slow),
        saturated(m, capacity).contains(slow),
        delivered(m, capacity, message).contains_key(other),
        delivered(m, capacity, message)[other].outbox == m[other].outbox.push(message),
        delivered(m, capacity, message)[other].outbox.last() == message,
{
}

} // verus!
