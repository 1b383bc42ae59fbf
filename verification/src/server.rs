//! The server's periodic and reactive steps that touch more than one piece
//! of shared state: the sweep that announces every processor it removes,
//! the reconciliation that announces the presence map it changed, and the
//! dispatcher's tick that feeds the sockets and plans the notifications.
use crate::hub::{
    connected, delivered, is_bare_disconnect, request_of, sent, CentralWebSocketRequest,
    CentralWebSocketResponse, ClientView, Hub, ResponseView,
};
use crate::liveness::{evicted, listed, swept, LivenessMap, LEASE_MS};
use crate::clock::now_millis;
use crate::push::{
    after_feed, digest, digest_of, feed_clusters, job_views, jobs_for, jobs_for_record,
    Dispatcher, FeedsView, PushJob, PushJobView, REFRESH_TICKS,
};
use crate::registry::{Evidence, Registry};
use crate::views::{projection_views, ProjectionView, ViewEvidence};
use crate::sync::{reconcile, reconciled, ProcessorSynchronization, SyncReply};
use crate::text::texts;
use vstd::prelude::*;

verus! {

/// The clients after the departure of each processor in `ids` was
/// announced, one message for each, in order.
pub open spec fn announced(m: Map<Seq<char>, ClientView>, capacity: nat, ids: Seq<Seq<char>>) -> Map<
    Seq<char>,
    ClientView,
>
    decreases ids.len(),
{
    if ids.len() == 0 {
        m
    } else {
        delivered(announced(m, capacity, ids.drop_last()), capacity, ResponseView::Left(ids.last()))
    }
}

/// The messages that announce the departure of each processor in `ids`.
pub open spec fn departures(ids: Seq<Seq<char>>) -> Seq<ResponseView> {
    Seq::new(ids.len(), |i: int| ResponseView::Left(ids[i]))
}

/// Removes every lease that ran out before `now` and announces each
/// removed processor to every client of the hub. Returns the processors
/// removed.
pub fn sweep_and_announce(live: &mut LivenessMap, hub: &mut Hub, now: i64) -> (gone: Vec<String>)
    requires
        old(live).wf(),
        old(hub).wf(),
    ensures
        final(live).wf(),
        final(hub).wf(),
        final(hub).capacity() == old(hub).capacity(),
        final(live)@ == swept(old(live)@, now),
        texts(gone@).no_duplicates(),
        texts(gone@).to_set() == evicted(old(live)@, now),
        final(hub)@ == announced(old(hub)@, old(hub).capacity(), texts(gone@)),
{
    let gone = live.sweep(now);
    let ghost before = hub@;
    let ghost capacity = hub.capacity();
    let mut i: usize = 0;
    assert(texts(gone@).take(0) =~= Seq::<Seq<char>>::empty());
    while i < gone.len()
        invariant
            hub.wf(),
            hub.capacity() == capacity,
            i <= gone.len(),
            hub@ == announced(before, capacity, texts(gone@).take(i as int)),
        decreases gone.len() - i,
    {
        proof {
            let next = texts(gone@).take(i as int + 1);
            assert(next.drop_last() =~= texts(gone@).take(i as int));
            assert(next.last() == gone@[i as int]@);
        }
        let message = CentralWebSocketResponse::Left(gone[i].clone());
        let _ = hub.broadcast(&message);
        i += 1;
    }
    assert(texts(gone@).take(gone.len() as int) =~= texts(gone@));
    gone
}

/// Answers the synchronisation that an edge processor asks for.
///
/// The submission is reconciled with the store and the leases as
/// [`reconcile`] does. Where it was accepted, and so changed the store,
/// every client of the hub is sent the presence map as it now stands, with
/// the refreshed lease of the processor in it; a client whose outbox is full
/// is dropped instead. Every other outcome leaves the hub as it was.
pub fn sync_processor(
    reg: &mut Registry,
    live: &mut LivenessMap,
    hub: &mut Hub,
    cluster_id: &String,
    payload: &ProcessorSynchronization,
    now: i64,
) -> (r: SyncReply)
    requires
        old(reg).wf(),
        old(live).wf(),
        old(hub).wf(),
        now <= i64::MAX - LEASE_MS,
    ensures
        final(reg).wf(),
        final(live).wf(),
        final(hub).wf(),
        final(hub).capacity() == old(hub).capacity(),
        reconciled(*old(reg), old(live)@, *final(reg), final(live)@, *cluster_id, *payload, now, r),
        r matches SyncReply::Accepted(_) ==> final(hub)@ == delivered(
            old(hub)@,
            old(hub).capacity(),
            ResponseView::Processor(listed(final(live)@, final(live).ids())),
        ),
        !(r matches SyncReply::Accepted(_)) ==> *final(hub) == *old(hub),
{
    let r = reconcile(reg, live, cluster_id, payload, now);
    match &r {
        SyncReply::Accepted(_) => {
            let message = CentralWebSocketResponse::Processor(live.snapshot());
            let _ = hub.broadcast(&message);
        },
        _ => {},
    }
    r
}

/// What a sweep at the instant `now` makes of the leases `before`: the
/// leases `after` that are left, and the processors `gone` that went.
pub open spec fn swept_at(
    before: Map<Seq<char>, i64>,
    after: Map<Seq<char>, i64>,
    gone: Seq<Seq<char>>,
    now: i64,
) -> bool {
    after == swept(before, now) && gone.to_set() == evicted(before, now)
}

/// Runs [`sweep_and_announce`] at the wall clock. Which instant the clock
/// gives is open; the leases that are left and the processors returned are
/// those of a sweep at one instant. Each processor returned is announced to
/// every client of the hub.
pub fn sweep_now(live: &mut LivenessMap, hub: &mut Hub) -> (gone: Vec<String>)
    requires
        old(live).wf(),
        old(hub).wf(),
    ensures
        final(live).wf(),
        final(hub).wf(),
        final(hub).capacity() == old(hub).capacity(),
        exists|now: i64| #[trigger] swept_at(old(live)@, final(live)@, texts(gone@), now),
        texts(gone@).no_duplicates(),
        final(hub)@ == announced(old(hub)@, old(hub).capacity(), texts(gone@)),
{
    let now = now_millis();
    let gone = sweep_and_announce(live, hub, now);
    assert(swept_at(old(live)@, live@, texts(gone@), now));
    gone
}

/// Runs [`sync_processor`] at the wall clock. Where the clock stands so
/// late that no lease can be given, nothing happens and there is no reply.
/// Otherwise the reply and what is left behind are those of a
/// reconciliation at some instant.
pub fn sync_now(
    reg: &mut Registry,
    live: &mut LivenessMap,
    hub: &mut Hub,
    cluster_id: &String,
    payload: &ProcessorSynchronization,
) -> (r: Option<SyncReply>)
    requires
        old(reg).wf(),
        old(live).wf(),
        old(hub).wf(),
    ensures
        final(reg).wf(),
        final(live).wf(),
        final(hub).wf(),
        final(hub).capacity() == old(hub).capacity(),
        match r {
            None => *final(reg) == *old(reg) && *final(live) == *old(live) && *final(hub) == *old(hub),
            Some(reply) => exists|now: i64| #[trigger]
                reconciled(
                    *old(reg),
                    old(live)@,
                    *final(reg),
                    final(live)@,
                    *cluster_id,
                    *payload,
                    now,
                    reply,
                ) && now <= i64::MAX - LEASE_MS,
        },
        r matches Some(SyncReply::Accepted(_)) ==> final(hub)@ == delivered(
            old(hub)@,
            old(hub).capacity(),
            ResponseView::Processor(listed(final(live)@, final(live).ids())),
        ),
        !(r matches Some(SyncReply::Accepted(_))) ==> *final(hub) == *old(hub),
{
    let now = now_millis();
    if now > i64::MAX - LEASE_MS {
        return None;
    }
    let reply = sync_processor(reg, live, hub, cluster_id, payload, now);
    assert(reconciled(*old(reg), old(live)@, *reg, live@, *cluster_id, *payload, now, reply));
    Some(reply)
}

/// The messages that carry the projections `shown`, one each, in order.
pub open spec fn feed_messages(shown: Seq<ProjectionView>) -> Seq<ResponseView> {
    Seq::new(shown.len(), |i: int| ResponseView::Evidence(shown[i]))
}

/// The clients after each of `messages` went to `client` alone, in order.
/// A client that ran out of room on the way is gone, and the messages that
/// follow change nothing.
pub open spec fn sent_each(
    m: Map<Seq<char>, ClientView>,
    capacity: nat,
    client: Seq<char>,
    messages: Seq<ResponseView>,
) -> Map<Seq<char>, ClientView>
    decreases messages.len(),
{
    if messages.len() == 0 {
        m
    } else {
        sent(sent_each(m, capacity, client, messages.drop_last()), capacity, client, messages.last())
    }
}

/// Messages that follow the first `n` do nothing more once the client is
/// gone after those.
proof fn lemma_sent_each_stops(
    m: Map<Seq<char>, ClientView>,
    capacity: nat,
    client: Seq<char>,
    messages: Seq<ResponseView>,
    n: int,
)
    requires
        0 <= n <= messages.len(),
        !sent_each(m, capacity, client, messages.take(n)).contains_key(client),
    ensures
        sent_each(m, capacity, client, messages) == sent_each(m, capacity, client, messages.take(n)),
    decreases messages.len() - n,
{
    if n < messages.len() {
        assert(messages.take(n + 1).drop_last() =~= messages.take(n));
        lemma_sent_each_stops(m, capacity, client, messages, n + 1);
    } else {
        assert(messages.take(n) =~= messages);
    }
}

/// Sends the projections `shown` to `client`, one message each, and stops
/// where the client was dropped for want of room.
fn send_feed(hub: &mut Hub, client: &String, shown: &Vec<ViewEvidence>)
    requires
        old(hub).wf(),
    ensures
        final(hub).wf(),
        final(hub).capacity() == old(hub).capacity(),
        final(hub)@ == sent_each(
            old(hub)@,
            old(hub).capacity(),
            client@,
            feed_messages(projection_views(shown@)),
        ),
{
    let ghost start = hub@;
    let ghost capacity = hub.capacity();
    let ghost messages = feed_messages(projection_views(shown@));
    let mut i: usize = 0;
    while i < shown.len()
        invariant
            hub.wf(),
            hub.capacity() == capacity,
            i <= shown.len(),
            start == old(hub)@,
            capacity == old(hub).capacity(),
            messages == feed_messages(projection_views(shown@)),
            hub@ == sent_each(start, capacity, client@, messages.take(i as int)),
        decreases shown.len() - i,
    {
        proof {
            assert(messages.take(i as int + 1).drop_last() =~= messages.take(i as int));
            assert(messages.take(i as int + 1).last() == ResponseView::Evidence(shown@[i as int]@));
        }
        let taken = hub.send(client, CentralWebSocketResponse::Evidence(shown[i].duplicate()));
        i += 1;
        if !taken {
            proof {
                lemma_sent_each_stops(start, capacity, client@, messages, i as int);
            }
            return ;
        }
    }
    assert(messages.take(shown.len() as int) =~= messages);
}

/// The registered clients of a hub, each with its user, in the order in
/// which they registered.
pub open spec fn clients_of(hub: Hub) -> Seq<(Seq<char>, Seq<char>)> {
    Seq::new(
        hub.client_ids().len(),
        |i: int| (hub.client_ids()[i], hub@[hub.client_ids()[i]].user_id),
    )
}

/// What a tick of the dispatcher works on: the clients of the hub, and
/// what the dispatcher remembers of the users.
pub ghost struct TickView {
    pub hub: Map<Seq<char>, ClientView>,
    pub feeds: FeedsView,
}

/// What the live feed at `now` leaves behind once each of `clients`, a
/// client with its user, had its turn, in order. A client whose user is due
/// is sent the queued evidence of the user's clusters, one message for each
/// record, and the instant is remembered for the user; a client whose user
/// is not due is passed over.
pub open spec fn fed(
    start: TickView,
    capacity: nat,
    clients: Seq<(Seq<char>, Seq<char>)>,
    queue: Seq<Evidence>,
    reg: Registry,
    now: i64,
) -> TickView
    decreases clients.len(),
{
    if clients.len() == 0 {
        start
    } else {
        let before = fed(start, capacity, clients.drop_last(), queue, reg, now);
        let (client, user) = clients.last();
        match feed_clusters(before.feeds, reg, user, now) {
            Some(clusters) => TickView {
                hub: sent_each(
                    before.hub,
                    capacity,
                    client,
                    feed_messages(digest_of(queue, clusters, reg)),
                ),
                feeds: after_feed(before.feeds, reg, user, now),
            },
            None => before,
        }
    }
}

/// The notifications that the records of `queue` give rise to, record by
/// record.
pub open spec fn jobs_of_queue(queue: Seq<Evidence>, reg: Registry) -> Seq<PushJobView>
    decreases queue.len(),
{
    if queue.len() == 0 {
        Seq::empty()
    } else {
        jobs_of_queue(queue.drop_last(), reg) + jobs_for_record(reg, queue.last()@)
    }
}

/// What a tick at `now` makes of the hub and of what the dispatcher
/// remembers: with evidence in the queue, the live feed went to the clients
/// that were registered when the tick began; with none, nothing changed.
pub open spec fn ticked(
    before: TickView,
    capacity: nat,
    clients: Seq<(Seq<char>, Seq<char>)>,
    queue: Seq<Evidence>,
    reg: Registry,
    now: i64,
) -> TickView {
    if queue.len() == 0 {
        before
    } else {
        fed(before, capacity, clients, queue, reg, now)
    }
}

fn clients_now(hub: &Hub) -> (r: Vec<(String, String)>)
    requires
        hub.wf(),
    ensures
        r@.len() == clients_of(*hub).len(),
        forall|i: int|
            0 <= i < r@.len() ==> ((#[trigger] r@[i]).0@, r@[i].1@) == clients_of(*hub)[i],
{
    let n = hub.len();
    let mut r: Vec<(String, String)> = Vec::new();
    let mut i: usize = 0;
    while i < n
        invariant
            hub.wf(),
            n == hub.client_ids().len(),
            i <= n,
            r@.len() == i,
            forall|j: int|
                0 <= j < i ==> ((#[trigger] r@[j]).0@, r@[j].1@) == clients_of(*hub)[j],
        decreases n - i,
    {
        r.push(hub.client_at(i));
        i += 1;
    }
    r
}

fn feed_clients(
    d: &mut Dispatcher,
    hub: &mut Hub,
    queue: &Vec<Evidence>,
    reg: &Registry,
    now: i64,
)
    requires
        old(d).wf(),
        old(hub).wf(),
        reg.wf(),
    ensures
        final(d).wf(),
        final(hub).wf(),
        final(hub).capacity() == old(hub).capacity(),
        final(d).ticks() == old(d).ticks(),
        (TickView { hub: final(hub)@, feeds: final(d).feeds() }) == fed(
            TickView { hub: old(hub)@, feeds: old(d).feeds() },
            old(hub).capacity(),
            clients_of(*old(hub)),
            queue@,
            *reg,
            now,
        ),
{
    let clients = clients_now(hub);
    let ghost start = TickView { hub: hub@, feeds: d.feeds() };
    let ghost capacity = hub.capacity();
    let ghost all = clients_of(*hub);
    let mut i: usize = 0;
    while i < clients.len()
        invariant
            d.wf(),
            hub.wf(),
            reg.wf(),
            hub.capacity() == capacity,
            d.ticks() == old(d).ticks(),
            i <= clients.len(),
            clients@.len() == all.len(),
            forall|j: int|
                0 <= j < clients@.len() ==> ((#[trigger] clients@[j]).0@, clients@[j].1@) == all[j],
            (TickView { hub: hub@, feeds: d.feeds() }) == fed(
                start,
                capacity,
                all.take(i as int),
                queue@,
                *reg,
                now,
            ),
        decreases clients.len() - i,
    {
        proof {
            assert(all.take(i as int + 1).drop_last() =~= all.take(i as int));
            assert(all.take(i as int + 1).last() == (clients@[i as int].0@, clients@[i as int].1@));
        }
        match d.feed_due(reg, &clients[i].1, now) {
            Some(clusters) => {
                let shown = digest(queue, &clusters, reg);
                send_feed(hub, &clients[i].0, &shown);
            },
            None => {},
        }
        i += 1;
    }
    assert(all.take(clients.len() as int) =~= all);
}

fn jobs_of_all(queue: &Vec<Evidence>, reg: &Registry) -> (r: Vec<PushJob>)
    requires
        reg.wf(),
    ensures
        job_views(r@) == jobs_of_queue(queue@, *reg),
{
    let mut r: Vec<PushJob> = Vec::new();
    let mut i: usize = 0;
    assert(queue@.take(0) =~= Seq::<Evidence>::empty());
    assert(job_views(r@) =~= Seq::<PushJobView>::empty());
    while i < queue.len()
        invariant
            reg.wf(),
            i <= queue.len(),
            job_views(r@) == jobs_of_queue(queue@.take(i as int), *reg),
        decreases queue.len() - i,
    {
        proof {
            assert(queue@.take(i as int + 1).drop_last() =~= queue@.take(i as int));
            assert(queue@.take(i as int + 1).last() == queue@[i as int]);
        }
        let mut more = jobs_for(reg, &queue[i]);
        let ghost head = r@;
        let ghost tail = more@;
        r.append(&mut more);
        assert(job_views(r@) =~= job_views(head) + job_views(tail));
        i += 1;
    }
    assert(queue@.take(queue.len() as int) =~= queue@);
    r
}

/// One tick of the dispatcher at `now`.
///
/// With evidence in the queue, each client that was registered when the
/// tick began has its turn, in order: where the live feed of its user is
/// due, the client is sent the queued evidence of the user's clusters and
/// the instant is remembered for the user. Then the queue is drained, and
/// the notifications that its records give rise to are returned, record by
/// record. With an empty queue nobody is fed and nothing is returned.
/// Either way the tick is counted; the second result says whether the
/// provider client is to be rebuilt.
pub fn plan(
    d: &mut Dispatcher,
    hub: &mut Hub,
    queue: &mut Vec<Evidence>,
    reg: &Registry,
    now: i64,
) -> (r: (Vec<PushJob>, bool))
    requires
        old(d).wf(),
        old(hub).wf(),
        reg.wf(),
    ensures
        final(d).wf(),
        final(hub).wf(),
        final(hub).capacity() == old(hub).capacity(),
        (TickView { hub: final(hub)@, feeds: final(d).feeds() }) == ticked(
            TickView { hub: old(hub)@, feeds: old(d).feeds() },
            old(hub).capacity(),
            clients_of(*old(hub)),
            old(queue)@,
            *reg,
            now,
        ),
        final(queue)@.len() == 0,
        job_views(r.0@) == jobs_of_queue(old(queue)@, *reg),
        r.1 == (old(d).ticks() + 1 == REFRESH_TICKS),
        final(d).ticks() == (if r.1 {
            0
        } else {
            old(d).ticks() + 1
        }),
{
    if queue.len() > 0 {
        feed_clients(d, hub, queue, reg, now);
    }
    let jobs = jobs_of_all(queue, reg);
    queue.clear();
    let ghost feeds = d.feeds();
    let rebuild = d.tick();
    assert(d.feeds() == feeds);
    (jobs, rebuild)
}

/// Runs [`plan`] at the wall clock. Which instant the clock gives is open;
/// the hub and what the dispatcher remembers are those of a tick at one
/// instant. The queue is drained and the notifications of its records are
/// returned whatever the clock says.
pub fn plan_now(d: &mut Dispatcher, hub: &mut Hub, queue: &mut Vec<Evidence>, reg: &Registry) -> (r:
    (Vec<PushJob>, bool))
    requires
        old(d).wf(),
        old(hub).wf(),
        reg.wf(),
    ensures
        final(d).wf(),
        final(hub).wf(),
        final(hub).capacity() == old(hub).capacity(),
        exists|now: i64|
            (TickView { hub: final(hub)@, feeds: final(d).feeds() }) == #[trigger] ticked(
                TickView { hub: old(hub)@, feeds: old(d).feeds() },
                old(hub).capacity(),
                clients_of(*old(hub)),
                old(queue)@,
                *reg,
                now,
            ),
        final(queue)@.len() == 0,
        job_views(r.0@) == jobs_of_queue(old(queue)@, *reg),
        r.1 == (old(d).ticks() + 1 == REFRESH_TICKS),
        final(d).ticks() == (if r.1 {
            0
        } else {
            old(d).ticks() + 1
        }),
{
    let now = now_millis();
    let r = plan(d, hub, queue, reg, now);
    assert((TickView { hub: hub@, feeds: d.feeds() }) == ticked(
        TickView { hub: old(hub)@, feeds: old(d).feeds() },
        old(hub).capacity(),
        clients_of(*old(hub)),
        old(queue)@,
        *reg,
        now,
    ));
    r
}

/// One frame that arrived on a client's socket.
#[derive(Debug, PartialEq, Eq)]
pub enum Frame {
    /// A text frame, with its payload.
    Text(String),
    /// A ping, with its payload.
    Ping(Vec<u8>),
    /// A pong.
    Pong,
    /// A close frame.
    Close,
    /// Any other frame.
    Other,
    /// A frame that could not be read.
    Broken,
}

/// What is done to the socket after a frame.
#[derive(Debug, PartialEq, Eq)]
pub enum FrameAction {
    /// Nothing.
    Nothing,
    /// Answer with a pong that carries these bytes.
    Pong(Vec<u8>),
    /// Close the socket.
    Close,
}

/// What a frame asks of the hub.
pub open spec fn asked(frame: Frame, decoded: Option<CentralWebSocketRequest>) -> Option<
    CentralWebSocketRequest,
> {
    match frame {
        Frame::Text(text) => if decoded.is_some() {
            decoded
        } else if is_bare_disconnect(text@) {
            Some(CentralWebSocketRequest::Disconnect)
        } else {
            None
        },
        Frame::Close | Frame::Other => Some(CentralWebSocketRequest::Disconnect),
        _ => None,
    }
}

/// Handles one frame of client `client`. `decoded` is the tagged request
/// that the payload of a text frame decoded to, if it decoded to one.
///
/// A request to connect registers the client for the user it names and
/// sends it the presence map. A request to disconnect, a close frame and a
/// frame of any other kind deregister the client and close its socket. A
/// ping is answered with a pong of the same bytes. A pong, a text frame
/// that is no request and a frame that could not be read change nothing.
pub fn handle_frame(
    hub: &mut Hub,
    live: &LivenessMap,
    client: &String,
    frame: Frame,
    decoded: Option<CentralWebSocketRequest>,
) -> (r: FrameAction)
    requires
        old(hub).wf(),
        live.wf(),
    ensures
        final(hub).wf(),
        final(hub).capacity() == old(hub).capacity(),
        match asked(frame, decoded) {
            Some(CentralWebSocketRequest::Connect(user)) => r == FrameAction::Nothing
                && final(hub)@ == connected(
                old(hub)@,
                old(hub).capacity(),
                client@,
                user@,
                ResponseView::Processor(listed(live@, live.ids())),
            ),
            Some(CentralWebSocketRequest::Disconnect) => r == FrameAction::Close && final(hub)@
                == old(hub)@.remove(client@),
            None => *final(hub) == *old(hub) && match frame {
                Frame::Ping(bytes) => r == FrameAction::Pong(bytes),
                _ => r == FrameAction::Nothing,
            },
        },
{
    let request = match frame {
        Frame::Text(text) => request_of(decoded, &text),
        Frame::Ping(bytes) => {
            return FrameAction::Pong(bytes);
        },
        Frame::Close => Some(CentralWebSocketRequest::Disconnect),
        Frame::Other => Some(CentralWebSocketRequest::Disconnect),
        Frame::Pong => None,
        Frame::Broken => None,
    };
    match request {
        Some(CentralWebSocketRequest::Connect(user)) => {
            let greeting = CentralWebSocketResponse::Processor(live.snapshot());
            hub.connect(client.clone(), user, greeting);
            FrameAction::Nothing
        },
        Some(CentralWebSocketRequest::Disconnect) => {
            hub.disconnect(client);
            FrameAction::Close
        },
        None => FrameAction::Nothing,
    }
}

/// Every client that is still connected after the departures of `ids` were
/// announced holds what it held before, followed by one message for each
/// departure, in order.
pub proof fn law_departures_reach_every_client(
    m: Map<Seq<char>, ClientView>,
    capacity: nat,
    ids: Seq<Seq<char>>,
    client: Seq<char>,
)
    requires
        announced(m, capacity, ids).contains_key(client),
    ensures
        m.contains_key(client),
        announced(m, capacity, ids)[client].user_id == m[client].user_id,
        announced(m, capacity, ids)[client].outbox == m[client].outbox + departures(ids),
    decreases ids.len(),
{
    if ids.len() == 0 {
        assert(m[client].outbox + departures(ids) =~= m[client].outbox);
    } else {
        let head = ids.drop_last();
        law_departures_reach_every_client(m, capacity, head, client);
        assert(departures(ids) =~= departures(head).push(ResponseView::Left(ids.last())));
        assert(announced(m, capacity, ids)[client].outbox =~= m[client].outbox + departures(ids));
    }
}

/// A processor that stayed silent for longer than a lease is gone from the
/// presence map after the next sweep, and every client that is still
/// connected after the sweep's announcements has been told so.
pub proof fn law_silence_is_announced(
    leases: Map<Seq<char>, i64>,
    m: Map<Seq<char>, ClientView>,
    capacity: nat,
    gone: Seq<Seq<char>>,
    processor: Seq<char>,
    now: i64,
    client: Seq<char>,
)
    requires
        leases.contains_key(processor),
        leases[processor] < now,
        gone.to_set() == evicted(leases, now),
        announced(m, capacity, gone).contains_key(client),
    ensures
        !swept(leases, now).contains_key(processor),
        announced(m, capacity, gone)[client].outbox.contains(ResponseView::Left(processor)),
{
    law_departures_reach_every_client(m, capacity, gone, client);
    assert(gone.to_set().contains(processor));
    assert(gone.contains(processor));
    let i = gone.index_of(processor);
    assert(0 <= i < gone.len() && gone[i] == processor);
    let out = announced(m, capacity, gone)[client].outbox;
    assert(out[m[client].outbox.len() + i] == departures(gone)[i]);
}

} // verus!
