//! The push dispatcher: who is told of a piece of evidence, what the
//! notification says, what a delivery outcome does to the subscriber, and
//! the cooldown of the per-user live feed.
use crate::clock::now_millis;
use crate::registry::{holds_id, Evidence, RecordView, Registry, Subscriber, SubscriberKind, User, UserRole};
use crate::table::Table;
use crate::text::{decimal, push_decimal, texts};
use crate::views::{projected, projection_views, ProjectionView, ViewEvidence};
use vstd::prelude::*;

verus! {

/// Shortest distance between two live-feed updates to one user, in
/// milliseconds.
pub const FEED_COOLDOWN_MS: i64 = 60_000;

/// Period of the dispatcher, in milliseconds.
pub const TICK_MS: u64 = 5_000;

/// Number of ticks after which the provider client is rebuilt.
pub const REFRESH_TICKS: u32 = 240;

/// What the provider said of one delivery.
#[derive(Clone, Copy, Debug, PartialEq, Eq, Structural)]
pub enum PushOutcome {
    /// The provider took the notification.
    Delivered,
    /// The provider answered with an error code.
    Rejected(u16),
    /// The provider could not be reached or gave no code.
    Unreachable,
}

/// Whether a provider code means that the token is permanently unusable:
/// credentials revoked (403) or token unregistered (410).
pub open spec fn is_terminal(code: u16) -> bool {
    code == 403 || code == 410
}

impl PushOutcome {
    /// Whether the outcome ends the life of the subscriber.
    pub open spec fn ends_subscription(self) -> bool {
        self matches PushOutcome::Rejected(code) && is_terminal(code)
    }

    /// Whether the outcome ends the life of the subscriber.
    pub fn is_final(&self) -> (r: bool)
        ensures
            r == self.ends_subscription(),
    {
        match self {
            PushOutcome::Rejected(code) => *code == 403 || *code == 410,
            _ => false,
        }
    }
}

/// Acts on the outcome of a delivery to subscriber `id`. A terminal error
/// removes the subscriber from the store; every other outcome leaves the
/// store as it was. Returns whether a subscriber was removed.
pub fn settle(reg: &mut Registry, id: &String, outcome: PushOutcome) -> (pruned: bool)
    requires
        old(reg).wf(),
    ensures
        final(reg).wf(),
        outcome.ends_subscription() ==> final(reg).subscriber@ == old(reg).subscriber@.remove(id@)
            && !final(reg).subscriber@.contains_key(id@) && pruned == old(reg).subscriber@.contains_key(id@),
        !outcome.ends_subscription() ==> *final(reg) == *old(reg) && !pruned,
        final(reg).cluster == old(reg).cluster,
        final(reg).uniform == old(reg).uniform,
        final(reg).processor == old(reg).processor,
        final(reg).camera == old(reg).camera,
        final(reg).evidence == old(reg).evidence,
        final(reg).user == old(reg).user,
{
    if outcome.is_final() {
        match reg.subscriber.remove(id) {
            Some(_) => true,
            None => false,
        }
    } else {
        false
    }
}

/// Whether a user is told of evidence from `cluster`: every super admin
/// is, and every user who belongs to the cluster.
pub open spec fn hears(user: User, cluster: Seq<char>) -> bool {
    user.role == UserRole::SuperAdmin || texts(user.cluster_id@).contains(cluster)
}

/// Whether a user is told of evidence from `cluster`.
pub fn user_hears(user: &User, cluster: &String) -> (r: bool)
    ensures
        r == hears(*user, cluster@),
{
    match user.role {
        UserRole::SuperAdmin => true,
        _ => holds_id(&user.cluster_id, cluster),
    }
}

/// The identifiers of the users among `users` who are told of evidence
/// from `cluster`, in order.
pub open spec fn audience_of(users: Seq<User>, cluster: Seq<char>) -> Seq<Seq<char>>
    decreases users.len(),
{
    if users.len() == 0 {
        Seq::empty()
    } else if hears(users.last(), cluster) {
        audience_of(users.drop_last(), cluster).push(users.last().id@)
    } else {
        audience_of(users.drop_last(), cluster)
    }
}

/// The users who are told of evidence from `cluster`, in the order of the
/// store.
pub fn audience(reg: &Registry, cluster: &String) -> (r: Vec<String>)
    requires
        reg.wf(),
    ensures
        texts(r@) == audience_of(reg.user.values(), cluster@),
{
    let mut r: Vec<String> = Vec::new();
    let n = reg.user.len();
    let mut i: usize = 0;
    assert(reg.user.values().take(0) =~= Seq::<User>::empty());
    assert(texts(r@) =~= Seq::<Seq<char>>::empty());
    while i < n
        invariant
            reg.wf(),
            n == reg.user.keys().len(),
            i <= n,
            texts(r@) == audience_of(reg.user.values().take(i as int), cluster@),
        decreases n - i,
    {
        let user = reg.user.value_at(i);
        proof {
            let next = reg.user.values().take(i as int + 1);
            assert(next.drop_last() =~= reg.user.values().take(i as int));
            assert(next.last() == *user);
        }
        if user_hears(user, cluster) {
            let ghost prev = r@;
            r.push(user.id.clone());
            assert(texts(r@) =~= texts(prev).push(user.id@));
        }
        i += 1;
    }
    assert(reg.user.values().take(n as int) =~= reg.user.values());
    r
}

/// A notification on its way to one subscriber.
#[derive(Debug, PartialEq, Eq)]
pub struct PushJob {
    pub subscriber_id: String,
    pub token: String,
    pub title: String,
    pub subtitle: String,
}

/// Mathematical value of a [`PushJob`].
pub ghost struct PushJobView {
    pub subscriber_id: Seq<char>,
    pub token: Seq<char>,
    pub title: Seq<char>,
    pub subtitle: Seq<char>,
}

impl View for PushJob {
    type V = PushJobView;

    open spec fn view(&self) -> PushJobView {
        PushJobView {
            subscriber_id: self.subscriber_id@,
            token: self.token@,
            title: self.title@,
            subtitle: self.subtitle@,
        }
    }
}

/// The values of a list of jobs, in order.
pub open spec fn job_views(v: Seq<PushJob>) -> Seq<PushJobView> {
    Seq::new(v.len(), |i: int| v[i]@)
}

/// Number of persons of a record that carry a violation.
pub open spec fn violation_count(e: RecordView) -> nat {
    offenders(e, e.person.len())
}

/// Number of persons among the first `n` of a record that carry a
/// violation.
pub open spec fn offenders(e: RecordView, n: nat) -> nat
    decreases n,
{
    if n == 0 || n > e.person.len() {
        0
    } else if e.person[n - 1].violation.len() > 0 {
        offenders(e, (n - 1) as nat) + 1
    } else {
        offenders(e, (n - 1) as nat)
    }
}

/// The title of a notification about `n` violations.
pub open spec fn title_text(n: nat) -> Seq<char> {
    "Terjadi "@ + decimal(n) + " Pelanggaran Baru!"@
}

/// The subtitle of a notification: the name of the processor that caught
/// the violation, or a plain call to look where the store does not know the
/// processor.
pub open spec fn subtitle_text(reg: Registry, processor: Seq<char>) -> Seq<char> {
    if reg.processor@.contains_key(processor) {
        "Tertangkap kamera "@ + reg.processor@[processor].name@
    } else {
        "Cek sekarang!"@
    }
}

/// The job that tells subscriber `s`.
pub open spec fn job_of(s: Subscriber, title: Seq<char>, subtitle: Seq<char>) -> PushJobView {
    PushJobView {
        subscriber_id: s.id@,
        token: match s.kind {
            SubscriberKind::Apple(t) => t@,
        },
        title,
        subtitle,
    }
}

/// The jobs for the subscribers among `subs` that belong to `user`, in
/// order.
pub open spec fn jobs_of_user(
    subs: Seq<Subscriber>,
    user: Seq<char>,
    title: Seq<char>,
    subtitle: Seq<char>,
) -> Seq<PushJobView>
    decreases subs.len(),
{
    if subs.len() == 0 {
        Seq::empty()
    } else if subs.last().user_id@ == user {
        jobs_of_user(subs.drop_last(), user, title, subtitle).push(
            job_of(subs.last(), title, subtitle),
        )
    } else {
        jobs_of_user(subs.drop_last(), user, title, subtitle)
    }
}

/// The jobs for every subscriber of every user in `users`, user by user.
pub open spec fn jobs_of(
    users: Seq<Seq<char>>,
    subs: Seq<Subscriber>,
    title: Seq<char>,
    subtitle: Seq<char>,
) -> Seq<PushJobView>
    decreases users.len(),
{
    if users.len() == 0 {
        Seq::empty()
    } else {
        jobs_of(users.drop_last(), subs, title, subtitle) + jobs_of_user(
            subs,
            users.last(),
            title,
            subtitle,
        )
    }
}

/// The jobs that one stored piece of evidence gives rise to: none where
/// the store no longer holds its cluster.
pub open spec fn jobs_for_record(reg: Registry, e: RecordView) -> Seq<PushJobView> {
    if reg.cluster@.contains_key(e.cluster_id) {
        jobs_of(
            audience_of(reg.user.values(), e.cluster_id),
            reg.subscriber.values(),
            title_text(violation_count(e)),
            subtitle_text(reg, e.processor_id),
        )
    } else {
        Seq::empty()
    }
}

/// Number of persons of a record that carry a violation.
pub fn count_offenders(e: &Evidence) -> (n: usize)
    ensures
        n == violation_count(e@),
{
    let mut n: usize = 0;
    let mut i: usize = 0;
    while i < e.person.len()
        invariant
            i <= e.person.len(),
            n <= i,
            n == offenders(e@, i as nat),
        decreases e.person.len() - i,
    {
        if e.person[i].in_violation() {
            n += 1;
        }
        i += 1;
    }
    n
}

fn title_for(n: usize) -> (r: String)
    ensures
        r@ == title_text(n as nat),
{
    let mut r = String::from_str("Terjadi ");
    push_decimal(&mut r, n as u64);
    r.append(" Pelanggaran Baru!");
    r
}

fn subtitle_for(reg: &Registry, processor: &String) -> (r: String)
    requires
        reg.wf(),
    ensures
        r@ == subtitle_text(*reg, processor@),
{
    match reg.processor.get(processor) {
        Some(p) => {
            let mut r = String::from_str("Tertangkap kamera ");
            r.append(p.name.as_str());
            r
        },
        None => String::from_str("Cek sekarang!"),
    }
}

fn append_jobs(out: &mut Vec<PushJob>, subs: &Table<Subscriber>, user: &String, title: &String, subtitle: &String)
    requires
        subs.wf(),
    ensures
        job_views(final(out)@) == job_views(old(out)@) + jobs_of_user(
            subs.values(),
            user@,
            title@,
            subtitle@,
        ),
{
    let ghost start = job_views(out@);
    let n = subs.len();
    let mut i: usize = 0;
    assert(subs.values().take(0) =~= Seq::<Subscriber>::empty());
    assert(job_views(out@) =~= start + Seq::<PushJobView>::empty());
    while i < n
        invariant
            subs.wf(),
            n == subs.keys().len(),
            i <= n,
            job_views(out@) == start + jobs_of_user(
                subs.values().take(i as int),
                user@,
                title@,
                subtitle@,
            ),
        decreases n - i,
    {
        let s = subs.value_at(i);
        proof {
            let next = subs.values().take(i as int + 1);
            assert(next.drop_last() =~= subs.values().take(i as int));
            assert(next.last() == *s);
        }
        if s.user_id == *user {
            let token = match &s.kind {
                SubscriberKind::Apple(t) => t.clone(),
            };
            let ghost prev = out@;
            out.push(
                PushJob {
                    subscriber_id: s.id.clone(),
                    token,
                    title: title.clone(),
                    subtitle: subtitle.clone(),
                },
            );
            assert(job_views(out@) =~= job_views(prev).push(job_of(*s, title@, subtitle@)));
            assert(job_views(out@) =~= start + jobs_of_user(
                subs.values().take(i as int + 1),
                user@,
                title@,
                subtitle@,
            ));
        }
        i += 1;
    }
    assert(subs.values().take(n as int) =~= subs.values());
}

/// The notifications that one stored piece of evidence gives rise to: one
/// for each subscriber of each user who is told of its cluster, users in
/// the order of the store and the subscribers of each in the order of the
/// store. The title states how many persons carry a violation. Evidence of
/// a cluster that the store no longer holds gives rise to none.
pub fn jobs_for(reg: &Registry, evidence: &Evidence) -> (r: Vec<PushJob>)
    requires
        reg.wf(),
    ensures
        job_views(r@) == jobs_for_record(*reg, evidence@),
{
    if !reg.cluster.contains(&evidence.cluster_id) {
        let none: Vec<PushJob> = Vec::new();
        assert(job_views(none@) =~= Seq::<PushJobView>::empty());
        return none;
    }
    let users = audience(reg, &evidence.cluster_id);
    let title = title_for(count_offenders(evidence));
    let subtitle = subtitle_for(reg, &evidence.processor_id);
    let mut r: Vec<PushJob> = Vec::new();
    let mut i: usize = 0;
    assert(texts(users@).take(0) =~= Seq::<Seq<char>>::empty());
    assert(job_views(r@) =~= Seq::<PushJobView>::empty());
    while i < users.len()
        invariant
            reg.wf(),
            i <= users.len(),
            job_views(r@) == jobs_of(
                texts(users@).take(i as int),
                reg.subscriber.values(),
                title@,
                subtitle@,
            ),
        decreases users.len() - i,
    {
        proof {
            let next = texts(users@).take(i as int + 1);
            assert(next.drop_last() =~= texts(users@).take(i as int));
            assert(next.last() == users@[i as int]@);
        }
        append_jobs(&mut r, &reg.subscriber, &users[i], &title, &subtitle);
        i += 1;
    }
    assert(texts(users@).take(users.len() as int) =~= texts(users@));
    r
}

/// The projections of the records among `queue` that belong to one of the
/// clusters `clusters`, in order.
pub open spec fn digest_of(queue: Seq<Evidence>, clusters: Seq<Seq<char>>, reg: Registry) -> Seq<
    ProjectionView,
>
    decreases queue.len(),
{
    if queue.len() == 0 {
        Seq::empty()
    } else if clusters.contains(queue.last()@.cluster_id) {
        digest_of(queue.drop_last(), clusters, reg).push(projected(queue.last()@, reg))
    } else {
        digest_of(queue.drop_last(), clusters, reg)
    }
}

/// The live feed for a user who sees the clusters `clusters`: the queued
/// records of those clusters, in the order of the queue, each with the
/// names of what it refers to.
pub fn digest(queue: &Vec<Evidence>, clusters: &Vec<String>, reg: &Registry) -> (r: Vec<ViewEvidence>)
    requires
        reg.wf(),
    ensures
        projection_views(r@) == digest_of(queue@, texts(clusters@), *reg),
{
    let mut r: Vec<ViewEvidence> = Vec::new();
    let mut i: usize = 0;
    assert(queue@.take(0) =~= Seq::<Evidence>::empty());
    assert(projection_views(r@) =~= Seq::<ProjectionView>::empty());
    while i < queue.len()
        invariant
            reg.wf(),
            i <= queue.len(),
            projection_views(r@) == digest_of(queue@.take(i as int), texts(clusters@), *reg),
        decreases queue.len() - i,
    {
        let row = &queue[i];
        proof {
            let next = queue@.take(i as int + 1);
            assert(next.drop_last() =~= queue@.take(i as int));
            assert(next.last() == *row);
        }
        if holds_id(clusters, &row.cluster_id) {
            let ghost prev = r@;
            r.push(ViewEvidence::from(row.duplicate(), reg));
            assert(projection_views(r@) =~= projection_views(prev).push(projected(row@, *reg)));
        }
        i += 1;
    }
    assert(queue@.take(queue.len() as int) =~= queue@);
    r
}

/// What the dispatcher remembers of a user: the clusters whose evidence the
/// user sees, and when the live feed last went out.
pub struct Feed {
    cluster_id: Vec<String>,
    last_push: i64,
}

/// Whether a live-feed update is due at `now` for a user last served at
/// `last`: not while less than [`FEED_COOLDOWN_MS`] have passed.
pub open spec fn feed_is_due(last: i64, now: i64) -> bool {
    now - last >= FEED_COOLDOWN_MS
}

/// What the dispatcher remembers of the users it knows: when the live feed
/// last went out to each, and the clusters that each sees.
pub ghost struct FeedsView {
    pub last_push: Map<Seq<char>, i64>,
    pub clusters: Map<Seq<char>, Seq<Seq<char>>>,
}

/// The clusters whose queued evidence goes out to `user` at `now`, where
/// the live feed is due. A user whom the dispatcher knows is served once
/// the cooldown has passed, with the clusters that the dispatcher
/// remembers; a user whom it sees for the first time is served at once,
/// with the clusters that the store holds, unless the store does not know
/// the user.
pub open spec fn feed_clusters(feeds: FeedsView, reg: Registry, user: Seq<char>, now: i64) -> Option<
    Seq<Seq<char>>,
> {
    if feeds.last_push.contains_key(user) {
        if feed_is_due(feeds.last_push[user], now) {
            Some(feeds.clusters[user])
        } else {
            None
        }
    } else if reg.user@.contains_key(user) {
        Some(texts(reg.user@[user].cluster_id@))
    } else {
        None
    }
}

/// What the dispatcher remembers once it has decided on the live feed of
/// `user` at `now`: the instant and the clusters where the feed is due,
/// and what it remembered before where it is not.
pub open spec fn after_feed(feeds: FeedsView, reg: Registry, user: Seq<char>, now: i64) -> FeedsView {
    match feed_clusters(feeds, reg, user, now) {
        Some(c) => FeedsView {
            last_push: feeds.last_push.insert(user, now),
            clusters: feeds.clusters.insert(user, c),
        },
        None => feeds,
    }
}

/// Whether `after` and `r` are what a decision on the live feed of `user`
/// at `now` makes of `before`.
pub open spec fn served(
    before: FeedsView,
    after: FeedsView,
    reg: Registry,
    user: Seq<char>,
    now: i64,
    r: Option<Seq<Seq<char>>>,
) -> bool {
    r == feed_clusters(before, reg, user, now) && after == after_feed(before, reg, user, now)
}

/// The clusters that a decision on the live feed handed out.
pub open spec fn cluster_texts(r: Option<Vec<String>>) -> Option<Seq<Seq<char>>> {
    match r {
        Some(v) => Some(texts(v@)),
        None => None,
    }
}

/// State of the dispatcher between ticks.
pub struct Dispatcher {
    per_user: Table<Feed>,
    ticks: u32,
}

impl Dispatcher {
    /// When the live feed last went out to each user the dispatcher knows.
    pub closed spec fn last_push(&self) -> Map<Seq<char>, i64> {
        Map::new(
            |k: Seq<char>| self.per_user@.contains_key(k),
            |k: Seq<char>| self.per_user@[k].last_push,
        )
    }

    /// The clusters that the dispatcher remembers for each user it knows.
    pub closed spec fn clusters(&self) -> Map<Seq<char>, Seq<Seq<char>>> {
        Map::new(
            |k: Seq<char>| self.per_user@.contains_key(k),
            |k: Seq<char>| texts(self.per_user@[k].cluster_id@),
        )
    }

    /// What the dispatcher remembers of the users it knows.
    pub open spec fn feeds(&self) -> FeedsView {
        FeedsView { last_push: self.last_push(), clusters: self.clusters() }
    }

    /// Ticks since the provider client was last built.
    pub closed spec fn ticks(&self) -> nat {
        self.ticks as nat
    }

    /// Internal consistency of the state.
    pub closed spec fn wf(&self) -> bool {
        self.per_user.wf() && self.ticks < REFRESH_TICKS
    }

    /// A dispatcher that knows no user and has a fresh provider client.
    pub fn new() -> (r: Self)
        ensures
            r.wf(),
            r.ticks() == 0,
            r.last_push() == Map::<Seq<char>, i64>::empty(),
            r.clusters() == Map::<Seq<char>, Seq<Seq<char>>>::empty(),
    {
        let r = Dispatcher { per_user: Table::new(), ticks: 0 };
        assert(r.last_push() =~= Map::<Seq<char>, i64>::empty());
        assert(r.clusters() =~= Map::<Seq<char>, Seq<Seq<char>>>::empty());
        r
    }

    /// Counts one tick. Every [`REFRESH_TICKS`]th tick asks for a new
    /// provider client and starts the count again.
    pub fn tick(&mut self) -> (rebuild: bool)
        requires
            old(self).wf(),
        ensures
            final(self).wf(),
            final(self).last_push() == old(self).last_push(),
            final(self).clusters() == old(self).clusters(),
            rebuild == (old(self).ticks() + 1 == REFRESH_TICKS),
            final(self).ticks() == (if rebuild {
                0
            } else {
                old(self).ticks() + 1
            }),
    {
        if self.ticks + 1 >= REFRESH_TICKS {
            self.ticks = 0;
            true
        } else {
            self.ticks = self.ticks + 1;
            false
        }
    }

    /// Decides whether the live feed goes out to `user` at `now`, and
    /// remembers `now` where it does. A user whom the dispatcher sees for
    /// the first time is served at once, with the clusters that the store
    /// holds for that user; a user unknown to the store is never served.
    /// A user served before is served again once [`FEED_COOLDOWN_MS`] have
    /// passed. Returns the clusters whose evidence the user sees, where the
    /// feed is due.
    pub fn feed_due(&mut self, reg: &Registry, user: &String, now: i64) -> (r: Option<Vec<String>>)
        requires
            old(self).wf(),
            reg.wf(),
        ensures
            final(self).wf(),
            final(self).ticks() == old(self).ticks(),
            old(self).last_push().contains_key(user@) ==> (r.is_some() <==> feed_is_due(
                old(self).last_push()[user@],
                now,
            )) && final(self).clusters() == old(self).clusters() && (r matches Some(c) ==> texts(
                c@,
            ) == old(self).clusters()[user@]),
            !old(self).last_push().contains_key(user@) ==> (r.is_some()
                <==> reg.user@.contains_key(user@)) && (r matches Some(c) ==> texts(c@) == texts(
                reg.user@[user@].cluster_id@,
            ) && final(self).clusters() == old(self).clusters().insert(user@, texts(c@))),
            r.is_some() ==> final(self).last_push() == old(self).last_push().insert(user@, now),
            r.is_none() ==> final(self).last_push() == old(self).last_push()
                && final(self).clusters() == old(self).clusters(),
            cluster_texts(r) == feed_clusters(old(self).feeds(), *reg, user@, now),
            final(self).feeds() == after_feed(old(self).feeds(), *reg, user@, now),
    {
        let ghost before = *self;
        match self.per_user.position(user) {
            Some(i) => {
                proof {
                    before.per_user.lemma_entry(i as int);
                }
                let feed = self.per_user.value_at(i);
                let due = (now as i128) - (feed.last_push as i128) >= (FEED_COOLDOWN_MS as i128);
                if due {
                    let clusters = copy_ids(&feed.cluster_id);
                    let shown = copy_ids(&feed.cluster_id);
                    self.per_user.set_value_at(i, Feed { cluster_id: clusters, last_push: now });
                    assert(self.last_push() =~= before.last_push().insert(user@, now));
                    assert(self.clusters() =~= before.clusters());
                    assert(self.clusters() =~= before.clusters().insert(user@, texts(shown@)));
                    Some(shown)
                } else {
                    None
                }
            },
            None => {
                match reg.user.get(user) {
                    Some(u) => {
                        let clusters = copy_ids(&u.cluster_id);
                        let shown = copy_ids(&u.cluster_id);
                        self.per_user.insert(
                            user.clone(),
                            Feed { cluster_id: clusters, last_push: now },
                        );
                        assert(self.last_push() =~= before.last_push().insert(user@, now));
                        assert(self.clusters() =~= before.clusters().insert(user@, texts(shown@)));
                        Some(shown)
                    },
                    None => None,
                }
            },
        }
    }
}

impl Dispatcher {
    /// Decides as [`Dispatcher::feed_due`] does, at the wall clock: the
    /// answer and what the dispatcher remembers are those of a decision at
    /// one instant. A user whom the dispatcher sees for the first time is
    /// served exactly where the store knows the user. Where the feed is not
    /// due, nothing changes.
    pub fn feed_due_now(&mut self, reg: &Registry, user: &String) -> (r: Option<Vec<String>>)
        requires
            old(self).wf(),
            reg.wf(),
        ensures
            final(self).wf(),
            final(self).ticks() == old(self).ticks(),
            !old(self).last_push().contains_key(user@) ==> (r.is_some()
                <==> reg.user@.contains_key(user@)) && (r matches Some(c) ==> texts(c@) == texts(
                reg.user@[user@].cluster_id@,
            )),
            old(self).last_push().contains_key(user@) ==> (r matches Some(c) ==> texts(c@) == old(self).clusters()[user@]),
            r.is_some() ==> final(self).last_push().contains_key(user@) && final(self).last_push().remove(user@) == old(self).last_push().remove(user@),
            r.is_none() ==> final(self).last_push() == old(self).last_push()
                && final(self).clusters() == old(self).clusters(),
            exists|now: i64| #[trigger]
                served(old(self).feeds(), final(self).feeds(), *reg, user@, now, cluster_texts(r)),
    {
        let ghost before = self.last_push();
        let now = now_millis();
        let r = self.feed_due(reg, user, now);
        assert(served(old(self).feeds(), self.feeds(), *reg, user@, now, cluster_texts(r)));
        proof {
            if r.is_some() {
                assert(self.last_push().remove(user@) =~= before.remove(user@));
            }
        }
        r
    }
}

fn copy_ids(v: &Vec<String>) -> (r: Vec<String>)
    ensures
        texts(r@) == texts(v@),
{
    let mut r: Vec<String> = Vec::new();
    let mut i: usize = 0;
    while i < v.len()
        invariant
            i <= v.len(),
            r@.len() == i,
            forall|j: int| 0 <= j < i ==> (#[trigger] r@[j])@ == v@[j]@,
        decreases v.len() - i,
    {
        r.push(v[i].clone());
        i += 1;
    }
    assert(texts(r@) =~= texts(v@));
    r
}

/// After the provider answered a delivery with a terminal code, the store
/// no longer holds the subscriber, whatever it held before.
pub proof fn law_terminal_code_prunes(subscribers: Map<Seq<char>, Subscriber>, id: Seq<char>, code: u16)
    requires
        is_terminal(code),
    ensures
        PushOutcome::Rejected(code).ends_subscription(),
        !subscribers.remove(id).contains_key(id),
{
}

/// Only the two terminal codes end a subscription; a delivery that
/// succeeded or that never reached the provider ends none.
pub proof fn law_only_terminal_codes_prune(outcome: PushOutcome)
    ensures
        outcome.ends_subscription() <==> (outcome == PushOutcome::Rejected(403) || outcome
            == PushOutcome::Rejected(410)),
{
}

} // verus!
