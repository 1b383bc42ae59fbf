use scm_fleet::device::ProcessorAddress;
use scm_fleet::evidence::{EvidencePerson, EvidencePersonViolation};
use scm_fleet::push::{
    audience, jobs_for, settle, user_hears, Dispatcher, PushOutcome, FEED_COOLDOWN_MS,
    REFRESH_TICKS, TICK_MS,
};
use scm_fleet::hub::{CentralWebSocketResponse, Hub};
use scm_fleet::registry::{
    Cluster, Evidence, Processor, Registry, Subscriber, SubscriberKind, User, UserRole,
};
use scm_fleet::server::{plan, plan_now};

fn user(id: &str, clusters: Vec<&str>, role: UserRole) -> User {
    User {
        id: id.to_string(),
        cluster_id: clusters.into_iter().map(|c| c.to_string()).collect(),
        number: format!("n-{}", id),
        name: format!("name {}", id),
        password: "x".to_string(),
        role,
    }
}

fn subscriber(id: &str, user: &str, token: &str) -> Subscriber {
    Subscriber {
        id: id.to_string(),
        user_id: user.to_string(),
        kind: SubscriberKind::Apple(token.to_string()),
    }
}

fn person(violations: usize) -> EvidencePerson {
    EvidencePerson::new(
        "p".to_string(),
        Vec::new(),
        Vec::new(),
        vec![EvidencePersonViolation::MissingGloves; violations],
    )
}

fn record(cluster: &str, processor: &str, persons: Vec<EvidencePerson>) -> Evidence {
    Evidence {
        id: "e1".to_string(),
        cluster_id: cluster.to_string(),
        processor_id: processor.to_string(),
        camera_id: "c1".to_string(),
        frame_id: "f1".to_string(),
        timestamp: 1,
        person: persons,
    }
}

fn store() -> Registry {
    let mut reg = Registry::new();
    reg.put_cluster(Cluster { id: "k1".to_string(), uniform_id: Vec::new(), name: "Plant".to_string() });
    reg.put_cluster(Cluster { id: "k2".to_string(), uniform_id: Vec::new(), name: "Yard".to_string() });
    reg.put_user(user("boss", Vec::new(), UserRole::SuperAdmin));
    reg.put_user(user("u", vec!["k1"], UserRole::Manager));
    reg.put_user(user("v", vec!["k2"], UserRole::Officer));
    reg.put_subscriber(subscriber("s", "u", "token-s"));
    reg.put_subscriber(subscriber("t", "v", "token-t"));
    reg.put_subscriber(subscriber("s2", "u", "token-s2"));
    reg.put_subscriber(subscriber("b", "boss", "token-b"));
    reg.put_processor(Processor {
        id: "p1".to_string(),
        cluster_id: "k1".to_string(),
        name: "Gate 4".to_string(),
        model: "m".to_string(),
        address: ProcessorAddress { host: [1, 2, 3, 4], port: 1 },
        version: 1,
    });
    reg
}

#[test]
fn dispatcher_constants() {
    assert_eq!(FEED_COOLDOWN_MS, 60_000);
    assert_eq!(TICK_MS, 5_000);
    assert_eq!(REFRESH_TICKS, 240);
}

#[test]
fn terminal_push_error_prunes_subscriber() {
    let mut reg = store();
    assert!(settle(&mut reg, &"s".to_string(), PushOutcome::Rejected(410)));
    assert!(reg.subscriber.get(&"s".to_string()).is_none());
    let e = record("k1", "p1", vec![person(1)]);
    let jobs = jobs_for(&reg, &e);
    assert!(jobs.iter().all(|j| j.subscriber_id != "s"));
    assert_eq!(jobs.len(), 2);
}

#[test]
fn revoked_credentials_prune_too() {
    let mut reg = store();
    assert!(settle(&mut reg, &"t".to_string(), PushOutcome::Rejected(403)));
    assert!(reg.subscriber.get(&"t".to_string()).is_none());
    assert_eq!(reg.subscriber.len(), 3);
}

#[test]
fn retryable_outcomes_leave_the_subscriber() {
    let mut reg = store();
    for outcome in [
        PushOutcome::Delivered,
        PushOutcome::Unreachable,
        PushOutcome::Rejected(400),
        PushOutcome::Rejected(404),
        PushOutcome::Rejected(429),
        PushOutcome::Rejected(500),
        PushOutcome::Rejected(503),
    ] {
        assert!(!outcome.is_final());
        assert!(!settle(&mut reg, &"s".to_string(), outcome));
        assert!(reg.subscriber.get(&"s".to_string()).is_some());
    }
    assert!(PushOutcome::Rejected(403).is_final());
    assert!(PushOutcome::Rejected(410).is_final());
}

#[test]
fn pruning_an_unknown_subscriber_reports_nothing_removed() {
    let mut reg = store();
    assert!(!settle(&mut reg, &"nobody".to_string(), PushOutcome::Rejected(410)));
    assert_eq!(reg.subscriber.len(), 4);
}

#[test]
fn audience_is_cluster_members_and_super_admins() {
    let reg = store();
    assert_eq!(audience(&reg, &"k1".to_string()), vec!["boss".to_string(), "u".to_string()]);
    assert_eq!(audience(&reg, &"k2".to_string()), vec!["boss".to_string(), "v".to_string()]);
    assert_eq!(audience(&reg, &"k3".to_string()), vec!["boss".to_string()]);
    assert!(user_hears(&user("a", Vec::new(), UserRole::SuperAdmin), &"k".to_string()));
    assert!(!user_hears(&user("a", vec!["j"], UserRole::Manager), &"k".to_string()));
}

#[test]
fn jobs_carry_title_and_subtitle() {
    let reg = store();
    let e = record("k1", "p1", vec![person(1), person(0), person(3)]);
    let jobs = jobs_for(&reg, &e);
    let ids: Vec<&str> = jobs.iter().map(|j| j.subscriber_id.as_str()).collect();
    assert_eq!(ids, vec!["b", "s", "s2"]);
    assert_eq!(jobs[1].token, "token-s");
    for job in &jobs {
        assert_eq!(job.title, "Terjadi 2 Pelanggaran Baru!");
        assert_eq!(job.subtitle, "Tertangkap kamera Gate 4");
    }
}

#[test]
fn unknown_processor_gets_the_plain_subtitle() {
    let reg = store();
    let e = record("k2", "lost", vec![person(2); 12]);
    let jobs = jobs_for(&reg, &e);
    assert_eq!(jobs.len(), 2);
    assert_eq!(jobs[0].title, "Terjadi 12 Pelanggaran Baru!");
    assert_eq!(jobs[0].subtitle, "Cek sekarang!");
    let none = record("k2", "lost", Vec::new());
    assert_eq!(jobs_for(&reg, &none)[0].title, "Terjadi 0 Pelanggaran Baru!");
}

#[test]
fn provider_client_is_rebuilt_every_240_ticks() {
    let mut d = Dispatcher::new();
    for round in 0..3 {
        for tick in 1..=240 {
            let rebuild = d.tick();
            assert_eq!(rebuild, tick == 240, "round {} tick {}", round, tick);
        }
    }
}

#[test]
fn live_feed_cooldown_is_sixty_seconds() {
    let reg = store();
    let mut d = Dispatcher::new();
    let u = "u".to_string();
    assert_eq!(d.feed_due(&reg, &u, 1_000), Some(vec!["k1".to_string()]));
    assert_eq!(d.feed_due(&reg, &u, 1_001), None);
    assert_eq!(d.feed_due(&reg, &u, 60_999), None);
    assert_eq!(d.feed_due(&reg, &u, 61_000), Some(vec!["k1".to_string()]));
    assert_eq!(d.feed_due(&reg, &u, 100_000), None);
    assert_eq!(d.feed_due(&reg, &u, 121_000), Some(vec!["k1".to_string()]));
}

#[test]
fn live_feed_skips_users_the_store_does_not_know() {
    let reg = store();
    let mut d = Dispatcher::new();
    assert_eq!(d.feed_due(&reg, &"ghost".to_string(), 5), None);
    assert_eq!(d.feed_due(&reg, &"ghost".to_string(), 500_000), None);
    assert_eq!(d.feed_due(&reg, &"v".to_string(), 5), Some(vec!["k2".to_string()]));
}

#[test]
fn live_feed_remembers_the_clusters_it_saw_first() {
    let mut reg = store();
    let mut d = Dispatcher::new();
    let u = "u".to_string();
    assert_eq!(d.feed_due(&reg, &u, 0), Some(vec!["k1".to_string()]));
    reg.put_user(user("u", vec!["k1", "k9"], UserRole::Manager));
    assert_eq!(d.feed_due(&reg, &u, 60_000), Some(vec!["k1".to_string()]));
}

#[test]
fn live_feed_at_the_wall_clock() {
    let reg = store();
    let mut d = Dispatcher::new();
    assert_eq!(d.feed_due_now(&reg, &"u".to_string()), Some(vec!["k1".to_string()]));
    assert_eq!(d.feed_due_now(&reg, &"u".to_string()), None);
    assert_eq!(d.feed_due_now(&reg, &"ghost".to_string()), None);
    assert_eq!(d.feed_due(&reg, &"u".to_string(), i64::MAX), Some(vec!["k1".to_string()]));
}

#[test]
fn live_feed_shows_the_queued_records_of_the_users_clusters() {
    let reg = store();
    let queue = vec![
        record("k1", "p1", vec![person(1)]),
        record("k2", "p1", vec![person(1)]),
        record("k1", "lost", Vec::new()),
    ];
    let shown = scm_fleet::push::digest(&queue, &vec!["k1".to_string(), "k7".to_string()], &reg);
    assert_eq!(shown.len(), 2);
    assert_eq!(shown[0].processor.name, "Gate 4");
    assert_eq!(shown[1].processor.name, "lost");
    assert!(scm_fleet::push::digest(&queue, &Vec::new(), &reg).is_empty());
    assert_eq!(scm_fleet::push::count_offenders(&queue[0]), 1);
}

#[test]
fn evidence_of_a_cluster_that_is_gone_notifies_nobody() {
    let reg = store();
    let e = record("k3", "p1", vec![person(1)]);
    assert!(jobs_for(&reg, &e).is_empty());
    let mut bare = Registry::new();
    bare.put_user(user("boss", Vec::new(), UserRole::SuperAdmin));
    bare.put_subscriber(subscriber("b", "boss", "token-b"));
    assert!(jobs_for(&bare, &record("k1", "p1", vec![person(1)])).is_empty());
}

fn greeted(hub: &mut Hub, client: &str, user: &str) {
    hub.connect(client.to_string(), user.to_string(), CentralWebSocketResponse::Processor(Vec::new()));
    let _ = hub.drain(&client.to_string());
}

fn feed_ids(hub: &mut Hub, client: &str) -> Vec<String> {
    hub.drain(&client.to_string())
        .into_iter()
        .map(|m| match m {
            CentralWebSocketResponse::Evidence(e) => format!("{}@{}", e.id, e.cluster.id),
            other => panic!("unexpected message {:?}", other),
        })
        .collect()
}

fn numbered(id: &str, cluster: &str) -> Evidence {
    let mut e = record(cluster, "p1", vec![person(1)]);
    e.id = id.to_string();
    e
}

#[test]
fn tick_feeds_due_clients_drains_the_queue_and_plans_the_jobs() {
    let reg = store();
    let mut d = Dispatcher::new();
    let mut hub = Hub::new(8);
    greeted(&mut hub, "s1", "u");
    greeted(&mut hub, "s2", "v");
    greeted(&mut hub, "s3", "u");
    greeted(&mut hub, "s4", "ghost");
    let mut queue = vec![numbered("e1", "k1"), numbered("e2", "k2"), numbered("e3", "k1")];
    let (jobs, rebuild) = plan(&mut d, &mut hub, &mut queue, &reg, 1_000);
    assert!(!rebuild);
    assert!(queue.is_empty());
    assert_eq!(feed_ids(&mut hub, "s1"), vec!["e1@k1", "e3@k1"]);
    assert_eq!(feed_ids(&mut hub, "s2"), vec!["e2@k2"]);
    assert!(feed_ids(&mut hub, "s3").is_empty());
    assert!(feed_ids(&mut hub, "s4").is_empty());
    let ids: Vec<&str> = jobs.iter().map(|j| j.subscriber_id.as_str()).collect();
    assert_eq!(ids, vec!["b", "s", "s2", "b", "t", "b", "s", "s2"]);

    let mut queue = vec![numbered("e4", "k1")];
    let (jobs, _) = plan(&mut d, &mut hub, &mut queue, &reg, 1_000 + FEED_COOLDOWN_MS - 1);
    assert_eq!(jobs.len(), 3);
    assert!(feed_ids(&mut hub, "s1").is_empty());
    let mut queue = vec![numbered("e5", "k1")];
    let _ = plan(&mut d, &mut hub, &mut queue, &reg, 1_000 + FEED_COOLDOWN_MS);
    assert_eq!(feed_ids(&mut hub, "s1"), vec!["e5@k1"]);
    assert!(feed_ids(&mut hub, "s2").is_empty());
}

#[test]
fn tick_with_an_empty_queue_feeds_nobody_and_is_counted() {
    let reg = store();
    let mut d = Dispatcher::new();
    let mut hub = Hub::new(8);
    greeted(&mut hub, "s1", "u");
    let mut queue: Vec<Evidence> = Vec::new();
    for n in 1..=REFRESH_TICKS {
        let (jobs, rebuild) = plan(&mut d, &mut hub, &mut queue, &reg, 5);
        assert!(jobs.is_empty());
        assert_eq!(rebuild, n == REFRESH_TICKS);
    }
    assert!(feed_ids(&mut hub, "s1").is_empty());
    let mut queue = vec![numbered("e1", "k1")];
    let _ = plan(&mut d, &mut hub, &mut queue, &reg, 5);
    assert_eq!(feed_ids(&mut hub, "s1"), vec!["e1@k1"]);
}

#[test]
fn tick_drops_the_client_whose_outbox_fills_and_serves_the_others() {
    let reg = store();
    let mut d = Dispatcher::new();
    let mut hub = Hub::new(2);
    hub.connect("slow".to_string(), "u".to_string(), CentralWebSocketResponse::Processor(Vec::new()));
    greeted(&mut hub, "fine", "v");
    let mut queue = vec![numbered("e1", "k1"), numbered("e2", "k1"), numbered("e4", "k2")];
    let (jobs, _) = plan(&mut d, &mut hub, &mut queue, &reg, 9);
    assert_eq!(jobs.len(), 8);
    assert!(!hub.is_connected(&"slow".to_string()));
    assert!(hub.is_connected(&"fine".to_string()));
    assert_eq!(hub.len(), 1);
    assert_eq!(feed_ids(&mut hub, "fine"), vec!["e4@k2"]);
}

#[test]
fn tick_at_the_wall_clock() {
    let reg = store();
    let mut d = Dispatcher::new();
    let mut hub = Hub::new(8);
    greeted(&mut hub, "s1", "u");
    let mut queue = vec![numbered("e1", "k1"), numbered("e2", "k2")];
    let (jobs, rebuild) = plan_now(&mut d, &mut hub, &mut queue, &reg);
    assert!(!rebuild);
    assert_eq!(jobs.len(), 5);
    assert!(queue.is_empty());
    assert_eq!(feed_ids(&mut hub, "s1"), vec!["e1@k1"]);
    let mut queue = vec![numbered("e3", "k1")];
    let (jobs, _) = plan_now(&mut d, &mut hub, &mut queue, &reg);
    assert_eq!(jobs.len(), 3);
    assert!(feed_ids(&mut hub, "s1").is_empty());
}
