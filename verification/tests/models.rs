use scm_fleet::accounts::password_matches;
use scm_fleet::device::{CameraAddress, ProcessorAddress};
use scm_fleet::error::EventKind;
use scm_fleet::evidence::{EvidencePerson, EvidencePersonViolation};
use scm_fleet::models::{
    CameraMinimalResponse, ProcessorMinimalResponse, UniformQuery,
};
use scm_fleet::queries::{CameraQuery, ClusterQuery, ProcessorQuery, TextFilter, UserQuery};
use scm_fleet::registry::{
    Camera, Cluster, Evidence, Processor, Registry, Subscriber, SubscriberKind, Uniform,
    UniformAttribute, User, UserRole,
};

fn address() -> CameraAddress {
    CameraAddress { host: [1, 1, 1, 2], port: 554, path: None, authentication: None }
}

fn camera(id: &str, processor: &str, cluster: &str) -> Camera {
    Camera {
        id: id.to_string(),
        cluster_id: cluster.to_string(),
        processor_id: processor.to_string(),
        address: address(),
        name: format!("cam {}", id),
    }
}

fn processor(id: &str, cluster: &str) -> Processor {
    Processor {
        id: id.to_string(),
        cluster_id: cluster.to_string(),
        name: format!("proc {}", id),
        model: "m".to_string(),
        address: ProcessorAddress { host: [1, 1, 1, 1], port: 80 },
        version: 7,
    }
}

fn cluster(id: &str, uniforms: Vec<&str>) -> Cluster {
    Cluster {
        id: id.to_string(),
        uniform_id: uniforms.into_iter().map(|u| u.to_string()).collect(),
        name: format!("cluster {}", id),
    }
}

fn uniform(id: &str) -> Uniform {
    Uniform { id: id.to_string(), name: format!("uniform {}", id), attribute: vec![UniformAttribute::Mask] }
}

fn user(id: &str, clusters: Vec<&str>, role: UserRole) -> User {
    User {
        id: id.to_string(),
        cluster_id: clusters.into_iter().map(|c| c.to_string()).collect(),
        number: format!("n-{}", id),
        name: format!("user {}", id),
        password: "plain text".to_string(),
        role,
    }
}

fn subscriber(id: &str, user: &str, token: &str) -> Subscriber {
    Subscriber { id: id.to_string(), user_id: user.to_string(), kind: SubscriberKind::Apple(token.to_string()) }
}

fn row(id: &str, processor: &str, camera: &str, t: i64) -> Evidence {
    Evidence {
        id: id.to_string(),
        cluster_id: "k1".to_string(),
        processor_id: processor.to_string(),
        camera_id: camera.to_string(),
        frame_id: "f".to_string(),
        timestamp: t,
        person: vec![EvidencePerson::new(
            "p".to_string(),
            Vec::new(),
            Vec::new(),
            vec![EvidencePersonViolation::MissingEarmuffs],
        )],
    }
}

fn store() -> Registry {
    let mut reg = Registry::new();
    assert_eq!(uniform("f1").save(&mut reg), Ok(()));
    assert_eq!(uniform("f2").save(&mut reg), Ok(()));
    assert_eq!(cluster("k1", vec!["f2", "f9", "f1"]).save(&mut reg), Ok(()));
    assert_eq!(cluster("k2", Vec::new()).save(&mut reg), Ok(()));
    assert_eq!(processor("p1", "k1").save(&mut reg), Ok(()));
    assert_eq!(processor("p2", "k9").save(&mut reg), Ok(()));
    assert_eq!(camera("c1", "p1", "k1").save(&mut reg), Ok(()));
    assert_eq!(camera("c2", "p1", "k1").save(&mut reg), Ok(()));
    assert_eq!(camera("c3", "p2", "k9").save(&mut reg), Ok(()));
    reg.put_evidence(row("e1", "p1", "c1", 10));
    reg.put_evidence(row("e2", "p1", "c2", 20));
    reg.put_evidence(row("e3", "p2", "c3", 30));
    reg
}

#[test]
fn filing_twice_fails() {
    let mut reg = store();
    assert_eq!(camera("c1", "p9", "k9").save(&mut reg), Err(EventKind::SavingFailed));
    assert_eq!(Camera::find_by_id(&"c1".to_string(), &reg).unwrap().processor_id, "p1");
    assert_eq!(processor("p1", "k2").save(&mut reg), Err(EventKind::SavingFailed));
    assert_eq!(cluster("k1", Vec::new()).save(&mut reg), Err(EventKind::SavingFailed));
    assert_eq!(uniform("f1").save(&mut reg), Err(EventKind::SavingFailed));
    assert_eq!(subscriber("s", "u", "t").save(&mut reg), Ok(()));
    assert_eq!(subscriber("s", "v", "w").save(&mut reg), Err(EventKind::SavingFailed));
    assert_eq!(Subscriber::find_by_id(&"s".to_string(), &reg).unwrap().user_id, "u");
}

#[test]
fn deleting_cascades_to_evidence() {
    let mut reg = store();
    assert_eq!(camera("c1", "", "").delete(&mut reg), Ok(()));
    assert_eq!(Camera::find_by_id(&"c1".to_string(), &reg), Err(EventKind::NotFound));
    assert!(reg.evidence.get(&"e1".to_string()).is_none());
    assert!(reg.evidence.get(&"e2".to_string()).is_some());
    assert_eq!(processor("p1", "").delete(&mut reg), Ok(()));
    assert_eq!(Processor::find_by_id(&"p1".to_string(), &reg), Err(EventKind::NotFound));
    assert!(reg.evidence.get(&"e2".to_string()).is_none());
    assert!(reg.evidence.get(&"e3".to_string()).is_some());
    assert_eq!(processor("p1", "").delete(&mut reg), Ok(()));
    assert_eq!(reg.evidence.len(), 1);
    assert_eq!(reg.camera.len(), 2);
}

#[test]
fn updates_replace_only_what_exists() {
    let mut reg = store();
    let mut changed = cluster("k1", vec!["f1"]);
    changed.name = "renamed".to_string();
    assert_eq!(changed.update(&mut reg), Ok(()));
    assert_eq!(Cluster::find_by_id(&"k1".to_string(), &reg).unwrap().name, "renamed");
    assert_eq!(cluster("k7", Vec::new()).update(&mut reg), Ok(()));
    assert_eq!(Cluster::find_by_id(&"k7".to_string(), &reg), Err(EventKind::NotFound));
    assert_eq!(Cluster::find_all(&reg).unwrap().len(), 2);
    assert_eq!(cluster("k1", Vec::new()).delete(&mut reg), Ok(()));
    assert_eq!(cluster("k2", Vec::new()).delete(&mut reg), Ok(()));
    assert_eq!(Cluster::find_all(&reg), Err(EventKind::NotFound));

    let mut u = uniform("f1");
    u.attribute = vec![UniformAttribute::HairCap];
    assert_eq!(u.update(&mut reg), Ok(()));
    assert_eq!(Uniform::find_by_id(&"f1".to_string(), &reg).unwrap().attribute, vec![UniformAttribute::HairCap]);
    assert_eq!(uniform("f7").update(&mut reg), Ok(()));
    assert_eq!(Uniform::find_by_id(&"f7".to_string(), &reg), Err(EventKind::NotFound));
    assert_eq!(uniform("f1").delete(&mut reg), Ok(()));
    assert_eq!(Uniform::find_all(&reg).unwrap().len(), 1);
}

#[test]
fn uniform_list() {
    let reg = store();
    let names = |q: &UniformQuery| -> Vec<String> {
        match Uniform::find_many(q, &reg) {
            Ok(v) => v.into_iter().map(|u| u.id).collect(),
            Err(e) => vec![e.to_string()],
        }
    };
    assert_eq!(names(&UniformQuery { uniform_id: None, text: None }), vec!["f1", "f2"]);
    assert_eq!(names(&UniformQuery { uniform_id: Some(vec!["f2".to_string(), "x".to_string()]), text: None }), vec!["f2"]);
    assert_eq!(names(&UniformQuery { uniform_id: Some(Vec::new()), text: None }), vec!["NotFound"]);
    assert_eq!(Uniform::find_all(&Registry::new()), Err(EventKind::NotFound));
    let by_name = |matched: Vec<&str>| Some(TextFilter {
        pattern: "vest".to_string(),
        matched: matched.into_iter().map(|m| m.to_string()).collect(),
    });
    assert_eq!(names(&UniformQuery { uniform_id: None, text: by_name(vec!["f2"]) }), vec!["f2"]);
    assert_eq!(names(&UniformQuery { uniform_id: Some(vec!["f1".to_string()]), text: by_name(vec!["f2"]) }), vec!["NotFound"]);
    assert_eq!(names(&UniformQuery { uniform_id: None, text: by_name(Vec::new()) }), vec!["NotFound"]);
}

#[test]
fn short_lists_by_name() {
    let reg = store();
    let by_name = |matched: Vec<&str>| Some(TextFilter {
        pattern: "2$".to_string(),
        matched: matched.into_iter().map(|m| m.to_string()).collect(),
    });
    let cams = CameraQuery {
        cluster_id: None,
        processor_id: Some("p1".to_string()),
        date_minimum: None,
        date_maximum: None,
        text: by_name(vec!["c2"]),
        limit: None,
        skip: None,
    };
    let found = Camera::find_many_minimal(&cams, &reg).unwrap();
    assert_eq!(found.len(), 1);
    assert_eq!(found[0].id, "c2");
    assert_eq!(Camera::find_many(&cams, &reg).unwrap().len(), 1);
    let clusters = ClusterQuery { cluster_id: None, date_minimum: None, date_maximum: None, text: by_name(vec!["k2"]) };
    let found = Cluster::find_many_minimal(&clusters, &reg).unwrap();
    assert_eq!(found.len(), 1);
    assert_eq!(found[0].id, "k2");
    assert_eq!(Cluster::find_one_minimal(&clusters, &reg).unwrap().id, "k2");
    let nothing = ClusterQuery { cluster_id: None, date_minimum: None, date_maximum: None, text: by_name(Vec::new()) };
    assert_eq!(Cluster::find_many_minimal(&nothing, &reg), Err(EventKind::NotFound));
}

#[test]
fn short_camera_list() {
    let reg = store();
    let q = CameraQuery {
        cluster_id: None,
        processor_id: Some("p1".to_string()),
        date_minimum: Some(15),
        date_maximum: None,
        text: None,
        limit: None,
        skip: None,
    };
    assert_eq!(
        Camera::find_many_minimal(&q, &reg).unwrap(),
        vec![
            CameraMinimalResponse {
                id: "c1".to_string(),
                cluster: "cluster k1".to_string(),
                processor: "proc p1".to_string(),
                address: address(),
                name: "cam c1".to_string(),
                notification_count: 0,
                violation_count: 0,
            },
            CameraMinimalResponse {
                id: "c2".to_string(),
                cluster: "cluster k1".to_string(),
                processor: "proc p1".to_string(),
                address: address(),
                name: "cam c2".to_string(),
                notification_count: 1,
                violation_count: 1,
            },
        ]
    );
    let shown = Camera::find_many(&q, &reg).unwrap();
    assert_eq!(shown.len(), 2);
    assert_eq!((shown[1].id.as_str(), shown[1].processor_id.as_str(), shown[1].cluster_id.as_str()), ("c2", "p1", "k1"));
    let mut none = q;
    none.processor_id = Some("p7".to_string());
    assert_eq!(Camera::find_many_minimal(&none, &reg), Err(EventKind::NotFound));
    assert_eq!(Camera::find_many(&none, &reg), Err(EventKind::NotFound));
}

#[test]
fn short_cluster_list() {
    let reg = store();
    let any = ClusterQuery { cluster_id: None, date_minimum: None, date_maximum: None, text: None };
    let all = Cluster::find_many_minimal(&any, &reg).unwrap();
    assert_eq!(all.len(), 2);
    assert_eq!(all[0].id, "k1");
    assert_eq!(all[0].uniform.iter().map(|u| u.id.as_str()).collect::<Vec<_>>(), vec!["f2", "f1"]);
    assert_eq!((all[0].processor_count, all[0].notification_count, all[0].violation_count), (1, 3, 3));
    assert!(all[1].uniform.is_empty());
    let one = ClusterQuery { cluster_id: Some(vec!["k2".to_string()]), date_minimum: None, date_maximum: None, text: None };
    assert_eq!(Cluster::find_one_minimal(&one, &reg).unwrap().name, "cluster k2");
    let none = ClusterQuery { cluster_id: Some(vec!["k3".to_string()]), date_minimum: None, date_maximum: None, text: None };
    assert_eq!(Cluster::find_one_minimal(&none, &reg), Err(EventKind::NotFound));
    assert_eq!(Cluster::find_many_minimal(&none, &reg), Err(EventKind::NotFound));
}

#[test]
fn short_processor_list() {
    let reg = store();
    let q = ProcessorQuery {
        processor_id: None,
        cluster_id: None,
        date_minimum: None,
        date_maximum: None,
        text: None,
        limit: Some(5),
        skip: Some(1),
    };
    let page = Processor::find_many_minimal(&q, &reg).unwrap();
    assert_eq!(page.len(), 1);
    assert_eq!(page[0].id, "p2");
    assert_eq!(page[0].cluster, "k9");
    assert_eq!(page[0].version, 7);
    assert_eq!(page[0].camera.iter().map(|c| c.id.as_str()).collect::<Vec<_>>(), vec!["c3"]);
    let first = ProcessorMinimalResponse::from(reg.processor.get(&"p1".to_string()).unwrap(), &reg);
    assert_eq!(first.cluster, "cluster k1");
    assert_eq!(first.camera.len(), 2);
    assert_eq!(first.camera[0].notification_count, 1);
    let mut none = q;
    none.skip = Some(2);
    assert_eq!(Processor::find_many_minimal(&none, &reg), Err(EventKind::NotFound));
}

#[test]
fn users_are_stored_with_a_hash() {
    let mut reg = store();
    assert_eq!(user("u1", vec!["k1"], UserRole::Manager).save(&mut reg), Ok(()));
    let stored = User::find_by_id(&"u1".to_string(), &reg).unwrap();
    assert_ne!(stored.password, "plain text");
    assert!(password_matches(&"plain text".to_string(), &stored.password));
    assert_eq!(stored.number, "n-u1");
    assert_eq!(user("u1", Vec::new(), UserRole::Officer).save(&mut reg), Err(EventKind::SavingFailed));
    assert_eq!(user("u2", Vec::new(), UserRole::Officer).save_hashed(None, &mut reg), Err(EventKind::SavingFailed));
    assert_eq!(user("u2", Vec::new(), UserRole::Officer).save_hashed(Some("h".to_string()), &mut reg), Ok(()));
    assert_eq!(User::find_by_id(&"u2".to_string(), &reg).unwrap().password, "h");
    assert_eq!(User::find_by_id(&"u3".to_string(), &reg), Err(EventKind::SavingFailed));
    assert_eq!(User::find_by_number(&"n-u2".to_string(), &reg).unwrap().id, "u2");
    assert_eq!(User::find_by_number(&"nobody".to_string(), &reg), Err(EventKind::SavingFailed));

    let mut changed = user("u2", vec!["k2"], UserRole::Manager);
    changed.password = "h".to_string();
    assert_eq!(changed.update(None, &mut reg), Ok(()));
    let stored = User::find_by_id(&"u2".to_string(), &reg).unwrap();
    assert_eq!((stored.password.as_str(), stored.role), ("h", UserRole::Manager));
    let again = user("u2", vec!["k2"], UserRole::Manager);
    assert_eq!(again.update(Some("a new secret".to_string()), &mut reg), Ok(()));
    let stored = User::find_by_id(&"u2".to_string(), &reg).unwrap();
    assert!(password_matches(&"a new secret".to_string(), &stored.password));
    assert_eq!(user("ghost", Vec::new(), UserRole::Officer).update(None, &mut reg), Ok(()));
    assert_eq!(reg.user.len(), 2);
    user("u2", Vec::new(), UserRole::Officer).delete(&mut reg);
    assert_eq!(User::find_all(&reg).unwrap().len(), 1);
}

#[test]
fn users_of_a_cluster() {
    let mut reg = Registry::new();
    assert_eq!(User::find_all(&reg), Err(EventKind::NotFound));
    assert!(!User::super_admin_available(&reg));
    assert_eq!(User::find_many_by_cluster_id(&"k1".to_string(), &reg), Err(EventKind::NotFound));
    reg.put_user(user("boss", Vec::new(), UserRole::SuperAdmin));
    reg.put_user(user("u1", vec!["k1", "k2"], UserRole::Manager));
    reg.put_user(user("u2", vec!["k2"], UserRole::Officer));
    assert!(User::super_admin_available(&reg));
    let ids = |cluster: &str| -> Vec<String> {
        User::find_many_by_cluster_id(&cluster.to_string(), &reg)
            .unwrap()
            .into_iter()
            .map(|u| u.id.clone())
            .collect()
    };
    assert_eq!(ids("k1"), vec!["boss", "u1"]);
    assert_eq!(ids("k2"), vec!["boss", "u1", "u2"]);
    assert_eq!(ids("k3"), vec!["boss"]);
    let q = UserQuery { cluster_id: Some("k2".to_string()), cluster_eid: None, text: None, limit: Some(1), skip: Some(1) };
    let page = User::find_many_minimal(&q, &reg).unwrap();
    assert_eq!(page.len(), 1);
    assert_eq!(page[0].id, "u2");
    assert_eq!(page[0].cluster_id, vec!["k2".to_string()]);
    assert_eq!(page[0].role, UserRole::Officer);
    let none = UserQuery { cluster_id: Some("k9".to_string()), cluster_eid: None, text: None, limit: None, skip: None };
    assert_eq!(User::find_many_minimal(&none, &reg), Err(EventKind::NotFound));
}

#[test]
fn subscribers_by_token_and_user() {
    let mut reg = Registry::new();
    for (id, user, token) in [("s1", "u", "a"), ("s2", "v", "b"), ("s3", "u", "c")] {
        assert_eq!(subscriber(id, user, token).save(&mut reg), Ok(()));
    }
    assert_eq!(Subscriber::find_by_kind(&SubscriberKind::Apple("b".to_string()), &reg).unwrap().id, "s2");
    assert_eq!(Subscriber::find_by_kind(&SubscriberKind::Apple("z".to_string()), &reg), Err(EventKind::NotFound));
    let of_u: Vec<&str> = Subscriber::find_many_by_user_id(&"u".to_string(), &reg)
        .unwrap()
        .into_iter()
        .map(|s| s.id.as_str())
        .collect();
    assert_eq!(of_u, vec!["s1", "s3"]);
    assert_eq!(Subscriber::find_many_by_user_id(&"w".to_string(), &reg), Err(EventKind::NotFound));
    assert_eq!(subscriber("s1", "x", "y").update(&mut reg), Ok(()));
    assert_eq!(Subscriber::find_by_id(&"s1".to_string(), &reg).unwrap().user_id, "x");
    assert_eq!(subscriber("s9", "x", "y").update(&mut reg), Ok(()));
    assert_eq!(Subscriber::find_by_id(&"s9".to_string(), &reg), Err(EventKind::NotFound));
    assert_eq!(subscriber("s1", "", "").delete(&mut reg), Ok(()));
    assert_eq!(reg.subscriber.len(), 2);
}

#[test]
fn cluster_as_the_api_shows_it() {
    let shown = cluster("k1", vec!["f2", "f1"]).response();
    assert_eq!(shown.id, "k1");
    assert_eq!(shown.name, "cluster k1");
    assert_eq!(shown.uniform_id, vec!["f2".to_string(), "f1".to_string()]);
}
