use scm_fleet::device::{CameraAddress, ProcessorAddress};
use scm_fleet::error::EventKind;
use scm_fleet::evidence::{EvidencePerson, EvidencePersonViolation};
use scm_fleet::queries::{
    paginate, passes_text, tally, CameraQuery, ClusterQuery, ProcessorQuery, TextFilter,
    UserQuery, ViewCamera, ViewCluster, ViewProcessor, ViewUser,
};
use scm_fleet::registry::{
    Camera, Cluster, Evidence, EvidenceOwner, Processor, Registry, User, UserRole,
};
use scm_fleet::views::{ClusterRef, ProcessorRef};

fn person(violations: usize) -> EvidencePerson {
    EvidencePerson::new(
        "p".to_string(),
        Vec::new(),
        Vec::new(),
        vec![EvidencePersonViolation::MissingFacemask; violations],
    )
}

fn row(id: &str, cluster: &str, processor: &str, camera: &str, t: i64, persons: Vec<usize>) -> Evidence {
    Evidence {
        id: id.to_string(),
        cluster_id: cluster.to_string(),
        processor_id: processor.to_string(),
        camera_id: camera.to_string(),
        frame_id: "f".to_string(),
        timestamp: t,
        person: persons.into_iter().map(person).collect(),
    }
}

fn store() -> Registry {
    let mut reg = Registry::new();
    reg.put_cluster(Cluster { id: "k1".to_string(), uniform_id: Vec::new(), name: "Plant".to_string() });
    reg.put_cluster(Cluster { id: "k2".to_string(), uniform_id: Vec::new(), name: "Yard".to_string() });
    for (p, k) in [("p1", "k1"), ("p2", "k1"), ("p3", "k2")] {
        reg.put_processor(Processor {
            id: p.to_string(),
            cluster_id: k.to_string(),
            name: format!("proc {}", p),
            model: "m".to_string(),
            address: ProcessorAddress { host: [1, 1, 1, 1], port: 80 },
            version: 1,
        });
    }
    for (c, p, k) in [("c1", "p1", "k1"), ("c2", "p1", "k1"), ("c3", "p3", "k2"), ("c4", "lost", "gone")] {
        reg.put_camera(Camera {
            id: c.to_string(),
            cluster_id: k.to_string(),
            processor_id: p.to_string(),
            address: CameraAddress { host: [1, 1, 1, 2], port: 554, path: None, authentication: None },
            name: format!("cam {}", c),
        });
    }
    reg.put_evidence(row("e1", "k1", "p1", "c1", 10, vec![1, 0, 2]));
    reg.put_evidence(row("e2", "k1", "p1", "c1", 20, vec![1]));
    reg.put_evidence(row("e3", "k1", "p1", "c2", 30, vec![0]));
    reg.put_evidence(row("e4", "k2", "p3", "c3", 40, vec![3, 3, 3]));
    reg.put_user(User {
        id: "boss".to_string(),
        cluster_id: Vec::new(),
        number: "111".to_string(),
        name: "Super Admin".to_string(),
        password: "h".to_string(),
        role: UserRole::SuperAdmin,
    });
    reg.put_user(User {
        id: "u1".to_string(),
        cluster_id: vec!["k2".to_string(), "k9".to_string(), "k1".to_string()],
        number: "222".to_string(),
        name: "Ann".to_string(),
        password: "h".to_string(),
        role: UserRole::Manager,
    });
    reg.put_user(User {
        id: "u2".to_string(),
        cluster_id: vec!["k2".to_string()],
        number: "333".to_string(),
        name: "Ben".to_string(),
        password: "h".to_string(),
        role: UserRole::Officer,
    });
    reg
}

fn cameras(skip: Option<usize>, limit: Option<usize>) -> CameraQuery {
    CameraQuery {
        cluster_id: None,
        processor_id: None,
        date_minimum: None,
        date_maximum: None,
        text: None,
        limit,
        skip,
    }
}

fn processors() -> ProcessorQuery {
    ProcessorQuery {
        processor_id: None,
        cluster_id: None,
        date_minimum: None,
        date_maximum: None,
        text: None,
        limit: None,
        skip: None,
    }
}

#[test]
fn pages() {
    let v = vec![1, 2, 3, 4, 5];
    assert_eq!(paginate(v.clone(), None, None), vec![1, 2, 3, 4, 5]);
    assert_eq!(paginate(v.clone(), Some(2), None), vec![3, 4, 5]);
    assert_eq!(paginate(v.clone(), None, Some(2)), vec![1, 2]);
    assert_eq!(paginate(v.clone(), Some(1), Some(3)), vec![2, 3, 4]);
    assert_eq!(paginate(v.clone(), Some(4), Some(3)), vec![5]);
    assert_eq!(paginate(v.clone(), Some(5), Some(3)), Vec::<i32>::new());
    assert_eq!(paginate(v.clone(), Some(usize::MAX), Some(usize::MAX)), Vec::<i32>::new());
    assert_eq!(paginate(v.clone(), Some(0), Some(0)), Vec::<i32>::new());
    assert_eq!(paginate(Vec::<i32>::new(), Some(1), Some(1)), Vec::<i32>::new());
}

#[test]
fn counts_follow_owner_and_range() {
    let reg = store();
    assert_eq!(tally(&reg, EvidenceOwner::Camera, &"c1".to_string(), None, None), (2, 3));
    assert_eq!(tally(&reg, EvidenceOwner::Camera, &"c2".to_string(), None, None), (1, 0));
    assert_eq!(tally(&reg, EvidenceOwner::Processor, &"p1".to_string(), None, None), (3, 3));
    assert_eq!(tally(&reg, EvidenceOwner::Cluster, &"k2".to_string(), None, None), (1, 3));
    assert_eq!(tally(&reg, EvidenceOwner::Cluster, &"k1".to_string(), Some(20), None), (2, 1));
    assert_eq!(tally(&reg, EvidenceOwner::Cluster, &"k1".to_string(), Some(11), Some(19)), (0, 0));
    assert_eq!(tally(&reg, EvidenceOwner::Cluster, &"k1".to_string(), Some(10), Some(10)), (1, 2));
    assert_eq!(tally(&reg, EvidenceOwner::Cluster, &"k1".to_string(), None, Some(20)), (2, 3));
    assert_eq!(tally(&reg, EvidenceOwner::Camera, &"nope".to_string(), None, None), (0, 0));
}

#[test]
fn camera_list() {
    let reg = store();
    let all = ViewCamera::find_many(&cameras(None, None), &reg).unwrap();
    assert_eq!(all.len(), 4);
    assert_eq!(
        all[0],
        ViewCamera {
            id: "c1".to_string(),
            cluster: ClusterRef { id: "k1".to_string(), name: "Plant".to_string() },
            processor: ProcessorRef { id: "p1".to_string(), name: "proc p1".to_string() },
            address: CameraAddress { host: [1, 1, 1, 2], port: 554, path: None, authentication: None },
            name: "cam c1".to_string(),
            notification_count: 2,
            violation_count: 3,
        }
    );
    assert_eq!(all[3].cluster, ClusterRef { id: "gone".to_string(), name: "gone".to_string() });
    assert_eq!(all[3].processor, ProcessorRef { id: "lost".to_string(), name: "lost".to_string() });
    let page = ViewCamera::find_many(&cameras(Some(1), Some(2)), &reg).unwrap();
    assert_eq!(page.iter().map(|c| c.id.as_str()).collect::<Vec<_>>(), vec!["c2", "c3"]);
    assert_eq!(ViewCamera::find_many(&cameras(Some(4), None), &reg), Err(EventKind::NotFound));
    let mut q = cameras(None, None);
    q.processor_id = Some("p1".to_string());
    q.date_minimum = Some(15);
    let mine = ViewCamera::find_many(&q, &reg).unwrap();
    assert_eq!(mine.iter().map(|c| (c.id.as_str(), c.notification_count, c.violation_count)).collect::<Vec<_>>(), vec![("c1", 1, 1), ("c2", 1, 0)]);
    q.cluster_id = Some("k2".to_string());
    assert_eq!(ViewCamera::find_many(&q, &reg), Err(EventKind::NotFound));
}

#[test]
fn processor_list() {
    let reg = store();
    let all = ViewProcessor::find_many(&processors(), &reg).unwrap();
    assert_eq!(all.iter().map(|p| p.id.as_str()).collect::<Vec<_>>(), vec!["p1", "p2", "p3"]);
    assert_eq!(all[0].cluster, ClusterRef { id: "k1".to_string(), name: "Plant".to_string() });
    assert_eq!(all[0].camera.len(), 2);
    assert_eq!((all[0].notification_count, all[0].violation_count), (3, 3));
    assert!(all[1].camera.is_empty());
    assert_eq!((all[2].notification_count, all[2].violation_count), (1, 3));
    let mut q = processors();
    q.cluster_id = Some("k1".to_string());
    q.skip = Some(1);
    q.limit = Some(5);
    let page = ViewProcessor::find_many(&q, &reg).unwrap();
    assert_eq!(page.iter().map(|p| p.id.as_str()).collect::<Vec<_>>(), vec!["p2"]);
    q.skip = Some(2);
    assert_eq!(ViewProcessor::find_many(&q, &reg), Err(EventKind::NotFound));
    let mut one = processors();
    one.processor_id = Some("p3".to_string());
    let shown = ViewProcessor::find_one(&one, &reg).unwrap();
    assert_eq!(shown.name, "proc p3");
    assert_eq!(shown.camera.len(), 1);
    assert_eq!(shown.camera[0].id, "c3");
    one.processor_id = Some("p9".to_string());
    assert_eq!(ViewProcessor::find_one(&one, &reg), Err(EventKind::NotFound));
    assert_eq!(ViewProcessor::find_one(&processors(), &reg).unwrap().id, "p1");
}

#[test]
fn cluster_list() {
    let reg = store();
    let any = ClusterQuery { cluster_id: None, date_minimum: None, date_maximum: None, text: None };
    let all = ViewCluster::find_many(&any, &reg).unwrap();
    assert_eq!(
        all,
        vec![
            ViewCluster { id: "k1".to_string(), name: "Plant".to_string(), processor_count: 2, notification_count: 3, violation_count: 3 },
            ViewCluster { id: "k2".to_string(), name: "Yard".to_string(), processor_count: 1, notification_count: 1, violation_count: 3 },
        ]
    );
    let some = ClusterQuery { cluster_id: Some(vec!["k2".to_string(), "k7".to_string()]), date_minimum: Some(41), date_maximum: None, text: None };
    let picked = ViewCluster::find_many(&some, &reg).unwrap();
    assert_eq!(picked.len(), 1);
    assert_eq!((picked[0].id.as_str(), picked[0].notification_count), ("k2", 0));
    assert_eq!(ViewCluster::find_one(&some, &reg).unwrap().id, "k2");
    assert_eq!(ViewCluster::find_one(&any, &reg).unwrap().id, "k1");
    let none = ClusterQuery { cluster_id: Some(Vec::new()), date_minimum: None, date_maximum: None, text: None };
    assert_eq!(ViewCluster::find_many(&none, &reg), Err(EventKind::NotFound));
    assert_eq!(ViewCluster::find_one(&none, &reg), Err(EventKind::NotFound));
}

#[test]
fn user_list() {
    let reg = store();
    let q = |inside: Option<&str>, outside: Option<&str>| UserQuery {
        cluster_id: inside.map(|s| s.to_string()),
        cluster_eid: outside.map(|s| s.to_string()),
        text: None,
        limit: None,
        skip: None,
    };
    let ids = |query: &UserQuery| -> Vec<String> {
        match ViewUser::find_many(query, &reg) {
            Ok(v) => v.into_iter().map(|u| u.id).collect(),
            Err(e) => vec![e.to_string()],
        }
    };
    assert_eq!(ids(&q(None, None)), vec!["boss", "u1", "u2"]);
    assert_eq!(ids(&q(Some("k1"), None)), vec!["u1"]);
    assert_eq!(ids(&q(Some("k2"), None)), vec!["u1", "u2"]);
    assert_eq!(ids(&q(None, Some("k1"))), vec!["u2"]);
    assert_eq!(ids(&q(None, Some("k2"))), vec!["NotFound"]);
    assert_eq!(ids(&q(Some("k2"), Some("k1"))), vec!["u2"]);
    let mut paged = q(None, None);
    paged.skip = Some(1);
    paged.limit = Some(1);
    assert_eq!(ids(&paged), vec!["u1"]);
    let ann = ViewUser::from(reg.user.get(&"u1".to_string()).unwrap(), &reg);
    assert_eq!(
        ann.cluster,
        vec![
            ClusterRef { id: "k1".to_string(), name: "Plant".to_string() },
            ClusterRef { id: "k2".to_string(), name: "Yard".to_string() },
        ]
    );
    assert_eq!(ann.number, "222");
    assert_eq!(ann.role, UserRole::Manager);
}

fn named(pattern: &str, matched: Vec<&str>) -> Option<TextFilter> {
    Some(TextFilter {
        pattern: pattern.to_string(),
        matched: matched.into_iter().map(|s| s.to_string()).collect(),
    })
}

#[test]
fn name_filter_admits_the_matched_rows_only() {
    assert!(passes_text(&None, &"c1".to_string()));
    assert!(passes_text(&named("cam", vec!["c2", "c1"]), &"c1".to_string()));
    assert!(!passes_text(&named("cam", vec!["c2"]), &"c1".to_string()));
    assert!(!passes_text(&named("", Vec::new()), &"c1".to_string()));
}

#[test]
fn camera_list_by_name() {
    let reg = store();
    let ids = |q: &CameraQuery| -> Vec<String> {
        match ViewCamera::find_many(q, &reg) {
            Ok(v) => v.into_iter().map(|c| c.id).collect(),
            Err(e) => vec![e.to_string()],
        }
    };
    let mut q = cameras(None, None);
    q.text = named("C[34]", vec!["c4", "c3", "zz"]);
    assert_eq!(ids(&q), vec!["c3", "c4"]);
    q.cluster_id = Some("k2".to_string());
    assert_eq!(ids(&q), vec!["c3"]);
    q.cluster_id = None;
    q.skip = Some(1);
    assert_eq!(ids(&q), vec!["c4"]);
    q.text = named("nothing", Vec::new());
    q.skip = None;
    assert_eq!(ids(&q), vec!["NotFound"]);
}

#[test]
fn processor_list_by_name() {
    let reg = store();
    let mut q = processors();
    q.text = named("proc p[23]", vec!["p2", "p3"]);
    let found = ViewProcessor::find_many(&q, &reg).unwrap();
    let ids: Vec<&str> = found.iter().map(|p| p.id.as_str()).collect();
    assert_eq!(ids, vec!["p2", "p3"]);
    assert_eq!(found[1].camera.len(), 1);
    assert_eq!(ViewProcessor::find_one(&q, &reg).unwrap().id, "p2");
    q.cluster_id = Some("k2".to_string());
    assert_eq!(ViewProcessor::find_one(&q, &reg).unwrap().id, "p3");
    q.text = named("x", Vec::new());
    assert_eq!(ViewProcessor::find_many(&q, &reg), Err(EventKind::NotFound));
}

#[test]
fn cluster_list_by_name() {
    let reg = store();
    let q = ClusterQuery { cluster_id: None, date_minimum: None, date_maximum: None, text: named("yard", vec!["k2"]) };
    let found = ViewCluster::find_many(&q, &reg).unwrap();
    assert_eq!(found.len(), 1);
    assert_eq!(found[0].name, "Yard");
    let both = ClusterQuery { cluster_id: Some(vec!["k1".to_string()]), date_minimum: None, date_maximum: None, text: named("yard", vec!["k2"]) };
    assert_eq!(ViewCluster::find_many(&both, &reg), Err(EventKind::NotFound));
    assert_eq!(ViewCluster::find_one(&both, &reg), Err(EventKind::NotFound));
}

#[test]
fn user_list_by_name() {
    let reg = store();
    let q = UserQuery { cluster_id: Some("k2".to_string()), cluster_eid: None, text: named("^b", vec!["u2", "boss"]), limit: None, skip: None };
    let found = ViewUser::find_many(&q, &reg).unwrap();
    assert_eq!(found.len(), 1);
    assert_eq!(found[0].name, "Ben");
    let all = UserQuery { cluster_id: None, cluster_eid: None, text: named("^b", vec!["u2", "boss"]), limit: None, skip: None };
    let ids: Vec<String> = ViewUser::find_many(&all, &reg).unwrap().into_iter().map(|u| u.id).collect();
    assert_eq!(ids, vec!["boss", "u2"]);
}
