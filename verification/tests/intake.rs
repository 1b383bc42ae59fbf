use scm_fleet::device::{CameraAddress, ProcessorAddress};
use scm_fleet::error::EventKind;
use scm_fleet::evidence::{EvidencePerson, EvidencePersonViolation};
use scm_fleet::hub::{CentralWebSocketResponse, Hub};
use scm_fleet::intake::{
    accept_upload, conclude, image_not_saved, stored_image_path, EvidenceRequest,
};
use scm_fleet::registry::{Camera, Cluster, Evidence, Processor, Registry};
use scm_fleet::views::{EvidenceQuery, ViewEvidence};

fn store() -> Registry {
    let mut reg = Registry::new();
    reg.put_cluster(Cluster { id: "k1".to_string(), uniform_id: Vec::new(), name: "Plant".to_string() });
    reg.put_processor(Processor {
        id: "p1".to_string(),
        cluster_id: "k1".to_string(),
        name: "Gate 4".to_string(),
        model: "m".to_string(),
        address: ProcessorAddress { host: [1, 2, 3, 4], port: 1 },
        version: 1,
    });
    reg.put_camera(Camera {
        id: "c1".to_string(),
        cluster_id: "k1".to_string(),
        processor_id: "p1".to_string(),
        address: CameraAddress { host: [1, 2, 3, 5], port: 554, path: None, authentication: None },
        name: "Dock".to_string(),
    });
    reg
}

fn request(camera: &str, timestamp: i64) -> EvidenceRequest {
    EvidenceRequest {
        camera_id: camera.to_string(),
        frame_id: "f1".to_string(),
        timestamp,
        person: vec![EvidencePerson::new(
            "p".to_string(),
            Vec::new(),
            Vec::new(),
            vec![EvidencePersonViolation::MissingShoes],
        )],
    }
}

fn accepted(reg: &Registry, id: &str, camera: &str, timestamp: i64) -> Evidence {
    accept_upload(
        reg,
        &"p1".to_string(),
        &Some(vec![0xffu8, 0xd8]),
        Some(request(camera, timestamp)),
        id.to_string(),
    )
    .unwrap()
}

#[test]
fn upload_becomes_a_record_in_the_processors_cluster() {
    let reg = store();
    let record = accepted(&reg, "e1", "c1", 42);
    assert_eq!(record.id, "e1");
    assert_eq!(record.cluster_id, "k1");
    assert_eq!(record.processor_id, "p1");
    assert_eq!(record.camera_id, "c1");
    assert_eq!(record.frame_id, "f1");
    assert_eq!(record.timestamp, 42);
    assert_eq!(record.person.len(), 1);
    assert_eq!(stored_image_path(&record.id), "./evidence/e1.jpg");
}

#[test]
fn refusals_have_stable_codes() {
    let reg = store();
    let image = Some(vec![1u8]);
    let unknown = accept_upload(&reg, &"nope".to_string(), &None, None, "e".to_string()).unwrap_err();
    assert_eq!((unknown.status, unknown.body.as_str()), (404, "NotFound"));
    let no_image = accept_upload(&reg, &"p1".to_string(), &None, Some(request("c1", 1)), "e".to_string()).unwrap_err();
    assert_eq!((no_image.status, no_image.body.as_str()), (400, "MISSING_IMAGE"));
    let empty = accept_upload(&reg, &"p1".to_string(), &Some(Vec::new()), Some(request("c1", 1)), "e".to_string()).unwrap_err();
    assert_eq!((empty.status, empty.body.as_str()), (400, "MISSING_IMAGE"));
    let both = accept_upload(&reg, &"p1".to_string(), &None, None, "e".to_string()).unwrap_err();
    assert_eq!((both.status, both.body.as_str()), (400, "MISSING_IMAGE"));
    let no_data = accept_upload(&reg, &"p1".to_string(), &image, None, "e".to_string()).unwrap_err();
    assert_eq!((no_data.status, no_data.body.as_str()), (400, "MISSING_DATA"));
    let failed = image_not_saved();
    assert_eq!((failed.status, failed.body.as_str()), (500, "FAILED_TO_SAVE_IMAGE"));
}

#[test]
fn persisted_record_is_stored_announced_and_queued() {
    let mut reg = store();
    let mut hub = Hub::new(4);
    let mut queue: Vec<Evidence> = Vec::new();
    hub.connect("s1".to_string(), "u1".to_string(), CentralWebSocketResponse::Processor(Vec::new()));
    let record = accepted(&reg, "e1", "c1", 42);
    let end = conclude(&mut reg, &mut hub, &mut queue, record, Ok(()));
    assert_eq!(end.reply.status, 201);
    assert_eq!(end.reply.body, "");
    assert!(!end.remove_image);
    assert!(end.dropped.is_empty());
    assert_eq!(reg.evidence.get(&"e1".to_string()).unwrap().timestamp, 42);
    assert_eq!(queue.len(), 1);
    assert_eq!(queue[0].id, "e1");
    let sent = hub.drain(&"s1".to_string());
    assert_eq!(sent.len(), 2);
    match &sent[1] {
        CentralWebSocketResponse::Evidence(shown) => {
            assert_eq!(shown.id, "e1");
            assert_eq!((shown.cluster.id.as_str(), shown.cluster.name.as_str()), ("k1", "Plant"));
            assert_eq!((shown.processor.id.as_str(), shown.processor.name.as_str()), ("p1", "Gate 4"));
            assert_eq!((shown.camera.id.as_str(), shown.camera.name.as_str()), ("c1", "Dock"));
            assert_eq!(shown.timestamp, 42);
            assert_eq!(shown.person.len(), 1);
        }
        other => panic!("unexpected message {:?}", other),
    }
}

#[test]
fn failed_persistence_rolls_the_image_back() {
    let mut reg = store();
    let mut hub = Hub::new(4);
    let mut queue: Vec<Evidence> = Vec::new();
    hub.connect("s1".to_string(), "u1".to_string(), CentralWebSocketResponse::Processor(Vec::new()));
    let record = accepted(&reg, "e1", "c1", 42);
    let end = conclude(&mut reg, &mut hub, &mut queue, record, Err(EventKind::SavingFailed));
    assert_eq!((end.reply.status, end.reply.body.as_str()), (400, "SavingFailed"));
    assert!(end.remove_image);
    assert_eq!(reg.evidence.len(), 0);
    assert!(queue.is_empty());
    assert_eq!(hub.drain(&"s1".to_string()).len(), 1);
}

#[test]
fn same_identifier_twice_leaves_one_row() {
    let mut reg = store();
    let mut hub = Hub::new(4);
    let mut queue: Vec<Evidence> = Vec::new();
    let first = accepted(&reg, "e1", "c1", 42);
    let _ = conclude(&mut reg, &mut hub, &mut queue, first, Ok(()));
    let again = accepted(&reg, "e1", "c1", 42);
    let end = conclude(&mut reg, &mut hub, &mut queue, again, Ok(()));
    assert_eq!(end.reply.status, 201);
    assert_eq!(reg.evidence.len(), 1);
    assert_eq!(reg.evidence.get(&"e1".to_string()).unwrap().timestamp, 42);
}

#[test]
fn names_fall_back_to_identifiers() {
    let reg = store();
    let record = Evidence {
        id: "e7".to_string(),
        cluster_id: "k-gone".to_string(),
        processor_id: "p-gone".to_string(),
        camera_id: "c-gone".to_string(),
        frame_id: "f".to_string(),
        timestamp: 3,
        person: Vec::new(),
    };
    let shown = ViewEvidence::from(record, &reg);
    assert_eq!((shown.cluster.id.as_str(), shown.cluster.name.as_str()), ("k-gone", "k-gone"));
    assert_eq!((shown.processor.id.as_str(), shown.processor.name.as_str()), ("p-gone", "p-gone"));
    assert_eq!((shown.camera.id.as_str(), shown.camera.name.as_str()), ("c-gone", "c-gone"));
    let copy = shown.duplicate();
    assert_eq!(copy.id, "e7");
    assert_eq!(copy.camera, shown.camera);
}

#[test]
fn evidence_list_is_filtered_by_the_query() {
    let mut reg = store();
    let mut hub = Hub::new(4);
    let mut queue: Vec<Evidence> = Vec::new();
    for (id, camera, t) in [("e1", "c1", 10), ("e2", "c2", 20), ("e3", "c1", 30)] {
        let record = accepted(&reg, id, camera, t);
        let _ = conclude(&mut reg, &mut hub, &mut queue, record, Ok(()));
    }
    let ids = |q: &EvidenceQuery| -> Vec<String> {
        match ViewEvidence::find_many(q, &reg) {
            Ok(rows) => rows.into_iter().map(|r| r.id).collect(),
            Err(e) => vec![e.to_string()],
        }
    };
    assert_eq!(ids(&EvidenceQuery::any()), vec!["e1", "e2", "e3"]);
    let mut by_camera = EvidenceQuery::any();
    by_camera.camera_id = Some("c1".to_string());
    assert_eq!(ids(&by_camera), vec!["e1", "e3"]);
    by_camera.date_minimum = Some(11);
    assert_eq!(ids(&by_camera), vec!["e3"]);
    by_camera.date_maximum = Some(29);
    assert_eq!(ids(&by_camera), vec!["NotFound"]);
    let mut range = EvidenceQuery::any();
    range.date_minimum = Some(10);
    range.date_maximum = Some(20);
    assert_eq!(ids(&range), vec!["e1", "e2"]);
    let mut by_processor = EvidenceQuery::any();
    by_processor.processor_id = Some("p2".to_string());
    assert_eq!(ids(&by_processor), vec!["NotFound"]);
    by_processor.processor_id = Some("p1".to_string());
    by_processor.cluster_id = Some("k1".to_string());
    assert_eq!(ids(&by_processor).len(), 3);
}

#[test]
fn uploads_get_fresh_identifiers() {
    let reg = store();
    let image = Some(vec![1u8]);
    let a = scm_fleet::intake::accept_upload_fresh(&reg, &"p1".to_string(), &image, Some(request("c1", 1))).unwrap();
    let b = scm_fleet::intake::accept_upload_fresh(&reg, &"p1".to_string(), &image, Some(request("c1", 1))).unwrap();
    assert_eq!(a.id.len(), 36);
    assert_ne!(a.id, b.id);
    assert_eq!(a.cluster_id, "k1");
    assert_eq!(a.timestamp, 1);
    let refused = scm_fleet::intake::accept_upload_fresh(&reg, &"p1".to_string(), &None, Some(request("c1", 1))).unwrap_err();
    assert_eq!((refused.status, refused.body.as_str()), (400, "MISSING_IMAGE"));
}

#[test]
fn one_record_by_identifier() {
    let mut reg = store();
    let mut hub = Hub::new(4);
    let mut queue: Vec<Evidence> = Vec::new();
    let record = accepted(&reg, "e1", "c1", 42);
    let _ = conclude(&mut reg, &mut hub, &mut queue, record, Ok(()));
    let shown = ViewEvidence::find_by_id(&"e1".to_string(), &reg).unwrap();
    assert_eq!(shown.camera.name, "Dock");
    assert_eq!(shown.timestamp, 42);
    assert!(ViewEvidence::find_by_id(&"e2".to_string(), &reg).is_err());
}
