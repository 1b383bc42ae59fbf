use scm_fleet::device::{CameraAddress, ProcessorAddress};
use scm_fleet::evidence::{EvidencePerson, EvidencePersonViolation};
use scm_fleet::hub::{CentralWebSocketResponse, Hub};
use scm_fleet::liveness::LivenessMap;
use scm_fleet::registry::{
    Camera, CameraRequest, Cluster, Evidence, Processor, Registry, Uniform, UniformAttribute,
};
use scm_fleet::server::sync_processor;
use scm_fleet::sync::{
    reconcile, view_processor, ProcessorRequest, ProcessorSynchronization, SyncReply,
};

fn address() -> CameraAddress {
    CameraAddress { host: [10, 0, 0, 9], port: 554, path: None, authentication: None }
}

fn stored_camera(id: &str, processor: &str) -> Camera {
    Camera {
        id: id.to_string(),
        cluster_id: "k1".to_string(),
        processor_id: processor.to_string(),
        address: address(),
        name: format!("old {}", id),
    }
}

fn reported_camera(id: &str) -> CameraRequest {
    CameraRequest { id: id.to_string(), address: address(), name: format!("new {}", id) }
}

fn row(id: &str, processor: &str, camera: &str) -> Evidence {
    Evidence {
        id: id.to_string(),
        cluster_id: "k1".to_string(),
        processor_id: processor.to_string(),
        camera_id: camera.to_string(),
        frame_id: "f".to_string(),
        timestamp: 7,
        person: vec![EvidencePerson::new(
            "p".to_string(),
            Vec::new(),
            Vec::new(),
            vec![EvidencePersonViolation::MissingHardhat],
        )],
    }
}

fn store() -> Registry {
    let mut reg = Registry::new();
    reg.put_uniform(Uniform {
        id: "u1".to_string(),
        name: "line-worker".to_string(),
        attribute: vec![UniformAttribute::HardHat, UniformAttribute::SafetyVest],
    });
    reg.put_cluster(Cluster {
        id: "k1".to_string(),
        uniform_id: vec!["u1".to_string(), "gone".to_string()],
        name: "plant".to_string(),
    });
    reg.put_cluster(Cluster { id: "k2".to_string(), uniform_id: Vec::new(), name: "yard".to_string() });
    reg.put_processor(Processor {
        id: "p1".to_string(),
        cluster_id: "k1".to_string(),
        name: "old name".to_string(),
        model: "old model".to_string(),
        address: ProcessorAddress { host: [10, 0, 0, 1], port: 8000 },
        version: 1900,
    });
    reg.put_camera(stored_camera("c1", "p1"));
    reg.put_camera(stored_camera("c3", "p1"));
    reg.put_camera(stored_camera("x9", "other"));
    reg.put_evidence(row("e1", "p1", "c1"));
    reg.put_evidence(row("e3", "p1", "c3"));
    reg.put_evidence(row("e9", "other", "x9"));
    reg
}

fn submission(version: i64, cameras: Vec<&str>) -> ProcessorSynchronization {
    ProcessorSynchronization {
        processor: ProcessorRequest {
            id: "p1".to_string(),
            name: "edge name".to_string(),
            model: "yolov8n.hef".to_string(),
            address: ProcessorAddress { host: [192, 168, 1, 5], port: 8000 },
            version,
        },
        camera: cameras.into_iter().map(reported_camera).collect(),
    }
}

fn roster(reg: &Registry, processor: &str) -> Vec<String> {
    let mut ids: Vec<String> = view_processor(reg, &processor.to_string())
        .unwrap()
        .camera
        .into_iter()
        .map(|c| c.id)
        .collect();
    ids.sort();
    ids
}

#[test]
fn version_reconciliation_scenario() {
    let mut reg = store();
    let mut live = LivenessMap::new();
    let payload = submission(2000, vec!["c1", "c2"]);
    let reply = reconcile(&mut reg, &mut live, &"k1".to_string(), &payload, 50);
    assert_eq!(reply.status_code(), 200);
    let data = match reply {
        SyncReply::Accepted(data) => data,
        other => panic!("unexpected reply {:?}", other),
    };
    assert_eq!(roster(&reg, "p1"), vec!["c1".to_string(), "c2".to_string()]);
    assert!(reg.camera.get(&"c3".to_string()).is_none());
    assert!(reg.evidence.get(&"e3".to_string()).is_none());
    assert!(reg.evidence.get(&"e1".to_string()).is_some());
    assert!(reg.evidence.get(&"e9".to_string()).is_some());
    assert_eq!(reg.processor.get(&"p1".to_string()).unwrap().version, 2000);
    assert_eq!(data.processor.version, 2000);
    assert_eq!(data.processor.name, "edge name");
    assert_eq!(data.processor.cluster_id, "k1");
    assert_eq!(data.uniform.len(), 1);
    assert_eq!(data.uniform[0].name, "line-worker");
    assert_eq!(
        data.uniform[0].attribute,
        vec![UniformAttribute::HardHat, UniformAttribute::SafetyVest]
    );
    assert_eq!(live.expiry(&"p1".to_string()), Some(30_050));

    let again = reconcile(&mut reg, &mut live, &"k1".to_string(), &payload, 60);
    assert_eq!(again, SyncReply::Unchanged);
    assert_eq!(again.status_code(), 204);
    assert_eq!(live.expiry(&"p1".to_string()), Some(30_060));
}

#[test]
fn accepted_sync_takes_name_and_address_from_the_edge() {
    let mut reg = store();
    let mut live = LivenessMap::new();
    let payload = submission(2000, vec!["c1"]);
    let _ = reconcile(&mut reg, &mut live, &"k1".to_string(), &payload, 0);
    let c1 = reg.camera.get(&"c1".to_string()).unwrap();
    assert_eq!(c1.name, "new c1");
    assert_eq!(c1.processor_id, "p1");
    assert_eq!(c1.cluster_id, "k1");
    let p = reg.processor.get(&"p1".to_string()).unwrap();
    assert_eq!(p.address, ProcessorAddress { host: [192, 168, 1, 5], port: 8000 });
    assert_eq!(p.model, "yolov8n.hef");
}

#[test]
fn cameras_of_other_processors_are_left_alone() {
    let mut reg = store();
    let mut live = LivenessMap::new();
    let payload = submission(2000, Vec::new());
    let _ = reconcile(&mut reg, &mut live, &"k1".to_string(), &payload, 0);
    assert!(roster(&reg, "p1").is_empty());
    assert_eq!(reg.camera.get(&"x9".to_string()), Some(&stored_camera("x9", "other")));
    assert!(reg.evidence.get(&"e1".to_string()).is_none());
    assert!(reg.evidence.get(&"e9".to_string()).is_some());
}

#[test]
fn equal_version_only_refreshes_the_lease() {
    let mut reg = store();
    let mut live = LivenessMap::new();
    let payload = submission(1900, vec!["c7"]);
    let reply = reconcile(&mut reg, &mut live, &"k1".to_string(), &payload, 1_000);
    assert_eq!(reply, SyncReply::Unchanged);
    assert_eq!(roster(&reg, "p1"), vec!["c1".to_string(), "c3".to_string()]);
    assert_eq!(reg.processor.get(&"p1".to_string()).unwrap().name, "old name");
    assert_eq!(reg.evidence.len(), 3);
    assert_eq!(live.expiry(&"p1".to_string()), Some(31_000));
}

#[test]
fn stale_submission_gets_the_stored_view() {
    let mut reg = store();
    let mut live = LivenessMap::new();
    let payload = submission(1800, vec!["c7"]);
    let reply = reconcile(&mut reg, &mut live, &"k1".to_string(), &payload, 1_000);
    assert_eq!(reply.status_code(), 200);
    match reply {
        SyncReply::Stale(data) => {
            assert_eq!(data.processor.version, 1900);
            assert_eq!(data.processor.name, "old name");
            assert_eq!(data.camera.len(), 2);
            assert_eq!(data.uniform.len(), 1);
        }
        other => panic!("unexpected reply {:?}", other),
    }
    assert_eq!(roster(&reg, "p1"), vec!["c1".to_string(), "c3".to_string()]);
    assert_eq!(reg.processor.get(&"p1".to_string()).unwrap().version, 1900);
    assert_eq!(live.expiry(&"p1".to_string()), Some(31_000));
}

#[test]
fn unknown_cluster_changes_nothing() {
    let mut reg = store();
    let mut live = LivenessMap::new();
    let payload = submission(2000, vec!["c2"]);
    let reply = reconcile(&mut reg, &mut live, &"nowhere".to_string(), &payload, 5);
    assert_eq!(reply, SyncReply::UnknownCluster);
    assert_eq!(reply.status_code(), 404);
    assert_eq!(live.len(), 0);
    assert_eq!(reg.processor.get(&"p1".to_string()).unwrap().version, 1900);
}

#[test]
fn new_processor_inherits_the_callers_cluster() {
    let mut reg = store();
    let mut live = LivenessMap::new();
    let mut payload = submission(5, vec!["n1"]);
    payload.processor.id = "fresh".to_string();
    let reply = reconcile(&mut reg, &mut live, &"k2".to_string(), &payload, 5);
    match reply {
        SyncReply::Accepted(data) => {
            assert_eq!(data.processor.cluster_id, "k2");
            assert_eq!(data.camera.len(), 1);
            assert!(data.uniform.is_empty());
        }
        other => panic!("unexpected reply {:?}", other),
    }
    assert_eq!(reg.camera.get(&"n1".to_string()).unwrap().cluster_id, "k2");
    assert_eq!(roster(&reg, "p1"), vec!["c1".to_string(), "c3".to_string()]);
}

#[test]
fn server_assigned_cluster_survives_a_sync_from_elsewhere() {
    let mut reg = store();
    let mut live = LivenessMap::new();
    let payload = submission(2000, vec!["c1"]);
    let _ = reconcile(&mut reg, &mut live, &"k2".to_string(), &payload, 5);
    assert_eq!(reg.processor.get(&"p1".to_string()).unwrap().cluster_id, "k1");
    assert_eq!(reg.camera.get(&"c1".to_string()).unwrap().cluster_id, "k1");
}

#[test]
fn repeated_camera_in_the_inventory_is_stored_once() {
    let mut reg = store();
    let mut live = LivenessMap::new();
    let mut payload = submission(2000, vec!["c1", "c1"]);
    payload.camera[1].name = "last wins".to_string();
    let _ = reconcile(&mut reg, &mut live, &"k1".to_string(), &payload, 5);
    assert_eq!(roster(&reg, "p1"), vec!["c1".to_string()]);
    assert_eq!(reg.camera.get(&"c1".to_string()).unwrap().name, "last wins");
}

#[test]
fn accepted_sync_announces_the_presence_map() {
    let mut reg = store();
    let mut live = LivenessMap::new();
    let mut hub = Hub::new(4);
    hub.connect("s1".to_string(), "u1".to_string(), CentralWebSocketResponse::Processor(Vec::new()));
    let payload = submission(2000, vec!["c1"]);
    let reply = sync_processor(&mut reg, &mut live, &mut hub, &"k1".to_string(), &payload, 100);
    assert_eq!(reply.status_code(), 200);
    let sent = hub.drain(&"s1".to_string());
    assert_eq!(sent.len(), 2);
    match &sent[1] {
        CentralWebSocketResponse::Processor(map) => {
            assert_eq!(map, &vec![("p1".to_string(), 30_100)])
        }
        other => panic!("unexpected message {:?}", other),
    }
    let reply = sync_processor(&mut reg, &mut live, &mut hub, &"k1".to_string(), &payload, 200);
    assert_eq!(reply, SyncReply::Unchanged);
    assert!(hub.drain(&"s1".to_string()).is_empty());
}

#[test]
fn sync_at_the_wall_clock() {
    let mut reg = store();
    let mut live = LivenessMap::new();
    let mut hub = Hub::new(4);
    let payload = submission(2000, vec!["c1", "c2"]);
    let reply = scm_fleet::server::sync_now(&mut reg, &mut live, &mut hub, &"k1".to_string(), &payload)
        .unwrap();
    assert_eq!(reply.status_code(), 200);
    assert_eq!(roster(&reg, "p1"), vec!["c1".to_string(), "c2".to_string()]);
    let expiry = live.expiry(&"p1".to_string()).unwrap();
    assert!(expiry > 1_600_000_000_000 + 30_000);
    let again = scm_fleet::server::sync_now(&mut reg, &mut live, &mut hub, &"k1".to_string(), &payload);
    assert_eq!(again, Some(SyncReply::Unchanged));
    assert!(live.expiry(&"p1".to_string()).unwrap() >= expiry);
    let nowhere = scm_fleet::server::sync_now(&mut reg, &mut live, &mut hub, &"zz".to_string(), &payload);
    assert_eq!(nowhere, Some(SyncReply::UnknownCluster));
}
