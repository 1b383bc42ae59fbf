use scm_fleet::device::{
    pick_host, Camera, CameraAddress, Device, Interface, Processor, ProcessorAddress,
    ProcessorWebhook, ProcessorWebhookHost, ProcessorWebhookPath, WriteOutcome,
};

fn webhook(host: ProcessorWebhookHost, port: Option<u16>, secure: bool) -> ProcessorWebhook {
    ProcessorWebhook {
        host,
        port,
        secure,
        path: ProcessorWebhookPath {
            evidence: "/evidences/p1".to_string(),
            update: "processors/k1".to_string(),
        },
    }
}

fn camera(id: &str, name: &str) -> Camera {
    Camera {
        id: id.to_string(),
        address: CameraAddress {
            host: [10, 1, 1, 2],
            port: 554,
            path: Some("/stream".to_string()),
            authentication: Some(("admin".to_string(), "secret".to_string())),
        },
        name: name.to_string(),
    }
}

fn device(version: i64) -> Device {
    Device::new(Processor::initial("p1".to_string(), [10, 0, 0, 7], version))
}

#[test]
fn host_is_rendered_for_urls() {
    assert_eq!(ProcessorWebhookHost::Domain("scm.example.org".to_string()).to_string(), "scm.example.org");
    assert_eq!(ProcessorWebhookHost::IPv4([192, 168, 1, 10]).to_string(), "192.168.1.10");
    assert_eq!(ProcessorWebhookHost::IPv4([0, 0, 0, 0]).to_string(), "0.0.0.0");
    assert_eq!(ProcessorWebhookHost::IPv4([255, 255, 255, 255]).to_string(), "255.255.255.255");
    assert_eq!(ProcessorWebhookHost::IPv4([127, 0, 0, 1]).to_string(), "127.0.0.1");
}

#[test]
fn webhook_urls() {
    let w = webhook(ProcessorWebhookHost::IPv4([10, 0, 0, 1]), Some(8080), false);
    assert_eq!(w.evidence_url(), "http://10.0.0.1:8080/evidences/p1");
    assert_eq!(w.update_url(), "http://10.0.0.1:8080/processors/k1");
    let s = webhook(ProcessorWebhookHost::Domain("scm.example.org".to_string()), None, true);
    assert_eq!(s.evidence_url(), "https://scm.example.org/evidences/p1");
    let mut slashes = webhook(ProcessorWebhookHost::Domain("h".to_string()), Some(65535), true);
    slashes.path.evidence = "///a//b/".to_string();
    slashes.path.update = "".to_string();
    assert_eq!(slashes.evidence_url(), "https://h:65535/a//b/");
    assert_eq!(slashes.update_url(), "https://h:65535/");
}

#[test]
fn default_descriptor() {
    let p = Processor::initial("abc".to_string(), [10, 0, 0, 7], 1234);
    assert_eq!(p.id, "abc");
    assert_eq!(p.name, "abc");
    assert_eq!(p.model, "yolov8n.hef");
    assert_eq!(p.address, ProcessorAddress { host: [10, 0, 0, 7], port: 8000 });
    assert_eq!(p.webhook, None);
    assert_eq!(p.version, 1234);
    assert_eq!(p.duplicate(), p);
}

#[test]
fn default_host_is_the_last_usable_interface() {
    let lo = Interface { loopback: true, v4: Some([127, 0, 0, 1]) };
    let v6 = Interface { loopback: false, v4: None };
    let a = Interface { loopback: false, v4: Some([10, 0, 0, 7]) };
    let b = Interface { loopback: false, v4: Some([192, 168, 0, 3]) };
    assert_eq!(pick_host(&Vec::new()), [127, 0, 0, 0]);
    assert_eq!(pick_host(&vec![lo, v6]), [127, 0, 0, 0]);
    assert_eq!(pick_host(&vec![lo, a, v6]), [10, 0, 0, 7]);
    assert_eq!(pick_host(&vec![a, b, lo]), [192, 168, 0, 3]);
}

#[test]
fn version_moves_forward_whatever_the_clock_says() {
    let mut p = Processor::initial("abc".to_string(), [1, 1, 1, 1], 1_000);
    p.bump_version(5_000);
    assert_eq!(p.version, 5_000);
    p.bump_version(5_000);
    assert_eq!(p.version, 5_001);
    p.bump_version(10);
    assert_eq!(p.version, 5_002);
    p.bump_version(5_003);
    assert_eq!(p.version, 5_003);
    assert_eq!(p.name, "abc");
}

#[test]
fn wall_clock_edit_moves_the_version_forward() {
    let mut p = Processor::initial("abc".to_string(), [1, 1, 1, 1], 0);
    p.update_version();
    let first = p.version;
    assert!(first > 1_600_000_000_000);
    p.update_version();
    assert!(p.version > first);
    let mut ahead = Processor::initial("abc".to_string(), [1, 1, 1, 1], i64::MAX - 5);
    ahead.update_version();
    assert_eq!(ahead.version, i64::MAX - 4);
}

#[test]
fn every_write_bumps_the_version() {
    let mut d = device(100);
    assert_eq!(d.create_camera(camera("ignored", "Dock"), "c1".to_string(), 200), WriteOutcome::Applied);
    assert_eq!(d.processor.version, 200);
    assert_eq!(d.camera.get(&"c1".to_string()), Some(&camera("c1", "Dock")));
    assert_eq!(d.update_camera(camera("c1", "Dock east"), 200), WriteOutcome::Applied);
    assert_eq!(d.processor.version, 201);
    assert_eq!(d.camera.get(&"c1".to_string()).unwrap().name, "Dock east");
    assert_eq!(d.delete_camera(&"c1".to_string(), 150), WriteOutcome::Applied);
    assert_eq!(d.processor.version, 202);
    assert!(d.cameras().is_empty());
    let mut edited = Processor::initial("p1".to_string(), [10, 0, 0, 8], 1);
    edited.name = "Line 3".to_string();
    d.update_processor(edited, 300);
    assert_eq!(d.processor.version, 300);
    assert_eq!(d.processor.name, "Line 3");
    assert_eq!(d.processor.address.host, [10, 0, 0, 8]);
}

#[test]
fn refused_writes_change_nothing() {
    let mut d = device(100);
    d.load_camera(camera("c1", "Dock"));
    assert_eq!(d.processor.version, 100);
    assert_eq!(d.create_camera(camera("x", "Other"), "c1".to_string(), 200), WriteOutcome::Conflict);
    assert_eq!(d.update_camera(camera("c9", "Other"), 200), WriteOutcome::NotFound);
    assert_eq!(d.delete_camera(&"c9".to_string(), 200), WriteOutcome::NotFound);
    assert_eq!(d.processor.version, 100);
    assert_eq!(d.cameras(), vec![camera("c1", "Dock")]);
}

#[test]
fn operator_edit_cannot_move_the_version_back() {
    let mut d = device(1_000);
    let stale = Processor::initial("p1".to_string(), [10, 0, 0, 8], 5);
    d.update_processor(stale, 900);
    assert_eq!(d.processor.version, 1_001);
}

#[test]
fn writes_at_the_wall_clock() {
    let mut d = device(100);
    let (outcome, id) = d.create_camera_now(camera("ignored", "Dock")).unwrap();
    assert_eq!(outcome, WriteOutcome::Applied);
    assert_eq!(id.len(), 36);
    assert_eq!(d.camera.get(&id), Some(&camera(&id, "Dock")));
    let v1 = d.processor.version;
    assert!(v1 > 1_600_000_000_000);
    assert_eq!(d.update_camera_now(camera(&id, "Dock east")), Some(WriteOutcome::Applied));
    let v2 = d.processor.version;
    assert!(v2 > v1);
    assert_eq!(d.update_camera_now(camera("nope", "x")), Some(WriteOutcome::NotFound));
    assert_eq!(d.delete_camera_now(&"nope".to_string()), Some(WriteOutcome::NotFound));
    assert_eq!(d.processor.version, v2);
    assert_eq!(d.delete_camera_now(&id), Some(WriteOutcome::Applied));
    let v3 = d.processor.version;
    assert!(v3 > v2);
    assert!(d.update_processor_now(Processor::initial("p1".to_string(), [9, 9, 9, 9], 0)));
    assert!(d.processor.version > v3);
    assert_eq!(d.processor.address.host, [9, 9, 9, 9]);
}

#[test]
fn exhausted_version_refuses_every_write() {
    let mut d = device(i64::MAX - 1);
    assert_eq!(d.create_camera_now(camera("x", "Dock")), None);
    assert_eq!(d.update_camera_now(camera("x", "Dock")), None);
    assert_eq!(d.delete_camera_now(&"x".to_string()), None);
    assert!(!d.update_processor_now(Processor::initial("p1".to_string(), [9, 9, 9, 9], 0)));
    assert_eq!(d.processor.version, i64::MAX - 1);
    assert_eq!(d.processor.address.host, [10, 0, 0, 7]);
}
