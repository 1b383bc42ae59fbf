use scm_fleet::device::status_is_success;
use scm_fleet::shipper::{
    image_path, is_pending, json_path, pending_id, settle_upload, upload_file_name,
    uploaded_image_path, uploaded_json_path, PostOutcome, Rename,
};
use std::collections::BTreeSet;

fn apply(dir: &mut BTreeSet<String>, renames: &Vec<Rename>) {
    for r in renames {
        if dir.remove(&r.from) {
            dir.insert(r.to.clone());
        }
    }
}

#[test]
fn artifact_paths() {
    let id = "4f2a-11".to_string();
    assert_eq!(json_path(&id), "./evidence/4f2a-11.json");
    assert_eq!(image_path(&id), "./evidence/4f2a-11.jpg");
    assert_eq!(uploaded_json_path(&id), "./evidence/uploaded.4f2a-11.json");
    assert_eq!(uploaded_image_path(&id), "./evidence/uploaded.4f2a-11.jpg");
    assert_eq!(upload_file_name(&id), "4f2a-11.jpg");
}

#[test]
fn only_unsent_envelopes_are_pending() {
    assert!(is_pending(&"abc.json".to_string()));
    assert!(!is_pending(&"uploaded.abc.json".to_string()));
    assert!(!is_pending(&"abc.jpg".to_string()));
    assert!(!is_pending(&"abc.json.tmp".to_string()));
    assert!(!is_pending(&"json".to_string()));
    assert!(is_pending(&".json".to_string()));
    assert!(is_pending(&"uploaded-abc.json".to_string()));
    assert_eq!(pending_id(&"abc.json".to_string()), Some("abc".to_string()));
    assert_eq!(pending_id(&"a.b.json".to_string()), Some("a.b".to_string()));
    assert_eq!(pending_id(&"uploaded.abc.json".to_string()), None);
    assert_eq!(pending_id(&"abc.jpg".to_string()), None);
    assert_eq!(pending_id(&"\u{e9}t\u{e9}.json".to_string()), Some("\u{e9}t\u{e9}".to_string()));
}

#[test]
fn success_renames_both_files() {
    let renames = settle_upload(&"abc".to_string(), PostOutcome::Answered(201));
    assert_eq!(
        renames,
        vec![
            Rename { from: "abc.json".to_string(), to: "uploaded.abc.json".to_string() },
            Rename { from: "abc.jpg".to_string(), to: "uploaded.abc.jpg".to_string() },
        ]
    );
}

#[test]
fn failure_renames_nothing() {
    for outcome in [
        PostOutcome::Failed,
        PostOutcome::Answered(199),
        PostOutcome::Answered(300),
        PostOutcome::Answered(404),
        PostOutcome::Answered(500),
    ] {
        assert!(settle_upload(&"abc".to_string(), outcome).is_empty());
    }
    assert_eq!(settle_upload(&"abc".to_string(), PostOutcome::Answered(200)).len(), 2);
    assert_eq!(settle_upload(&"abc".to_string(), PostOutcome::Answered(299)).len(), 2);
    assert!(status_is_success(204));
    assert!(!status_is_success(302));
}

#[test]
fn shipper_at_least_once_scenario() {
    let mut dir: BTreeSet<String> = BTreeSet::new();
    dir.insert("id1.json".to_string());
    dir.insert("id1.jpg".to_string());
    dir.insert("uploaded.old.json".to_string());
    dir.insert("uploaded.old.jpg".to_string());
    let pending = |dir: &BTreeSet<String>| -> Vec<String> {
        dir.iter().filter_map(|n| pending_id(n)).collect()
    };
    assert_eq!(pending(&dir), vec!["id1".to_string()]);
    let unreachable = settle_upload(&"id1".to_string(), PostOutcome::Failed);
    apply(&mut dir, &unreachable);
    assert_eq!(pending(&dir), vec!["id1".to_string()]);
    assert!(dir.contains("id1.json") && dir.contains("id1.jpg"));
    let reachable = settle_upload(&"id1".to_string(), PostOutcome::Answered(201));
    apply(&mut dir, &reachable);
    assert!(pending(&dir).is_empty());
    assert!(!dir.contains("id1.json") && !dir.contains("id1.jpg"));
    assert!(dir.contains("uploaded.id1.json") && dir.contains("uploaded.id1.jpg"));
    assert!(dir.contains("uploaded.old.json") && dir.contains("uploaded.old.jpg"));
    assert_eq!(dir.len(), 4);
}
