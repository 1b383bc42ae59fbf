use scm_fleet::dedup::{DedupTable, DEDUP_WINDOW_MS};
use scm_fleet::evidence::{Evidence, EvidencePerson, EvidencePersonViolation};
use scm_fleet::ingest::{artifacts, frame_path, judge};

fn person(id: &str, violation: Vec<EvidencePersonViolation>) -> EvidencePerson {
    EvidencePerson::new(id.to_string(), Vec::new(), Vec::new(), violation)
}

fn envelope(id: &str, camera: &str, timestamp: i64, person: Vec<EvidencePerson>) -> Evidence {
    Evidence::new(id.to_string(), camera.to_string(), "f".to_string(), timestamp, person)
}

fn offender(id: &str, camera: &str, timestamp: i64) -> Evidence {
    envelope(
        id,
        camera,
        timestamp,
        vec![person("p1", vec![EvidencePersonViolation::MissingHardhat])],
    )
}

#[test]
fn window_is_ten_minutes() {
    assert_eq!(DEDUP_WINDOW_MS, 600_000);
}

#[test]
fn dedup_window_boundary_scenario() {
    let mut table = DedupTable::new();
    let a = offender("a", "c1", 1_000_000);
    let b = offender("b", "c1", 1_599_999);
    let c = offender("c", "c1", 1_600_001);
    assert!(table.observe(&a));
    assert!(!table.observe(&b));
    assert!(table.observe(&c));
    assert_eq!(table.last_seen(&"c1".to_string(), &"p1".to_string()), Some(1_600_001));
    assert_eq!(table.len(), 1);
}

#[test]
fn suppressed_envelope_does_not_move_the_window() {
    let mut table = DedupTable::new();
    assert!(table.observe(&offender("a", "c1", 1_000_000)));
    assert!(!table.observe(&offender("b", "c1", 1_300_000)));
    assert_eq!(table.last_seen(&"c1".to_string(), &"p1".to_string()), Some(1_000_000));
    assert!(table.observe(&offender("c", "c1", 1_600_000)));
}

#[test]
fn exactly_at_the_window_edge_is_accepted() {
    let mut table = DedupTable::new();
    assert!(table.observe(&offender("a", "c1", 5)));
    assert!(!table.observe(&offender("b", "c1", 5 + 599_999)));
    assert!(table.observe(&offender("c", "c1", 5 + 600_000)));
}

#[test]
fn empty_person_list_is_no_violation() {
    let mut table = DedupTable::new();
    let e = envelope("a", "c1", 10, Vec::new());
    assert!(!table.observe(&e));
    assert_eq!(table.len(), 0);
    assert!(!e.has_violation());
}

#[test]
fn person_without_violation_is_not_remembered() {
    let mut table = DedupTable::new();
    let e = envelope("a", "c1", 10, vec![person("p1", Vec::new())]);
    assert!(!table.observe(&e));
    assert_eq!(table.last_seen(&"c1".to_string(), &"p1".to_string()), None);
}

#[test]
fn keys_are_pairs_of_camera_and_person() {
    let mut table = DedupTable::new();
    assert!(table.observe(&offender("a", "c1", 100)));
    assert!(table.observe(&offender("b", "c2", 101)));
    let other = envelope(
        "c",
        "c1",
        102,
        vec![person("p2", vec![EvidencePersonViolation::MissingGloves])],
    );
    assert!(table.observe(&other));
    assert_eq!(table.len(), 3);
    let joined = envelope(
        "d",
        "c1-p",
        103,
        vec![person("1", vec![EvidencePersonViolation::MissingGloves])],
    );
    assert!(table.observe(&joined));
    assert_eq!(table.len(), 4);
}

#[test]
fn second_person_under_the_same_key_is_silenced_by_the_first() {
    let mut table = DedupTable::new();
    let e = envelope(
        "a",
        "c1",
        100,
        vec![
            person("p1", vec![EvidencePersonViolation::MissingShoes]),
            person("p1", vec![EvidencePersonViolation::MissingShoes]),
        ],
    );
    assert!(table.observe(&e));
    assert_eq!(table.len(), 1);
}

#[test]
fn one_fresh_person_among_silenced_ones_makes_the_envelope_new() {
    let mut table = DedupTable::new();
    assert!(table.observe(&offender("a", "c1", 100)));
    let e = envelope(
        "b",
        "c1",
        200,
        vec![
            person("p1", vec![EvidencePersonViolation::MissingHardhat]),
            person("p9", vec![EvidencePersonViolation::ImproperlyWornGloves]),
        ],
    );
    assert!(table.observe(&e));
    assert_eq!(table.last_seen(&"c1".to_string(), &"p1".to_string()), Some(100));
    assert_eq!(table.last_seen(&"c1".to_string(), &"p9".to_string()), Some(200));
}

#[test]
fn extreme_timestamps_do_not_overflow() {
    let mut table = DedupTable::new();
    assert!(table.observe(&offender("a", "c1", i64::MIN)));
    assert!(table.observe(&offender("b", "c1", i64::MAX)));
    assert!(!table.observe(&offender("c", "c1", i64::MIN)));
}

#[test]
fn judge_names_the_frame_of_the_camera() {
    let mut table = DedupTable::new();
    let a = offender("a", "c1", 1_000_000);
    assert_eq!(judge(&mut table, &a), Some("/tmp/c1.jpg".to_string()));
    let b = offender("b", "c1", 1_000_001);
    assert_eq!(judge(&mut table, &b), None);
    assert_eq!(frame_path(&"cam-7".to_string()), "/tmp/cam-7.jpg");
}

#[test]
fn artifact_pair_carries_the_envelope_id() {
    let a = offender("4f2a", "c1", 1_000_000);
    let pair = artifacts(&a, Some(vec![1u8, 2, 3])).unwrap();
    assert_eq!(pair.json_path, "./evidence/4f2a.json");
    assert_eq!(pair.image_path, "./evidence/4f2a.jpg");
    assert_eq!(pair.image, vec![1u8, 2, 3]);
}

#[test]
fn missing_frame_drops_the_envelope() {
    let a = offender("4f2a", "c1", 1_000_000);
    assert_eq!(artifacts(&a, None), None);
}

#[test]
fn dropped_envelope_still_silences_the_next_one() {
    let mut table = DedupTable::new();
    let a = offender("a", "c1", 1_000_000);
    assert!(judge(&mut table, &a).is_some());
    assert_eq!(artifacts(&a, None), None);
    let b = offender("b", "c1", 1_000_500);
    assert_eq!(judge(&mut table, &b), None);
}
