use scm_fleet::error::{error_handler, EventKind};

#[test]
fn outcome_names() {
    let all = [
        (EventKind::Saved, "Saved"),
        (EventKind::SavingFailed, "SavingFailed"),
        (EventKind::Updated, "Updated"),
        (EventKind::UpdatingFailed, "UpdatingFailed"),
        (EventKind::Deleted, "Deleted"),
        (EventKind::DeletingFailed, "DeletingFailed"),
        (EventKind::FindingFailed, "FindingFailed"),
        (EventKind::NotFound, "NotFound"),
        (EventKind::InvalidCombination, "InvalidCombination"),
        (EventKind::InvalidToken, "InvalidToken"),
        (EventKind::InvalidId, "InvalidId"),
    ];
    for (kind, name) in all {
        assert_eq!(kind.to_string(), name);
    }
}

#[test]
fn only_a_missing_entity_is_404() {
    assert_eq!(EventKind::NotFound.status_code(), 404);
    for kind in [
        EventKind::Saved,
        EventKind::SavingFailed,
        EventKind::Updated,
        EventKind::UpdatingFailed,
        EventKind::Deleted,
        EventKind::DeletingFailed,
        EventKind::FindingFailed,
        EventKind::InvalidCombination,
        EventKind::InvalidToken,
        EventKind::InvalidId,
    ] {
        assert_eq!(kind.status_code(), 400);
    }
}

#[test]
fn error_reply_carries_status_and_name() {
    let r = error_handler(EventKind::NotFound);
    assert_eq!((r.status, r.body.as_str()), (404, "NotFound"));
    let r = error_handler(EventKind::InvalidToken);
    assert_eq!((r.status, r.body.as_str()), (400, "InvalidToken"));
}
