use oxideterm::external_edit::{
    ExternalEditSync, FileSignature, PollDecision, UploadOutcome, EXTERNAL_EDIT_RETRY_INTERVAL_MS,
};

fn sig(modified_ns: u64, len: u64) -> FileSignature {
    FileSignature { modified_ns, len }
}

#[test]
fn settled_saves_are_pending_until_the_upload_is_acknowledged() {
    let mut sync = ExternalEditSync::new(Some(sig(1, 10)), 0);
    assert_eq!(sync.on_poll(Some(sig(1, 10))), PollDecision::CheckOwner);
    assert!(!sync.upload_due(5));
    assert_eq!(sync.on_poll(Some(sig(2, 11))), PollDecision::Settle(sig(2, 11)));
    assert!(sync.on_settled(Some(sig(2, 11)), 100));
    assert_eq!(sync.pending, Some(sig(2, 11)));
    assert!(sync.upload_due(100));

    assert_eq!(sync.on_upload_finished(false, Some(sig(2, 11)), 100), UploadOutcome::Retrying);
    assert_eq!(sync.pending, Some(sig(2, 11)));
    assert!(!sync.upload_due(100 + EXTERNAL_EDIT_RETRY_INTERVAL_MS - 1));
    assert!(sync.upload_due(100 + EXTERNAL_EDIT_RETRY_INTERVAL_MS));
    assert!(sync.cache_retained());

    assert_eq!(sync.on_upload_finished(true, Some(sig(2, 11)), 20_000), UploadOutcome::Applied);
    assert_eq!(sync.pending, None);
    assert!(!sync.cache_retained());
}

#[test]
fn a_save_during_upload_stays_pending() {
    let mut sync = ExternalEditSync::new(None, 0);
    assert!(sync.on_settled(Some(sig(3, 1)), 10));
    assert_eq!(sync.on_upload_finished(true, Some(sig(4, 2)), 20), UploadOutcome::NewerSavePending);
    assert_eq!(sync.baseline, Some(sig(3, 1)));
    assert_eq!(sync.pending, Some(sig(4, 2)));
    assert!(sync.upload_due(20));
}

#[test]
fn vanished_copies_stop_or_skip() {
    let sync = ExternalEditSync::new(None, 0);
    assert_eq!(sync.on_poll(None), PollDecision::Stop);
    let mut seen = ExternalEditSync::new(Some(sig(1, 1)), 0);
    assert_eq!(seen.on_poll(None), PollDecision::Skip);
    assert!(!seen.on_settled(None, 5));
    assert_eq!(seen, ExternalEditSync::new(Some(sig(1, 1)), 0));
}
