use amsync::amp::AppleMusicPlaylistId;
use amsync::auth::{AuthError, AuthHandshake, AuthPhase};
use amsync::sync::{is_flagged, plan_sync, SYNC_MARKER};
use amsync::target::append_body;
use amsync::amp::AppleMusicCatalogSong;

#[test]
fn marker_flags_playlists() {
    assert!(is_flagged("[amsync] Road Trip", SYNC_MARKER));
    assert!(is_flagged("Road Trip [amsync]", SYNC_MARKER));
    assert!(!is_flagged("Road Trip", SYNC_MARKER));
}

#[test]
fn named_target_matches_its_source_and_unknown_is_skipped() {
    let sources = vec![("Road Trip".to_string(), "sp42".to_string())];
    let targets = vec![
        (
            "[sync] Road Trip".to_string(),
            AppleMusicPlaylistId("am1".to_string()),
        ),
        (
            "[sync] Unknown".to_string(),
            AppleMusicPlaylistId("am2".to_string()),
        ),
    ];
    let jobs = plan_sync(&sources, &targets, "[sync]");
    assert_eq!(jobs.len(), 1);
    assert_eq!(jobs[0].source_name, "Road Trip");
    assert_eq!(jobs[0].source_id, "sp42");
    assert_eq!(jobs[0].target_name, "[sync] Road Trip");
    assert_eq!(jobs[0].target_id, AppleMusicPlaylistId("am1".to_string()));
}

#[test]
fn trailing_marker_and_spaces_still_match() {
    let sources = vec![("  Jogging  ".to_string(), "sp7".to_string())];
    let targets = vec![(
        "Jogging [amsync]".to_string(),
        AppleMusicPlaylistId("am7".to_string()),
    )];
    let jobs = plan_sync(&sources, &targets, SYNC_MARKER);
    assert_eq!(jobs.len(), 1);
    assert_eq!(jobs[0].source_id, "sp7");
}

#[test]
fn later_source_wins_a_duplicate_trimmed_name() {
    let sources = vec![
        ("Mix".to_string(), "old".to_string()),
        (" Mix ".to_string(), "new".to_string()),
    ];
    let targets = vec![(
        "[amsync] Mix".to_string(),
        AppleMusicPlaylistId("am".to_string()),
    )];
    let jobs = plan_sync(&sources, &targets, SYNC_MARKER);
    assert_eq!(jobs.len(), 1);
    assert_eq!(jobs[0].source_id, "new");
}

#[test]
fn handshake_completes_once_with_both_params() {
    let mut hs = AuthHandshake::new();
    assert_eq!(hs.phase, AuthPhase::Idle);
    hs.begin();
    assert_eq!(hs.phase, AuthPhase::AwaitingCode);
    let r = hs.on_callback(Some("c0de".to_string()), Some("st4te".to_string()));
    assert!(r.is_ok());
    assert_eq!(hs.phase, AuthPhase::Completed);
    let (c, s) = hs.captured();
    assert_eq!(c, "c0de");
    assert_eq!(s, "st4te");
}

#[test]
fn handshake_rejects_missing_params() {
    let mut hs = AuthHandshake::new();
    hs.begin();
    let r = hs.on_callback(Some("c0de".to_string()), None);
    assert_eq!(r.unwrap_err(), AuthError::MissingCallbackParams);
    assert_eq!(hs.phase, AuthPhase::AwaitingCode);
    let r2 = hs.on_callback(None, Some("st4te".to_string()));
    assert_eq!(r2.unwrap_err(), AuthError::MissingCallbackParams);
}

#[test]
fn append_body_batches_are_byte_exact() {
    let ids = vec![
        AppleMusicCatalogSong(1),
        AppleMusicCatalogSong(23),
        AppleMusicCatalogSong(456),
    ];
    assert_eq!(
        append_body(&ids, 0, 3),
        "{\"data\":[{\"id\":\"1\",\"type\":\"songs\"},{\"id\":\"23\",\"type\":\"songs\"},{\"id\":\"456\",\"type\":\"songs\"}]}"
    );
    assert_eq!(append_body(&ids, 0, 0), "{\"data\":[]}");
}
