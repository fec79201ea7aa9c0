use beamcli::error::BeamError;
use beamcli::teleport::cache::cache_file;
use beamcli::teleport::cache::fetch_event;
use beamcli::teleport::cache::refreshes;
use beamcli::teleport::cache::is_expired;
use beamcli::teleport::cache::is_stale;
use beamcli::teleport::cache::lists_no_nodes;
use beamcli::teleport::cache::step;
use beamcli::teleport::cache::CacheAction;
use beamcli::teleport::cache::CacheEvent;
use beamcli::teleport::cache::CacheState;

#[test]
fn cache_is_stale_only_after_its_time() {
    let written = 1_000_000;
    let ttl = 86400;
    assert!(!is_expired(written, written, ttl));
    assert!(!is_expired(written, written + ttl - 1, ttl));
    assert!(!is_expired(written, written + ttl, ttl));
    assert!(is_expired(written, written + ttl + 1, ttl));
    assert!(!is_expired(written, written - 5, ttl));
    assert!(is_expired(written, written + 1, 0));
    assert!(!is_expired(written, written, 0));
}

#[test]
fn expiry_near_the_end_of_time() {
    assert!(!is_expired(u64::MAX, u64::MAX, u64::MAX));
    assert!(!is_expired(1, u64::MAX, u64::MAX));
    assert!(!is_expired(1, u64::MAX, u64::MAX - 1));
    assert!(is_expired(0, u64::MAX, u64::MAX - 1));
    assert!(is_expired(1, u64::MAX, u64::MAX - 2));
    assert!(!is_expired(u64::MAX, 0, 0));
}

#[test]
fn staleness() {
    assert!(is_stale(false, false, 0, 0, 100));
    assert!(is_stale(true, true, 0, 0, 100));
    assert!(is_stale(true, false, 0, 101, 100));
    assert!(!is_stale(true, false, 0, 100, 100));
    assert!(!is_stale(true, false, 50, 60, 100));
}

#[test]
fn each_proxy_has_its_file() {
    assert_eq!(
        cache_file("proxy.example.com"),
        ".beam/cache/proxy.example.com.json"
    );
    assert_eq!(cache_file(""), ".beam/cache/.json");
    assert_ne!(cache_file("a"), cache_file("b"));
}

#[test]
fn listing_without_nodes() {
    assert!(lists_no_nodes("null\n"));
    assert!(!lists_no_nodes("null"));
    assert!(!lists_no_nodes("[]"));
    assert!(!lists_no_nodes(""));
    assert!(!lists_no_nodes("null\n\n"));
}

#[test]
fn fresh_cache_is_read() {
    let probed = CacheEvent::Probed { present: true, written_at: 100, now: 150 };
    assert_eq!(
        step(CacheState::Idle, &probed, 50, false),
        (CacheState::Reading, CacheAction::ReadCache)
    );
    assert_eq!(
        step(CacheState::Reading, &CacheEvent::Read { parsed: true }, 50, false),
        (CacheState::Finished, CacheAction::Deliver)
    );
    assert_eq!(
        step(CacheState::Reading, &CacheEvent::Read { parsed: false }, 50, false),
        (CacheState::Finished, CacheAction::Fail(BeamError::CacheCorrupt))
    );
}

#[test]
fn stale_cache_is_fetched() {
    let old = CacheEvent::Probed { present: true, written_at: 100, now: 151 };
    let missing = CacheEvent::Probed { present: false, written_at: 0, now: 0 };
    let fresh = CacheEvent::Probed { present: true, written_at: 100, now: 100 };
    assert_eq!(
        step(CacheState::Idle, &old, 50, false),
        (CacheState::Fetching, CacheAction::Fetch)
    );
    assert_eq!(
        step(CacheState::Idle, &missing, 50, false),
        (CacheState::Fetching, CacheAction::Fetch)
    );
    assert_eq!(
        step(CacheState::Idle, &fresh, 50, true),
        (CacheState::Fetching, CacheAction::Fetch)
    );
    let listed = CacheEvent::Listed { listing: "[{\"spec\":{}}]".to_string() };
    assert_eq!(
        step(CacheState::Fetching, &listed, 50, false),
        (CacheState::Finished, CacheAction::Store)
    );
    let empty = CacheEvent::Listed { listing: "null\n".to_string() };
    assert_eq!(
        step(CacheState::Fetching, &empty, 50, false),
        (CacheState::Finished, CacheAction::Fail(BeamError::EmptyDirectory))
    );
    assert_eq!(
        step(CacheState::Fetching, &CacheEvent::Unauthorized, 50, false),
        (CacheState::Finished, CacheAction::Fail(BeamError::AuthRequired))
    );
    assert_eq!(
        step(CacheState::Fetching, &CacheEvent::Unreachable, 50, false),
        (CacheState::Finished, CacheAction::Fail(BeamError::DirectoryUnavailable))
    );
}

#[test]
fn events_out_of_place_change_nothing() {
    let probed = CacheEvent::Probed { present: false, written_at: 0, now: 0 };
    let listed = CacheEvent::Listed { listing: "[]".to_string() };
    let read = CacheEvent::Read { parsed: true };
    assert_eq!(step(CacheState::Idle, &listed, 1, false), (CacheState::Idle, CacheAction::Wait));
    assert_eq!(step(CacheState::Idle, &read, 1, false), (CacheState::Idle, CacheAction::Wait));
    assert_eq!(
        step(CacheState::Reading, &probed, 1, false),
        (CacheState::Reading, CacheAction::Wait)
    );
    assert_eq!(
        step(CacheState::Reading, &listed, 1, false),
        (CacheState::Reading, CacheAction::Wait)
    );
    assert_eq!(
        step(CacheState::Fetching, &read, 1, false),
        (CacheState::Fetching, CacheAction::Wait)
    );
    assert_eq!(
        step(CacheState::Fetching, &probed, 1, true),
        (CacheState::Fetching, CacheAction::Wait)
    );
    for event in [&probed, &listed, &read, &CacheEvent::Unauthorized, &CacheEvent::Unreachable] {
        assert_eq!(
            step(CacheState::Finished, event, 1, false),
            (CacheState::Finished, CacheAction::Wait)
        );
    }
}

#[test]
fn runs_of_the_directory_tool() {
    assert_eq!(
        fetch_event(true, "[]".to_string(), ""),
        CacheEvent::Listed { listing: "[]".to_string() }
    );
    assert_eq!(
        fetch_event(true, "null\n".to_string(), "ERROR: Not logged in."),
        CacheEvent::Listed { listing: "null\n".to_string() }
    );
    assert_eq!(
        fetch_event(false, "".to_string(), "ERROR: Not logged in."),
        CacheEvent::Unauthorized
    );
    assert_eq!(
        fetch_event(false, "".to_string(), "error: you are not logged in"),
        CacheEvent::Unauthorized
    );
    assert_eq!(
        fetch_event(false, "[]".to_string(), "ERROR: access denied"),
        CacheEvent::Unauthorized
    );
    assert_eq!(
        fetch_event(false, "".to_string(), "ERROR: connection refused"),
        CacheEvent::Unreachable
    );
    assert_eq!(fetch_event(false, "[]".to_string(), ""), CacheEvent::Unreachable);
}

#[test]
fn corrupt_cache_is_fetched_anew_once() {
    assert!(refreshes(BeamError::CacheCorrupt));
    assert!(!refreshes(BeamError::EmptyDirectory));
    assert!(!refreshes(BeamError::AuthRequired));
    assert!(!refreshes(BeamError::DirectoryUnavailable));
    let probed = CacheEvent::Probed { present: true, written_at: 100, now: 100 };
    let (state, action) = step(CacheState::Idle, &probed, 50, false);
    assert_eq!(action, CacheAction::ReadCache);
    let (_, action) = step(state, &CacheEvent::Read { parsed: false }, 50, false);
    assert_eq!(action, CacheAction::Fail(BeamError::CacheCorrupt));
    let (state, action) = step(CacheState::Idle, &probed, 50, true);
    assert_eq!((state, action), (CacheState::Fetching, CacheAction::Fetch));
    let listed = CacheEvent::Listed { listing: "[]".to_string() };
    assert_eq!(
        step(state, &listed, 50, true),
        (CacheState::Finished, CacheAction::Store)
    );
}
