use post_dl::e_handler::{EHandler, Mode};
use post_dl::orchestrator::Phase;

#[test]
fn default_configuration() {
    let cfg = EHandler::default();
    assert_eq!(cfg.username, "");
    assert_eq!(cfg.api_key, "");
    assert_eq!(cfg.count, 5);
    assert_eq!(cfg.pages, 5);
    assert!(!cfg.random);
    assert_eq!(cfg.tags, "");
    assert!(!cfg.lower_quality);
    assert_eq!(cfg.api_source, "e926.net");
}

#[test]
fn credential_is_taken_only_when_present_and_not_empty() {
    let mut cfg = EHandler::default();
    assert!(!cfg.check_api_key(None));
    assert!(!cfg.has_api_key());
    assert!(!cfg.check_api_key(Some(String::new())));
    assert!(!cfg.has_api_key());
    assert!(cfg.check_api_key(Some("s3cret".to_string())));
    assert!(cfg.has_api_key());
    assert_eq!(cfg.api_key, "s3cret");
    assert!(!cfg.check_api_key(None));
    assert_eq!(cfg.api_key, "s3cret");
    cfg.clear_api_key();
    assert!(!cfg.has_api_key());
    assert_eq!(cfg.api_key, "");
}

#[test]
fn favourites_target() {
    let mut cfg = EHandler::default();
    cfg.username = "alice".to_string();
    cfg.tags = "wolf solo".to_string();
    cfg.random = true;
    cfg.count = 20;
    let request = cfg.handle_request(Mode::Favourites, 0);
    assert_eq!(
        request.target,
        "https://e926.net/posts.json?tags=fav:alice wolf solo order:random&limit=20"
    );
    assert_eq!(request.auth, None);
}

#[test]
fn favourites_target_keeps_empty_parts_in_place() {
    let mut cfg = EHandler::default();
    cfg.username = "alice".to_string();
    let request = cfg.handle_request(Mode::Favourites, 0);
    assert_eq!(request.target, "https://e926.net/posts.json?tags=fav:alice  &limit=5");
}

#[test]
fn tags_target_has_no_favourites_scope() {
    let mut cfg = EHandler::default();
    cfg.username = "alice".to_string();
    cfg.tags = "wolf".to_string();
    cfg.api_source = "example.org".to_string();
    let request = cfg.handle_request(Mode::Tags, 0);
    assert_eq!(request.target, "https://example.org/posts.json?tags=wolf &limit=5");
}

#[test]
fn bulk_target_asks_for_the_page_after_the_index() {
    let mut cfg = EHandler::default();
    cfg.username = "alice".to_string();
    cfg.tags = "wolf".to_string();
    cfg.count = 250;
    let first = cfg.handle_request(Mode::Bulk, 0);
    assert_eq!(
        first.target,
        "https://e926.net/posts.json?tags=fav:alice wolf &limit=250&page=1"
    );
    let tenth = cfg.handle_request(Mode::Bulk, 9);
    assert_eq!(
        tenth.target,
        "https://e926.net/posts.json?tags=fav:alice wolf &limit=250&page=10"
    );
    let last = cfg.handle_request(Mode::Bulk, u32::MAX);
    assert_eq!(
        last.target,
        "https://e926.net/posts.json?tags=fav:alice wolf &limit=250&page=4294967296"
    );
}

#[test]
fn bulk_target_without_user_leaves_the_scope_empty() {
    let mut cfg = EHandler::default();
    cfg.tags = "wolf".to_string();
    cfg.random = true;
    let request = cfg.handle_request(Mode::Bulk, 0);
    assert_eq!(
        request.target,
        "https://e926.net/posts.json?tags= wolf order:random&limit=5&page=1"
    );
}

#[test]
fn request_carries_the_identity_when_a_credential_is_configured() {
    let mut cfg = EHandler::default();
    cfg.username = "alice".to_string();
    assert!(cfg.check_api_key(Some("k".to_string())));
    let request = cfg.handle_request(Mode::Tags, 0);
    assert_eq!(request.auth, Some(("alice".to_string(), "k".to_string())));
    cfg.clear_api_key();
    assert_eq!(cfg.handle_request(Mode::Tags, 0).auth, None);
}

#[test]
fn page_bound() {
    let mut cfg = EHandler::default();
    cfg.pages = 3;
    assert!(!cfg.bound_reached(0));
    assert!(!cfg.bound_reached(2));
    assert!(cfg.bound_reached(3));
    assert!(!cfg.bound_reached(4));
    cfg.pages = -1;
    assert!(!cfg.bound_reached(0));
    assert!(!cfg.bound_reached(1_000_000));
    assert!(cfg.bound_reached(u32::MAX));
    cfg.pages = -7;
    assert!(!cfg.bound_reached(7));
    cfg.pages = 0;
    assert!(cfg.bound_reached(0));
}

#[test]
fn snapshot_is_a_copy() {
    let mut cfg = EHandler::default();
    cfg.username = "alice".to_string();
    cfg.pages = -1;
    let copy = cfg.snapshot();
    cfg.username = "bob".to_string();
    assert_eq!(copy.username, "alice");
    assert_eq!(copy.pages, -1);
    assert_eq!(copy.api_source, "e926.net");
}

#[test]
fn runs_are_prepared_in_their_mode() {
    let mut cfg = EHandler::default();
    cfg.username = "alice".to_string();
    let favourites = cfg.download_favourites();
    assert_eq!(favourites.mode(), Mode::Favourites);
    assert_eq!(favourites.phase(), Phase::Idle);
    assert_eq!(favourites.config().username, "alice");
    assert_eq!(cfg.download_with_tags().mode(), Mode::Tags);
    let bulk = cfg.get_bulk_data();
    assert_eq!(bulk.mode(), Mode::Bulk);
    assert_eq!(bulk.persisted(), 0);
    assert!(!bulk.is_over());
}
