//! The post and handle resolvers: truncation, the two cache tiers, batch
//! coalescing, the circuit breaker, and handle extraction.

use bluesky_push_notifier::handles::{
    did_to_fallback_handle, extract_handle_from_document, merge_bulk_results, resolution_url,
    DidDocument, DidResolver,
};
use bluesky_push_notifier::posts::{
    truncate_post_text, Author, GetPostsResponse, PostRecord, PostResolver, PostView,
};

const NOW_MS: u64 = 9_000_000;

#[test]
fn truncation_boundaries() {
    let s140: String = "x".repeat(140);
    assert_eq!(truncate_post_text(&s140), s140);

    let s141: String = "y".repeat(141);
    let t = truncate_post_text(&s141);
    assert_eq!(t.chars().count(), 140);
    assert_eq!(t, format!("{}...", "y".repeat(137)));

    let short = "hello";
    assert_eq!(truncate_post_text(short), "hello");

    let long: String = "z".repeat(500);
    let t = truncate_post_text(&long);
    assert!(t.chars().count() <= 140);
    assert!(t.ends_with("..."));
}

#[test]
fn post_cache_two_tiers_and_expiry() {
    let mut resolver = PostResolver::new(60);
    assert_eq!(resolver.lookup_two_tier("at://p/1", NOW_MS), None);

    resolver.update_caches("at://p/1", "cached text", NOW_MS);
    assert_eq!(resolver.lookup_two_tier("at://p/1", NOW_MS).as_deref(), Some("cached text"));

    // Beyond the TTL the entry no longer answers and gets swept.
    let past_ttl = NOW_MS + 61 * 60_000;
    assert_eq!(resolver.lookup_two_tier("at://p/1", past_ttl), None);
    let removed = resolver.cleanup_expired(past_ttl);
    assert_eq!(removed, 2);
}

#[test]
fn batch_coalescing_drains_up_to_25() {
    let mut resolver = PostResolver::new(60);
    for i in 0..30 {
        resolver.enqueue_pending(&format!("at://p/{}", i));
    }
    // A URI already waiting is not queued twice.
    resolver.enqueue_pending("at://p/0");
    let batch = resolver.drain_batch();
    assert_eq!(batch.len(), 25);
    assert_eq!(batch[0], "at://p/0");
    let rest = resolver.drain_batch();
    assert_eq!(rest.len(), 5);
    assert_eq!(rest[0], "at://p/25");
}

#[test]
fn collect_post_texts_truncates() {
    let resp = GetPostsResponse {
        posts: vec![PostView {
            uri: "at://p/long".to_string(),
            cid: "bafy1".to_string(),
            author: Author {
                did: "did:plc:w".to_string(),
                handle: "w.example".to_string(),
                display_name: None,
            },
            record: PostRecord { text: "a".repeat(200), created_at: "now".to_string() },
        }],
    };
    let pairs = PostResolver::collect_post_texts(&resp);
    assert_eq!(pairs.len(), 1);
    assert_eq!(pairs[0].0, "at://p/long");
    assert_eq!(pairs[0].1, format!("{}...", "a".repeat(137)));
}

#[test]
fn circuit_breaker_trips_and_recovers() {
    let mut resolver = PostResolver::new(60);
    for _ in 0..4 {
        resolver.record_api_failure(NOW_MS);
        assert!(resolver.api_call_allowed(NOW_MS));
    }
    // The fifth consecutive failure trips the breaker open.
    resolver.record_api_failure(NOW_MS);
    assert!(!resolver.api_call_allowed(NOW_MS + 1));

    // While open, the batch path serves the fallback text without I/O.
    let uris = vec!["at://p/1".to_string()];
    let fallback = PostResolver::fallback_results(&uris);
    assert_eq!(fallback[0].1, "Content temporarily unavailable");

    // After the 30 s window a probe is allowed, and two successes close it.
    let probe = NOW_MS + 30_000;
    assert!(resolver.api_call_allowed(probe));
    resolver.record_api_success();
    resolver.record_api_success();
    assert!(resolver.api_call_allowed(probe + 1));
    // A failure right after closing does not trip it again at once.
    resolver.record_api_failure(probe + 2);
    assert!(resolver.api_call_allowed(probe + 3));
}

#[test]
fn batch_answers_are_distributed_by_uri() {
    let results = vec![
        ("at://p/1".to_string(), "one".to_string()),
        ("at://p/2".to_string(), "two".to_string()),
    ];
    assert_eq!(PostResolver::lookup_result(&results, "at://p/2").as_deref(), Some("two"));
    assert_eq!(PostResolver::lookup_result(&results, "at://p/3"), None);
}

#[test]
fn handle_extraction_prefers_at_uri() {
    let doc = DidDocument {
        id: "did:plc:someone".to_string(),
        also_known_as: Some(vec![
            "https://example.com/profile/fallback.handle".to_string(),
            "at://primary.handle".to_string(),
        ]),
        service: None,
    };
    // The first entry wins; it holds a profile URL.
    assert_eq!(extract_handle_from_document(&doc), "fallback.handle");

    let doc2 = DidDocument {
        id: "did:plc:someone".to_string(),
        also_known_as: Some(vec!["at://primary.handle".to_string()]),
        service: None,
    };
    assert_eq!(extract_handle_from_document(&doc2), "primary.handle");
}

#[test]
fn handle_extraction_falls_back_to_truncated_did() {
    let doc = DidDocument {
        id: "did:plc:abcdefghijklmno".to_string(),
        also_known_as: None,
        service: None,
    };
    assert_eq!(extract_handle_from_document(&doc), "user_abcdefgh");
    assert_eq!(did_to_fallback_handle("did:plc:xy"), "user_xy");
    assert_eq!(did_to_fallback_handle("nocolons"), "user_nocolons");
}

#[test]
fn resolution_urls_by_method() {
    assert_eq!(
        resolution_url("did:plc:abc").unwrap(),
        "https://plc.directory/did:plc:abc"
    );
    assert_eq!(
        resolution_url("did:web:example.com").unwrap(),
        "https://example.com/.well-known/did.json"
    );
    assert!(resolution_url("did:key:zzz").is_err());
}

#[test]
fn handle_cache_two_tiers() {
    let mut resolver = DidResolver::new(24);
    assert_eq!(resolver.lookup_two_tier("did:plc:a", NOW_MS), None);
    let doc = DidDocument {
        id: "did:plc:a".to_string(),
        also_known_as: Some(vec!["at://a.example".to_string()]),
        service: None,
    };
    let handle = extract_handle_from_document(&doc);
    resolver.update_caches("did:plc:a", doc, &handle, NOW_MS);
    assert_eq!(resolver.lookup_two_tier("did:plc:a", NOW_MS + 5).as_deref(), Some("a.example"));
    let past_ttl = NOW_MS + 25 * 3_600_000;
    assert_eq!(resolver.lookup_two_tier("did:plc:a", past_ttl), None);
    assert_eq!(resolver.cleanup_expired(past_ttl), 2);
}

#[test]
fn bulk_merge_always_answers() {
    let dids = vec![
        "did:plc:cached".to_string(),
        "did:plc:fetched".to_string(),
        "did:plc:missing0123".to_string(),
    ];
    let cached = vec![("did:plc:cached".to_string(), "c.example".to_string())];
    let network = vec![("did:plc:fetched".to_string(), "f.example".to_string())];
    let merged = merge_bulk_results(&dids, &cached, &network);
    assert_eq!(merged.len(), 3);
    assert_eq!(merged[0].1, "c.example");
    assert_eq!(merged[1].1, "f.example");
    // Network failures resolve to the fallback handle, so callers always
    // receive a best-effort answer.
    assert_eq!(merged[2].1, "user_missing0");
}
