//! End-to-end scenarios for the classify/filter stage.

use bluesky_push_notifier::crypto::CryptoUtils;
use bluesky_push_notifier::devices::DeviceStore;
use bluesky_push_notifier::filter::{
    backpressure_action, classify_event, create_notification_content, has_quote_embed,
    is_event_relevant_to_users, process_event, ChannelAction,
};
use bluesky_push_notifier::models::{
    BlueskyEvent, EventEmbed, EmbedRecord, Facet, FacetFeature, NotificationType, RecordData,
    ReplyData,
};
use bluesky_push_notifier::relationships::RelationshipManager;

const ACTOR_A: &str = "did:plc:aaa";
const ACTOR_B: &str = "did:plc:bbb";
const TOKEN_1: &str = "device-token-1";
const NOW_MS: u64 = 1_000_000;

fn empty_record() -> RecordData {
    RecordData {
        text: None,
        reply: None,
        facets: Vec::new(),
        embed: None,
        subject_uri: None,
        subject_actor: None,
    }
}

fn event(path: &str, author: &str, record: RecordData) -> BlueskyEvent {
    BlueskyEvent {
        op: "create".to_string(),
        path: path.to_string(),
        cid: "bafyexample".to_string(),
        author: author.to_string(),
        record,
        timestamp: 1_700_000_000,
    }
}

fn registered_store() -> DeviceStore {
    let mut store = DeviceStore::new();
    store.register(ACTOR_A, TOKEN_1, 1_700_000_000);
    store
}

fn fresh_rels() -> RelationshipManager {
    RelationshipManager::new(CryptoUtils::new("SECRET-REDACTED".to_string()), true)
}

fn handle_map() -> Vec<(String, String)> {
    vec![(ACTOR_B.to_string(), "bob".to_string())]
}

fn mention_record() -> RecordData {
    RecordData {
        text: Some("hey @a".to_string()),
        facets: vec![Facet {
            features: vec![FacetFeature {
                feature_type: Some("app.bsky.richtext.facet#mention".to_string()),
                did: Some(ACTOR_A.to_string()),
            }],
        }],
        ..empty_record()
    }
}

#[test]
fn mention_via_facet_yields_one_payload() {
    let store = registered_store();
    let rels = fresh_rels();
    let users = vec![ACTOR_A.to_string()];
    let ev = event("app.bsky.feed.post/abc123", ACTOR_B, mention_record());

    let out = process_event(&ev, &users, &rels, &store, &handle_map(), None, NOW_MS);

    assert_eq!(out.len(), 1);
    let p = &out[0];
    assert_eq!(p.user_did, ACTOR_A);
    assert_eq!(p.device_token, TOKEN_1);
    assert_eq!(p.notification_type, NotificationType::Mention);
    assert_eq!(p.title, "@bob mentioned you");
    assert_eq!(p.body, "hey @a");
    let uri = p.data_uri.as_ref().expect("deep link expected");
    assert!(uri.ends_with("app.bsky.feed.post/abc123"));
    assert_eq!(p.data_kind.as_deref(), Some("Mention"));
}

#[test]
fn each_device_gets_at_most_one_payload() {
    // Two devices for the recipient: one payload per device, never two.
    let mut store = DeviceStore::new();
    store.register(ACTOR_A, TOKEN_1, 1_700_000_000);
    store.register(ACTOR_A, "device-token-2", 1_700_000_001);
    let rels = fresh_rels();
    let users = vec![ACTOR_A.to_string()];
    let ev = event("app.bsky.feed.post/abc123", ACTOR_B, mention_record());

    let out = process_event(&ev, &users, &rels, &store, &handle_map(), None, NOW_MS);

    assert_eq!(out.len(), 2);
    assert_ne!(out[0].device_token, out[1].device_token);
}

#[test]
fn reply_yields_payload_with_reply_title() {
    let store = registered_store();
    let rels = fresh_rels();
    let users = vec![ACTOR_A.to_string()];
    let record = RecordData {
        text: Some("ok".to_string()),
        reply: Some(ReplyData {
            parent_uri: Some(format!("at://{}/app.bsky.feed.post/xyz", ACTOR_A)),
        }),
        ..empty_record()
    };
    let ev = event("app.bsky.feed.post/r1", ACTOR_B, record);

    let out = process_event(&ev, &users, &rels, &store, &handle_map(), None, NOW_MS);

    assert_eq!(out.len(), 1);
    assert_eq!(out[0].notification_type, NotificationType::Reply);
    assert_eq!(out[0].title, "@bob replied to you");
    assert_eq!(out[0].body, "ok");
}

#[test]
fn like_resolves_referenced_post_text() {
    let store = registered_store();
    let rels = fresh_rels();
    let users = vec![ACTOR_A.to_string()];
    let subject = format!("at://{}/app.bsky.feed.post/xyz", ACTOR_A);
    let record = RecordData { subject_uri: Some(subject.clone()), ..empty_record() };
    let ev = event("app.bsky.feed.like/lk1", ACTOR_B, record);
    let resolved = "hello".to_string();

    let out = process_event(&ev, &users, &rels, &store, &handle_map(), Some(&resolved), NOW_MS);

    assert_eq!(out.len(), 1);
    assert_eq!(out[0].notification_type, NotificationType::Like);
    assert_eq!(out[0].title, "@bob liked your post");
    assert_eq!(out[0].body, "hello");
    assert_eq!(out[0].data_uri.as_deref(), Some(subject.as_str()));
}

#[test]
fn follow_yields_new_follower() {
    let store = registered_store();
    let rels = fresh_rels();
    let users = vec![ACTOR_A.to_string()];
    let record = RecordData { subject_actor: Some(ACTOR_A.to_string()), ..empty_record() };
    let ev = event("app.bsky.graph.follow/f1", ACTOR_B, record);

    let out = process_event(&ev, &users, &rels, &store, &handle_map(), None, NOW_MS);

    assert_eq!(out.len(), 1);
    assert_eq!(out[0].notification_type, NotificationType::Follow);
    assert_eq!(out[0].title, "New follower");
    assert_eq!(out[0].body, "@bob followed you");
    assert_eq!(out[0].data_uri.as_deref(), Some("at://did:plc:bbb"));
}

#[test]
fn muted_author_is_suppressed() {
    let store = registered_store();
    let mut rels = fresh_rels();
    let ok = rels.update_relationships_batch(
        ACTOR_A,
        TOKEN_1,
        vec![ACTOR_B.to_string()],
        Vec::new(),
        &store,
        NOW_MS,
        1_700_000_000,
    );
    assert!(ok.is_ok());
    let users = vec![ACTOR_A.to_string()];

    for ev in [
        event("app.bsky.feed.post/abc123", ACTOR_B, mention_record()),
        event(
            "app.bsky.feed.like/lk1",
            ACTOR_B,
            RecordData {
                subject_uri: Some(format!("at://{}/app.bsky.feed.post/xyz", ACTOR_A)),
                ..empty_record()
            },
        ),
    ] {
        let out = process_event(&ev, &users, &rels, &store, &handle_map(), None, NOW_MS);
        assert_eq!(out.len(), 0);
    }
}

#[test]
fn preference_flag_off_suppresses_payload() {
    let mut store = registered_store();
    let rels = fresh_rels();
    let mut flags = store.get_preferences(ACTOR_A).unwrap();
    flags.mentions = false;
    assert!(store.update_preferences(ACTOR_A, &flags));
    let users = vec![ACTOR_A.to_string()];
    let ev = event("app.bsky.feed.post/abc123", ACTOR_B, mention_record());

    let out = process_event(&ev, &users, &rels, &store, &handle_map(), None, NOW_MS);
    assert_eq!(out.len(), 0);
}

#[test]
fn unregistered_author_without_structural_match_is_dropped() {
    let store = registered_store();
    let rels = fresh_rels();
    let users = vec![ACTOR_A.to_string()];
    let record = RecordData { text: Some("nothing for anyone".to_string()), ..empty_record() };
    let ev = event("app.bsky.feed.post/p9", ACTOR_B, record);

    assert!(!is_event_relevant_to_users(&ev, &users));
    let out = process_event(&ev, &users, &rels, &store, &handle_map(), None, NOW_MS);
    assert_eq!(out.len(), 0);
}

#[test]
fn quote_takes_precedence_over_reply() {
    let users = vec![ACTOR_A.to_string()];
    let record = RecordData {
        text: Some("quoting you".to_string()),
        reply: Some(ReplyData {
            parent_uri: Some(format!("at://{}/app.bsky.feed.post/parent", ACTOR_A)),
        }),
        embed: Some(EventEmbed {
            embed_type: Some("app.bsky.embed.record".to_string()),
            record: Some(EmbedRecord {
                uri: None,
                inner_uri: Some(format!("at://{}/app.bsky.feed.post/q", ACTOR_A)),
            }),
        }),
        facets: Vec::new(),
        subject_uri: None,
        subject_actor: None,
    };
    assert!(has_quote_embed(&record));
    let ev = event("app.bsky.feed.post/q1", ACTOR_B, record);
    let (kind, dids) = classify_event(&ev, &users).expect("classified");
    assert_eq!(kind, NotificationType::Quote);
    assert_eq!(dids, vec![ACTOR_A.to_string()]);
}

#[test]
fn empty_quote_falls_through_to_reply() {
    let users = vec![ACTOR_A.to_string()];
    let record = RecordData {
        text: Some("reply under a quote of someone else".to_string()),
        reply: Some(ReplyData {
            parent_uri: Some(format!("at://{}/app.bsky.feed.post/parent", ACTOR_A)),
        }),
        embed: Some(EventEmbed {
            embed_type: Some("app.bsky.embed.record".to_string()),
            record: Some(EmbedRecord {
                uri: Some("at://did:plc:zzz/app.bsky.feed.post/q".to_string()),
                inner_uri: None,
            }),
        }),
        facets: Vec::new(),
        subject_uri: None,
        subject_actor: None,
    };
    let ev = event("app.bsky.feed.post/q2", ACTOR_B, record);
    let (kind, dids) = classify_event(&ev, &users).expect("classified");
    assert_eq!(kind, NotificationType::Reply);
    assert_eq!(dids, vec![ACTOR_A.to_string()]);
}

#[test]
fn relevance_is_structural_only() {
    // A plain-text "@handle" with no mention facet, reply parent or quote
    // embed is not a structural match: relevance uses the classification
    // predicates only.
    let users = vec!["alice.bsky.social".to_string()];
    let record = RecordData {
        text: Some("shoutout to @alice today".to_string()),
        reply: None,
        facets: Vec::new(),
        embed: None,
        subject_uri: None,
        subject_actor: None,
    };
    let ev = event("app.bsky.feed.post/t1", ACTOR_B, record);
    assert!(!is_event_relevant_to_users(&ev, &users));
}

#[test]
fn backpressure_policy_matches_priorities() {
    assert_eq!(backpressure_action(NotificationType::Like, 5), ChannelAction::Enqueue);
    assert_eq!(backpressure_action(NotificationType::Like, 0), ChannelAction::DropLowPriority);
    assert_eq!(backpressure_action(NotificationType::Quote, 0), ChannelAction::DropLowPriority);
    assert_eq!(backpressure_action(NotificationType::Repost, 0), ChannelAction::DropLowPriority);
    assert_eq!(backpressure_action(NotificationType::Mention, 0), ChannelAction::YieldThenEnqueue);
    assert_eq!(backpressure_action(NotificationType::Reply, 0), ChannelAction::YieldThenEnqueue);
    assert_eq!(backpressure_action(NotificationType::Follow, 0), ChannelAction::YieldThenEnqueue);
}

#[test]
fn content_for_unresolved_author_uses_did_tail() {
    let ev = event("app.bsky.feed.post/p1", ACTOR_B, mention_record());
    let empty_map: Vec<(String, String)> = Vec::new();
    let (title, body, uri) =
        create_notification_content(&empty_map, NotificationType::Mention, &ev, None);
    assert_eq!(title, "@bbb mentioned you");
    assert_eq!(body, "hey @a");
    assert_eq!(uri.as_deref(), Some("at://did:plc:bbb/app.bsky.feed.post/p1"));
}
