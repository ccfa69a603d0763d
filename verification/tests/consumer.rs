//! The firehose consumer's reconnect machine, op selection and frame
//! decisions, and the dispatcher's retry policy.

use bluesky_push_notifier::dispatch::{
    is_stale_token_signal, DispatchDecision, RetryState, SendOutcome, SenderStats,
};
use bluesky_push_notifier::firehose::{
    on_frame, op_processed, path_parts, relevant_ops, supported_collection, CommitOp,
    ConnectFailureAction, ConsumerState, Frame, FrameDecision,
};

fn op(action: &str, path: &str, cid: Option<&str>) -> CommitOp {
    CommitOp {
        action: action.to_string(),
        path: path.to_string(),
        cid: cid.map(|c| c.to_string()),
    }
}

#[test]
fn backoff_doubles_and_caps_then_goes_fatal() {
    let mut state = ConsumerState::new();
    let mut expected_sleep = 1u64;
    for attempt in 1..10u32 {
        match state.on_connect_failure() {
            ConnectFailureAction::Retry { sleep_secs } => {
                assert_eq!(sleep_secs, expected_sleep);
                assert_eq!(state.reconnect_attempts, attempt);
                expected_sleep = (expected_sleep * 2).min(60);
            },
            ConnectFailureAction::Fatal => panic!("fatal before the cap"),
        }
    }
    // The tenth consecutive failure reaches the cap and is fatal.
    assert_eq!(state.on_connect_failure(), ConnectFailureAction::Fatal);

    // A successfully processed commit resets the backoff.
    let mut state = ConsumerState::new();
    state.on_connect_failure();
    state.on_connect_failure();
    state.on_commit_processed();
    assert_eq!(state.reconnect_attempts, 0);
    assert_eq!(state.reconnect_delay_secs, 1);
}

#[test]
fn frame_decisions() {
    assert_eq!(
        on_frame(&Frame::Message { msg_type: Some("#commit".to_string()) }),
        FrameDecision::ProcessCommit
    );
    assert_eq!(
        on_frame(&Frame::Message { msg_type: Some("#info".to_string()) }),
        FrameDecision::SkipMessage
    );
    assert_eq!(on_frame(&Frame::Message { msg_type: None }), FrameDecision::SkipMessage);
    assert_eq!(on_frame(&Frame::ErrorFrame), FrameDecision::Reconnect);
}

#[test]
fn op_selection_by_action_collection_and_cid() {
    let ops = vec![
        op("create", "app.bsky.feed.post/r1", Some("cid1")),
        op("delete", "app.bsky.feed.post/r2", Some("cid2")),
        op("update", "app.bsky.feed.like/r3", Some("cid3")),
        op("create", "app.bsky.actor.profile/self", Some("cid4")),
        op("create", "app.bsky.feed.repost/r5", None),
        op("create", "nopath", Some("cid6")),
        op("create", "app.bsky.graph.follow/r7", Some("cid7")),
    ];
    assert!(op_processed(&ops[0]));
    assert!(!op_processed(&ops[1]));
    assert!(op_processed(&ops[2]));
    assert!(!op_processed(&ops[3]));
    assert!(!op_processed(&ops[4]));
    assert!(!op_processed(&ops[5]));
    assert!(op_processed(&ops[6]));
    assert_eq!(relevant_ops(&ops), vec![0usize, 2, 6]);
}

#[test]
fn path_splitting() {
    let (collection, rkey) = path_parts("app.bsky.feed.post/3kabc").unwrap();
    assert_eq!(collection, "app.bsky.feed.post");
    assert_eq!(rkey, "3kabc");
    assert!(path_parts("noslash").is_none());
    assert!(supported_collection("app.bsky.feed.post"));
    assert!(!supported_collection("app.bsky.actor.profile"));
}

#[test]
fn gateway_error_response_is_final() {
    // A non-2xx gateway response is never retried; the payload is
    // dropped at once and the outcome still drives the stale-token check.
    let mut retry = RetryState::new();
    assert_eq!(
        retry.on_send_outcome(&SendOutcome::ErrorResponse { status: 500 }),
        DispatchDecision::GiveUp
    );
    let mut retry = RetryState::new();
    assert_eq!(
        retry.on_send_outcome(&SendOutcome::ErrorResponse { status: 410 }),
        DispatchDecision::GiveUp
    );
    assert!(is_stale_token_signal(&SendOutcome::ErrorResponse { status: 410 }));
}

#[test]
fn dispatch_retries_then_gives_up() {
    let mut retry = RetryState::new();
    assert_eq!(
        retry.on_send_outcome(&SendOutcome::TransportError),
        DispatchDecision::RetryAfter { delay_ms: 100 }
    );
    assert_eq!(
        retry.on_send_outcome(&SendOutcome::TransportError),
        DispatchDecision::RetryAfter { delay_ms: 200 }
    );
    assert_eq!(retry.on_send_outcome(&SendOutcome::TransportError), DispatchDecision::GiveUp);

    let mut ok = RetryState::new();
    assert_eq!(
        ok.on_send_outcome(&SendOutcome::Accepted { status: 200 }),
        DispatchDecision::Done
    );
    // Non-2xx accepted responses are not retried either.
    assert_eq!(
        ok.on_send_outcome(&SendOutcome::Accepted { status: 500 }),
        DispatchDecision::Done
    );
}

#[test]
fn stale_token_signal_is_410_only() {
    assert!(is_stale_token_signal(&SendOutcome::ErrorResponse { status: 410 }));
    assert!(!is_stale_token_signal(&SendOutcome::ErrorResponse { status: 400 }));
    assert!(!is_stale_token_signal(&SendOutcome::Accepted { status: 410 }));
    assert!(!is_stale_token_signal(&SendOutcome::TransportError));
}

#[test]
fn sender_stats_log_every_ten() {
    let mut stats = SenderStats::new();
    for i in 1..=10u64 {
        if i % 2 == 0 {
            stats.record_failure();
        } else {
            stats.record_success();
        }
        assert_eq!(stats.should_log(), i % 10 == 0);
    }
    assert_eq!(stats.processed, 10);
    assert_eq!(stats.succeeded, 5);
    assert_eq!(stats.failed, 5);
}
