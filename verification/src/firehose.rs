//! The firehose consumer's decision core: which ops of a commit become
//! events, how the reconnect loop backs off and when it gives up, and
//! what each decoded frame means for the loop. The websocket connection,
//! block reads and record decoding live in the embedding program.

use vstd::prelude::*;

use crate::models::{BlueskyEvent, RecordData};
use crate::strutil::{first_ix, lemma_first_ix, prefix_before_first, str_eq};

verus! {

use vstd::string::StrSliceExecFns;

/// One repository operation of a commit.
#[derive(Debug, Clone, PartialEq)]
pub struct CommitOp {
    pub action: String,
    pub path: String,
    pub cid: Option<String>,
}

/// A decoded commit: sequence number, repository (the acting actor), and
/// its ordered operations. The content-addressed block bundle stays with
/// the embedding program.
#[derive(Debug, Clone, PartialEq)]
pub struct CommitData {
    pub seq: u64,
    pub repo: String,
    pub ops: Vec<CommitOp>,
}

/// A decoded wire frame: a typed message, or an error frame.
#[derive(Debug, Clone, PartialEq)]
pub enum Frame {
    Message { msg_type: Option<String> },
    ErrorFrame,
}

/// The collection is one the pipeline handles.
pub open spec fn spec_supported_collection(c: Seq<char>) -> bool {
    ||| c == "app.bsky.feed.post"@
    ||| c == "app.bsky.feed.like"@
    ||| c == "app.bsky.graph.follow"@
    ||| c == "app.bsky.feed.repost"@
}

/// Whether the collection is one the pipeline handles.
pub fn supported_collection(c: &str) -> (r: bool)
    ensures
        r == spec_supported_collection(c@),
{
    str_eq(c, "app.bsky.feed.post") || str_eq(c, "app.bsky.feed.like") || str_eq(
        c,
        "app.bsky.graph.follow",
    ) || str_eq(c, "app.bsky.feed.repost")
}

/// The collection segment of an op path (before the first slash).
pub open spec fn spec_path_collection(path: Seq<char>) -> Seq<char> {
    path.take(first_ix(path, '/'))
}

/// The record-key segment of an op path (between the first slash and the
/// next one, or the end).
pub open spec fn spec_path_rkey(path: Seq<char>) -> Seq<char> {
    let rest = path.subrange(first_ix(path, '/') + 1, path.len() as int);
    rest.take(first_ix(rest, '/'))
}

/// Split an op path into collection and record key; paths with fewer
/// than two segments are skipped.
pub fn path_parts(path: &str) -> (r: Option<(String, String)>)
    ensures
        r is Some <==> first_ix(path@, '/') < path@.len(),
        r is Some ==> (r->0).0@ == spec_path_collection(path@) && (r->0).1@ == spec_path_rkey(
            path@,
        ),
{
    proof {
        lemma_first_ix(path@, '/');
    }
    let plen = path.unicode_len();
    let collection = prefix_before_first(path, '/');
    if collection.as_str().unicode_len() == plen {
        proof {
            assert(first_ix(path@, '/') == path@.len());
        }
        return None;
    }
    let clen = collection.as_str().unicode_len();
    let rest = path.substring_char(clen + 1, plen);
    let rkey = prefix_before_first(rest, '/');
    proof {
        assert(rest@ =~= path@.subrange(first_ix(path@, '/') + 1, path@.len() as int));
    }
    Some((collection, rkey))
}

/// The op yields an event: a create or update of a supported collection,
/// with a record reference to read.
pub open spec fn spec_op_processed(op: CommitOp) -> bool {
    &&& (op.action@ == "create"@ || op.action@ == "update"@)
    &&& first_ix(op.path@, '/') < op.path@.len()
    &&& spec_supported_collection(spec_path_collection(op.path@))
    &&& op.cid is Some
}

/// Whether one op of a commit yields an event.
pub fn op_processed(op: &CommitOp) -> (r: bool)
    ensures
        r == spec_op_processed(*op),
{
    if !(str_eq(op.action.as_str(), "create") || str_eq(op.action.as_str(), "update")) {
        return false;
    }
    match path_parts(op.path.as_str()) {
        Some(parts) => {
            let (collection, _rkey) = parts;
            supported_collection(collection.as_str()) && op.cid.is_some()
        },
        None => false,
    }
}

/// The indices of a commit's ops that yield events, in op order.
pub fn relevant_ops(ops: &Vec<CommitOp>) -> (r: Vec<usize>)
    ensures
        forall|m: int, n: int| 0 <= m < n < r@.len() ==> r@[m] < r@[n],
        forall|m: int|
            0 <= m < r@.len() ==> (#[trigger] r@[m]) < ops@.len() && spec_op_processed(
                ops@[r@[m] as int],
            ),
        forall|i: int|
            0 <= i < ops@.len() && spec_op_processed(#[trigger] ops@[i]) ==> exists|m: int|
                0 <= m < r@.len() && r@[m] == i,
{
    let mut r: Vec<usize> = Vec::new();
    let mut i: usize = 0;
    while i < ops.len()
        invariant
            0 <= i <= ops@.len(),
            forall|m: int, n: int| 0 <= m < n < r@.len() ==> r@[m] < r@[n],
            forall|m: int|
                0 <= m < r@.len() ==> (#[trigger] r@[m]) < i && spec_op_processed(
                    ops@[r@[m] as int],
                ),
            forall|k: int|
                0 <= k < i && spec_op_processed(#[trigger] ops@[k]) ==> exists|m: int|
                    0 <= m < r@.len() && r@[m] == k,
        decreases ops@.len() - i,
    {
        let ghost r_before = r@;
        if op_processed(&ops[i]) {
            r.push(i);
        }
        proof {
            assert forall|k: int|
                0 <= k < i + 1 && spec_op_processed(#[trigger] ops@[k]) implies exists|m: int|
                0 <= m < r@.len() && r@[m] == k by {
                if k < i {
                    let m = choose|m: int| 0 <= m < r_before.len() && (#[trigger] r_before[m]) == k;
                    assert(r@[m] == k);
                } else {
                    assert(r@[r@.len() - 1] == k);
                }
            }
        }
        i += 1;
    }
    r
}

/// Build the normalized event for one processed op; the record was
/// decoded by collection, and the content hash is rendered as a string.
pub fn build_event(
    action: &str,
    path: &str,
    cid: &str,
    author: &str,
    record: RecordData,
    timestamp: i64,
) -> (r: BlueskyEvent)
    ensures
        r.op@ == action@,
        r.path@ == path@,
        r.cid@ == cid@,
        r.author@ == author@,
        r.record == record,
        r.timestamp == timestamp,
{
    BlueskyEvent {
        op: action.to_owned(),
        path: path.to_owned(),
        cid: cid.to_owned(),
        author: author.to_owned(),
        record,
        timestamp,
    }
}

/// What the consumer loop does with one decoded frame: commits are
/// processed, other typed or untyped messages are skipped, and an error
/// frame breaks to the reconnect loop.
#[derive(Debug, Clone, Copy, PartialEq, Eq, Structural)]
pub enum FrameDecision {
    ProcessCommit,
    SkipMessage,
    Reconnect,
}

/// Decide what to do with one decoded frame.
pub fn on_frame(frame: &Frame) -> (r: FrameDecision)
    ensures
        r == FrameDecision::ProcessCommit <==> (frame matches Frame::Message { msg_type }
            && msg_type is Some && msg_type->0@ == "#commit"@),
        r == FrameDecision::Reconnect <==> frame is ErrorFrame,
{
    match frame {
        Frame::Message { msg_type } => {
            match msg_type {
                Some(t) => {
                    if str_eq(t.as_str(), "#commit") {
                        FrameDecision::ProcessCommit
                    } else {
                        FrameDecision::SkipMessage
                    }
                },
                None => FrameDecision::SkipMessage,
            }
        },
        Frame::ErrorFrame => FrameDecision::Reconnect,
    }
}

/// The reconnect state of the consumer: consecutive failed attempts and
/// the next backoff delay.
pub struct ConsumerState {
    pub reconnect_attempts: u32,
    pub reconnect_delay_secs: u64,
}

/// What a failed connection attempt leads to: sleep and retry, or give
/// up for good once the attempt cap is reached.
#[derive(Debug, Clone, Copy, PartialEq, Eq, Structural)]
pub enum ConnectFailureAction {
    Retry { sleep_secs: u64 },
    Fatal,
}

impl ConsumerState {
    /// Backoff delays never exceed the 60-second cap.
    pub open spec fn wf(&self) -> bool {
        1 <= self.reconnect_delay_secs <= 60
    }

    /// A fresh consumer: no failures yet, one-second initial backoff.
    pub fn new() -> (r: Self)
        ensures
            r.wf(),
            r.reconnect_attempts == 0,
            r.reconnect_delay_secs == 1,
    {
        ConsumerState { reconnect_attempts: 0, reconnect_delay_secs: 1 }
    }

    /// Record a failed connection attempt: the tenth consecutive failure
    /// is fatal; otherwise sleep the current delay and double it, capped
    /// at 60 seconds.
    pub fn on_connect_failure(&mut self) -> (r: ConnectFailureAction)
        requires
            old(self).wf(),
            old(self).reconnect_attempts < u32::MAX,
        ensures
            final(self).wf(),
            final(self).reconnect_attempts == old(self).reconnect_attempts + 1,
            (r == ConnectFailureAction::Fatal) == (old(self).reconnect_attempts + 1 >= 10),
            r == ConnectFailureAction::Fatal ==> final(self).reconnect_delay_secs == old(
                self,
            ).reconnect_delay_secs,
            r matches ConnectFailureAction::Retry { sleep_secs } ==> sleep_secs == old(
                self,
            ).reconnect_delay_secs && final(self).reconnect_delay_secs == (if old(
                self,
            ).reconnect_delay_secs * 2 <= 60 {
                old(self).reconnect_delay_secs * 2
            } else {
                60int
            }),
    {
        self.reconnect_attempts = self.reconnect_attempts + 1;
        if self.reconnect_attempts >= 10 {
            return ConnectFailureAction::Fatal;
        }
        let delay = self.reconnect_delay_secs;
        let doubled = delay * 2;
        self.reconnect_delay_secs = if doubled <= 60 {
            doubled
        } else {
            60u64
        };
        ConnectFailureAction::Retry { sleep_secs: delay }
    }

    /// A successfully processed commit resets the backoff.
    pub fn on_commit_processed(&mut self)
        ensures
            final(self).wf(),
            final(self).reconnect_attempts == 0,
            final(self).reconnect_delay_secs == 1,
    {
        self.reconnect_attempts = 0;
        self.reconnect_delay_secs = 1;
    }
}

} // verus!
