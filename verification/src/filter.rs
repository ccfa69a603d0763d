//! The event classifier and filter: decides which events are worth a
//! notification and to whom. Classification, recipient extraction,
//! relationship filtering, preference gating, content construction and
//! backpressure policy are all verified; the embedding program only
//! moves values between the channels and this logic.

use vstd::prelude::*;

use crate::models::{
    BlueskyEvent, EmbedRecord, FacetFeature, NotificationPayload, NotificationPreference,
    NotificationType, RecordData, UserDevice, spec_pref_allows,
};
use crate::strutil::{
    contains_seq, lemma_string_filter_distinct, seq_contains_str, str_contains, str_eq,
    vec_contains_str, views_distinct,
};

verus! {

/// The path names the post collection.
pub open spec fn path_is_post(p: Seq<char>) -> bool {
    contains_seq(p, "app.bsky.feed.post"@)
}

/// The path names the like collection.
pub open spec fn path_is_like(p: Seq<char>) -> bool {
    contains_seq(p, "app.bsky.feed.like"@)
}

/// The path names the repost collection.
pub open spec fn path_is_repost(p: Seq<char>) -> bool {
    contains_seq(p, "app.bsky.feed.repost"@)
}

/// The path names the follow collection.
pub open spec fn path_is_follow(p: Seq<char>) -> bool {
    contains_seq(p, "app.bsky.graph.follow"@)
}

/// The feature is an inline mention of the given actor.
pub open spec fn feature_is_mention_of(f: FacetFeature, d: Seq<char>) -> bool {
    &&& f.feature_type is Some
    &&& f.feature_type->0@ == "app.bsky.richtext.facet#mention"@
    &&& f.did is Some
    &&& f.did->0@ == d
}

/// Some facet feature of the record mentions the given actor.
pub open spec fn record_mentions(rec: RecordData, d: Seq<char>) -> bool {
    exists|i: int, j: int|
        0 <= i < rec.facets@.len() && 0 <= j < rec.facets@[i].features@.len()
            && feature_is_mention_of(rec.facets@[i].features@[j], d)
}

/// The embedded record reference points at content of the given actor,
/// in either the nested or the flat layout.
pub open spec fn embed_record_quotes(er: EmbedRecord, d: Seq<char>) -> bool {
    ||| (er.inner_uri is Some && contains_seq(er.inner_uri->0@, d))
    ||| (er.uri is Some && contains_seq(er.uri->0@, d))
}

/// The record carries a quote embed: a record reference, or an embed
/// typed as a record (with or without media).
pub open spec fn spec_has_quote_embed(rec: RecordData) -> bool {
    rec.embed is Some && {
        let e = rec.embed->0;
        ||| e.record is Some
        ||| (e.embed_type is Some && (e.embed_type->0@ == "app.bsky.embed.record"@
            || e.embed_type->0@ == "app.bsky.embed.recordWithMedia"@))
    }
}

/// The record quotes content of the given actor.
pub open spec fn record_quotes(rec: RecordData, d: Seq<char>) -> bool {
    rec.embed is Some && rec.embed->0.record is Some && embed_record_quotes(
        rec.embed->0.record->0,
        d,
    )
}

/// The reply parent URI of the record, when one is present.
pub open spec fn spec_reply_parent_uri(rec: RecordData) -> Option<Seq<char>> {
    if rec.reply is Some && rec.reply->0.parent_uri is Some {
        Some(rec.reply->0.parent_uri->0@)
    } else {
        None
    }
}

/// Whether a post has any quote embed.
pub fn has_quote_embed(record: &RecordData) -> (r: bool)
    ensures
        r == spec_has_quote_embed(*record),
{
    match &record.embed {
        Some(embed) => {
            if embed.record.is_some() {
                return true;
            }
            match &embed.embed_type {
                Some(t) => {
                    str_eq(t.as_str(), "app.bsky.embed.record") || str_eq(
                        t.as_str(),
                        "app.bsky.embed.recordWithMedia",
                    )
                },
                None => false,
            }
        },
        None => false,
    }
}

/// Whether an embedded record quotes any of the given actors.
pub fn is_quote_of_users(record_obj: &EmbedRecord, users: &Vec<String>) -> (r: bool)
    ensures
        r == exists|k: int|
            0 <= k < users@.len() && embed_record_quotes(*record_obj, (#[trigger] users@[k])@),
{
    let mut k: usize = 0;
    while k < users.len()
        invariant
            0 <= k <= users@.len(),
            forall|j: int|
                0 <= j < k ==> !embed_record_quotes(*record_obj, (#[trigger] users@[j])@),
        decreases users@.len() - k,
    {
        let matched = match &record_obj.inner_uri {
            Some(uri) => str_contains(uri.as_str(), users[k].as_str()),
            None => false,
        } || match &record_obj.uri {
            Some(uri) => str_contains(uri.as_str(), users[k].as_str()),
            None => false,
        };
        if matched {
            return true;
        }
        k += 1;
    }
    false
}

/// Collect the actors whose content the record's embed quotes, without
/// duplicates, into `result`.
pub fn extract_quoted_dids(record_obj: &EmbedRecord, registered_users: &Vec<String>, result: &mut Vec<String>)
    requires
        forall|p: int, q: int|
            0 <= p < q < old(result)@.len() ==> (#[trigger] old(result)@[p])@ != (#[trigger] old(result)@[q])@,
    ensures
        forall|p: int, q: int|
            0 <= p < q < final(result)@.len() ==> (#[trigger] final(result)@[p])@ != (
            #[trigger] final(result)@[q])@,
        forall|m: int|
            0 <= m < final(result)@.len() ==> seq_contains_str(old(result)@, (#[trigger] final(result)@[m])@) || (seq_contains_str(registered_users@, final(result)@[m]@)
                && embed_record_quotes(*record_obj, final(result)@[m]@)),
        forall|k: int|
            0 <= k < registered_users@.len() && embed_record_quotes(
                *record_obj,
                (#[trigger] registered_users@[k])@,
            ) ==> seq_contains_str(final(result)@, registered_users@[k]@),
        forall|m: int|
            0 <= m < old(result)@.len() ==> seq_contains_str(final(result)@, (#[trigger] old(result)@[m])@),
    {
    let mut k: usize = 0;
    while k < registered_users.len()
        invariant
            0 <= k <= registered_users@.len(),
            forall|p: int, q: int|
                0 <= p < q < result@.len() ==> (#[trigger] result@[p])@ != (
                #[trigger] result@[q])@,
            forall|m: int|
                0 <= m < result@.len() ==> seq_contains_str(old(result)@, (#[trigger] result@[m])@)
                    || (seq_contains_str(registered_users@, result@[m]@) && embed_record_quotes(
                    *record_obj,
                    result@[m]@,
                )),
            forall|j: int|
                0 <= j < k && embed_record_quotes(
                    *record_obj,
                    (#[trigger] registered_users@[j])@,
                ) ==> seq_contains_str(result@, registered_users@[j]@),
            forall|m: int|
                0 <= m < old(result)@.len() ==> seq_contains_str(result@, (#[trigger] old(result)@[m])@),
        decreases registered_users@.len() - k,
    {
        let user = &registered_users[k];
        let matched = match &record_obj.inner_uri {
            Some(uri) => str_contains(uri.as_str(), user.as_str()),
            None => false,
        } || match &record_obj.uri {
            Some(uri) => str_contains(uri.as_str(), user.as_str()),
            None => false,
        };
        let ghost result_before = result@;
        if matched && !vec_contains_str(result, user.as_str()) {
            result.push(user.clone());
            proof {
                assert(result@[result@.len() - 1]@ == registered_users@[k as int]@);
                assert(seq_contains_str(result@, registered_users@[k as int]@));
                assert forall|m: int|
                    0 <= m < result_before.len() implies seq_contains_str(
                    result@,
                    (#[trigger] result_before[m])@,
                ) by {
                    assert(result@[m]@ == result_before[m]@);
                }
            }
        } else {
            proof {
                if matched {
                    assert(seq_contains_str(result@, registered_users@[k as int]@));
                }
            }
        }
        proof {
            assert forall|j: int|
                0 <= j < k + 1 && embed_record_quotes(
                    *record_obj,
                    (#[trigger] registered_users@[j])@,
                ) implies seq_contains_str(result@, registered_users@[j]@) by {
                if j < k {
                    let w = choose|w: int|
                        0 <= w < result_before.len() && (#[trigger] result_before[w])@
                            == registered_users@[j]@;
                    assert(result@[w]@ == registered_users@[j]@);
                }
            }
            assert forall|m: int|
                0 <= m < old(result)@.len() implies seq_contains_str(result@, (#[trigger] old(result)@[m])@) by {
                let w = choose|w: int|
                    0 <= w < result_before.len() && (#[trigger] result_before[w])@ == old(result)@[m]@;
                assert(result@[w]@ == old(result)@[m]@);
            }
        }
        k += 1;
    }
}

/// The actors among the registered set whose content the post quotes.
pub fn find_quoted_users(event: &BlueskyEvent, registered_users: &Vec<String>) -> (r: Vec<String>)
    ensures
        forall|p: int, q: int|
            0 <= p < q < r@.len() ==> (#[trigger] r@[p])@ != (#[trigger] r@[q])@,
        forall|m: int|
            0 <= m < r@.len() ==> seq_contains_str(registered_users@, (#[trigger] r@[m])@)
                && record_quotes(event.record, r@[m]@),
        forall|k: int|
            0 <= k < registered_users@.len() && record_quotes(
                event.record,
                (#[trigger] registered_users@[k])@,
            ) ==> seq_contains_str(r@, registered_users@[k]@),
{
    let mut quoted_dids: Vec<String> = Vec::new();
    match &event.record.embed {
        Some(embed) => {
            match &embed.record {
                Some(record_obj) => {
                    extract_quoted_dids(record_obj, registered_users, &mut quoted_dids);
                },
                None => {},
            }
        },
        None => {},
    }
    quoted_dids
}

/// The registered actors mentioned by the record's facets, without
/// duplicates.
pub fn extract_mention_dids(event: &BlueskyEvent, registered_users: &Vec<String>) -> (r: Vec<
    String,
>)
    ensures
        forall|p: int, q: int|
            0 <= p < q < r@.len() ==> (#[trigger] r@[p])@ != (#[trigger] r@[q])@,
        forall|m: int|
            0 <= m < r@.len() ==> seq_contains_str(registered_users@, (#[trigger] r@[m])@)
                && record_mentions(event.record, r@[m]@),
        forall|k: int|
            0 <= k < registered_users@.len() && record_mentions(
                event.record,
                (#[trigger] registered_users@[k])@,
            ) ==> seq_contains_str(r@, registered_users@[k]@),
{
    let mut mentioned: Vec<String> = Vec::new();
    let mut i: usize = 0;
    while i < event.record.facets.len()
        invariant
            0 <= i <= event.record.facets@.len(),
            forall|p: int, q: int|
                0 <= p < q < mentioned@.len() ==> (#[trigger] mentioned@[p])@ != (
                #[trigger] mentioned@[q])@,
            forall|m: int|
                0 <= m < mentioned@.len() ==> seq_contains_str(
                    registered_users@,
                    (#[trigger] mentioned@[m])@,
                ) && record_mentions(event.record, mentioned@[m]@),
            forall|fi: int, fj: int|
                0 <= fi < i && 0 <= fj < event.record.facets@[fi].features@.len() && is_listed_mention(
                    event.record.facets@[fi].features@[fj],
                    registered_users@,
                ) ==> seq_contains_str(
                    mentioned@,
                    (#[trigger] event.record.facets@[fi].features@[fj]).did->0@,
                ),
        decreases event.record.facets@.len() - i,
    {
        let features = &event.record.facets[i].features;
        let mut j: usize = 0;
        while j < features.len()
            invariant
                0 <= i < event.record.facets@.len(),
                0 <= j <= features@.len(),
                features@ == event.record.facets@[i as int].features@,
                forall|p: int, q: int|
                    0 <= p < q < mentioned@.len() ==> (#[trigger] mentioned@[p])@ != (
                    #[trigger] mentioned@[q])@,
                forall|m: int|
                    0 <= m < mentioned@.len() ==> seq_contains_str(
                        registered_users@,
                        (#[trigger] mentioned@[m])@,
                    ) && record_mentions(event.record, mentioned@[m]@),
                forall|fi: int, fj: int|
                    0 <= fi < i && 0 <= fj < event.record.facets@[fi].features@.len() && is_listed_mention(
                        event.record.facets@[fi].features@[fj],
                        registered_users@,
                    ) ==> seq_contains_str(
                        mentioned@,
                        (#[trigger] event.record.facets@[fi].features@[fj]).did->0@,
                    ),
                forall|fj: int|
                    0 <= fj < j && is_listed_mention(
                        event.record.facets@[i as int].features@[fj],
                        registered_users@,
                    ) ==> seq_contains_str(
                        mentioned@,
                        (#[trigger] event.record.facets@[i as int].features@[fj]).did->0@,
                    ),
            decreases features@.len() - j,
        {
            let feature = &features[j];
            proof {
                assert(*feature == event.record.facets@[i as int].features@[j as int]);
            }
            let is_mention = match &feature.feature_type {
                Some(t) => str_eq(t.as_str(), "app.bsky.richtext.facet#mention"),
                None => false,
            };
            let ghost mentioned_before = mentioned@;
            if is_mention {
                match &feature.did {
                    Some(did) => {
                        proof {
                            assert(feature_is_mention_of(*feature, did@));
                        }
                        if vec_contains_str(registered_users, did.as_str()) && !vec_contains_str(
                            &mentioned,
                            did.as_str(),
                        ) {
                            mentioned.push(did.clone());
                            proof {
                                let n = mentioned@.len() - 1;
                                assert(mentioned@[n]@ == did@);
                                assert(feature_is_mention_of(
                                    event.record.facets@[i as int].features@[j as int],
                                    did@,
                                ));
                                assert(record_mentions(event.record, did@));
                            }
                        }
                    },
                    None => {},
                }
            }
            proof {
                lemma_mentions_step(
                    mentioned_before,
                    mentioned@,
                    event.record.facets@,
                    registered_users@,
                    i as int,
                    j as int,
                );
            }
            j += 1;
        }
        i += 1;
    }
    mentioned
}

/// The actors whose identifier the given URI contains.
pub open spec fn pred_contains(uri: Seq<char>) -> spec_fn(String) -> bool {
    |u: String| contains_seq(uri, u@)
}

/// The actors equal to the given subject.
pub open spec fn pred_eq(subject: Seq<char>) -> spec_fn(String) -> bool {
    |u: String| subject == u@
}

/// The registered actors the event targets, by collection: for follows
/// the subject actor itself; for likes and reposts the actors named in
/// the subject URI; for posts the actors named in the reply parent URI.
pub open spec fn spec_extract_target_dids(event: BlueskyEvent, users: Seq<String>) -> Seq<String> {
    let rec = event.record;
    if path_is_follow(event.path@) {
        if rec.subject_actor is Some {
            users.filter(pred_eq(rec.subject_actor->0@))
        } else {
            Seq::empty()
        }
    } else if path_is_like(event.path@) || path_is_repost(event.path@) {
        if rec.subject_uri is Some {
            users.filter(pred_contains(rec.subject_uri->0@))
        } else {
            Seq::empty()
        }
    } else if path_is_post(event.path@) {
        if spec_reply_parent_uri(rec) is Some {
            users.filter(pred_contains(spec_reply_parent_uri(rec)->0))
        } else {
            Seq::empty()
        }
    } else {
        Seq::empty()
    }
}

/// The listed actors whose identifier the URI contains, in list order.
fn filter_users_by_contains(users: &Vec<String>, uri: &str) -> (r: Vec<String>)
    ensures
        r@ == users@.filter(pred_contains(uri@)),
{
    let ghost pred = pred_contains(uri@);
    let mut r: Vec<String> = Vec::new();
    let mut i: usize = 0;
    proof {
        reveal(Seq::filter);
        assert(users@.take(0int).filter(pred) =~= Seq::<String>::empty());
    }
    while i < users.len()
        invariant
            0 <= i <= users@.len(),
            r@ == users@.take(i as int).filter(pred),
            pred == pred_contains(uri@),
        decreases users@.len() - i,
    {
        proof {
            reveal(Seq::filter);
            assert(users@.take(i + 1).drop_last() =~= users@.take(i as int));
            assert(users@.take(i + 1).last() == users@[i as int]);
        }
        if str_contains(uri, users[i].as_str()) {
            r.push(users[i].clone());
        }
        i += 1;
    }
    proof {
        assert(users@.take(users@.len() as int) =~= users@);
    }
    r
}

/// The listed actors equal to the subject, in list order.
fn filter_users_by_eq(users: &Vec<String>, subject: &str) -> (r: Vec<String>)
    ensures
        r@ == users@.filter(pred_eq(subject@)),
{
    let ghost pred = pred_eq(subject@);
    let mut r: Vec<String> = Vec::new();
    let mut i: usize = 0;
    proof {
        reveal(Seq::filter);
        assert(users@.take(0int).filter(pred) =~= Seq::<String>::empty());
    }
    while i < users.len()
        invariant
            0 <= i <= users@.len(),
            r@ == users@.take(i as int).filter(pred),
            pred == pred_eq(subject@),
        decreases users@.len() - i,
    {
        proof {
            reveal(Seq::filter);
            assert(users@.take(i + 1).drop_last() =~= users@.take(i as int));
            assert(users@.take(i + 1).last() == users@[i as int]);
        }
        if str_eq(subject, users[i].as_str()) {
            r.push(users[i].clone());
        }
        i += 1;
    }
    proof {
        assert(users@.take(users@.len() as int) =~= users@);
    }
    r
}

/// The registered actors the event targets (follow subject, like/repost
/// subject URI, or reply parent URI).
pub fn extract_target_dids(event: &BlueskyEvent, registered_users: &Vec<String>) -> (r: Vec<
    String,
>)
    ensures
        r@ == spec_extract_target_dids(*event, registered_users@),
{
    let path = event.path.as_str();
    if str_contains(path, "app.bsky.graph.follow") {
        match &event.record.subject_actor {
            Some(subject) => filter_users_by_eq(registered_users, subject.as_str()),
            None => Vec::new(),
        }
    } else if str_contains(path, "app.bsky.feed.like") || str_contains(
        path,
        "app.bsky.feed.repost",
    ) {
        match &event.record.subject_uri {
            Some(uri) => filter_users_by_contains(registered_users, uri.as_str()),
            None => Vec::new(),
        }
    } else if str_contains(path, "app.bsky.feed.post") {
        match &event.record.reply {
            Some(reply) => match &reply.parent_uri {
                Some(uri) => filter_users_by_contains(registered_users, uri.as_str()),
                None => Vec::new(),
            },
            None => Vec::new(),
        }
    } else {
        Vec::new()
    }
}

/// Distinct registered actors extract to distinct targets: each branch
/// of the target extraction is a filter of the registered list.
pub proof fn lemma_extract_target_distinct(event: BlueskyEvent, users: Seq<String>)
    requires
        views_distinct(users),
    ensures
        views_distinct(spec_extract_target_dids(event, users)),
{
    let rec = event.record;
    if path_is_follow(event.path@) {
        if rec.subject_actor is Some {
            lemma_string_filter_distinct(users, pred_eq(rec.subject_actor->0@));
        }
    } else if path_is_like(event.path@) || path_is_repost(event.path@) {
        if rec.subject_uri is Some {
            lemma_string_filter_distinct(users, pred_contains(rec.subject_uri->0@));
        }
    } else if path_is_post(event.path@) {
        if spec_reply_parent_uri(rec) is Some {
            lemma_string_filter_distinct(users, pred_contains(spec_reply_parent_uri(rec)->0));
        }
    }
}

/// The kind of notification an event yields, if any, following the fixed
/// precedence: for posts, quote first, then reply, then mention; likes,
/// follows and reposts notify the actors their subject targets.
pub open spec fn spec_classified_kind(event: BlueskyEvent, users: Seq<String>) -> Option<
    NotificationType,
> {
    let rec = event.record;
    if path_is_post(event.path@) {
        if spec_has_quote_embed(rec) && (exists|k: int|
            0 <= k < users.len() && record_quotes(rec, (#[trigger] users[k])@)) {
            Some(NotificationType::Quote)
        } else if rec.reply is Some && spec_extract_target_dids(event, users).len() > 0 {
            Some(NotificationType::Reply)
        } else if exists|k: int|
            0 <= k < users.len() && record_mentions(rec, (#[trigger] users[k])@) {
            Some(NotificationType::Mention)
        } else {
            None
        }
    } else if path_is_like(event.path@) {
        if spec_extract_target_dids(event, users).len() > 0 {
            Some(NotificationType::Like)
        } else {
            None
        }
    } else if path_is_follow(event.path@) {
        if spec_extract_target_dids(event, users).len() > 0 {
            Some(NotificationType::Follow)
        } else {
            None
        }
    } else if path_is_repost(event.path@) {
        if spec_extract_target_dids(event, users).len() > 0 {
            Some(NotificationType::Repost)
        } else {
            None
        }
    } else {
        None
    }
}

/// An actor the classified event notifies: for quotes and mentions a
/// registered actor the record quotes or mentions; otherwise an actor of
/// the extracted target list.
pub open spec fn spec_kind_recipient(
    event: BlueskyEvent,
    users: Seq<String>,
    kind: NotificationType,
    d: Seq<char>,
) -> bool {
    match kind {
        NotificationType::Quote => seq_contains_str(users, d) && record_quotes(event.record, d),
        NotificationType::Mention => seq_contains_str(users, d) && record_mentions(event.record, d),
        _ => seq_contains_str(spec_extract_target_dids(event, users), d),
    }
}

/// Classify one event: its notification kind and the recipients, or
/// nothing when no registered actor is owed a notification.
pub fn classify_event(event: &BlueskyEvent, registered_users: &Vec<String>) -> (r: Option<
    (NotificationType, Vec<String>),
>)
    ensures
        r is Some <==> spec_classified_kind(*event, registered_users@) is Some,
        r is Some ==> {
            &&& spec_classified_kind(*event, registered_users@) == Some((r->0).0)
            &&& (r->0).1@.len() > 0
            &&& forall|m: int|
                0 <= m < (r->0).1@.len() ==> spec_kind_recipient(
                    *event,
                    registered_users@,
                    (r->0).0,
                    (#[trigger] (r->0).1@[m])@,
                )
            &&& forall|k: int|
                0 <= k < registered_users@.len() && spec_kind_recipient(
                    *event,
                    registered_users@,
                    (r->0).0,
                    (#[trigger] registered_users@[k])@,
                ) ==> seq_contains_str((r->0).1@, registered_users@[k]@)
            &&& ((r->0).0 != NotificationType::Quote && (r->0).0 != NotificationType::Mention)
                ==> (r->0).1@ == spec_extract_target_dids(*event, registered_users@)
            &&& views_distinct(registered_users@) ==> views_distinct((r->0).1@)
        },
{
    let path = event.path.as_str();
    if str_contains(path, "app.bsky.feed.post") {
        let is_quote = has_quote_embed(&event.record);
        if is_quote {
            let quoted_dids = find_quoted_users(event, registered_users);
            if quoted_dids.len() > 0 {
                proof {
                    let d = quoted_dids@[0]@;
                    assert(seq_contains_str(registered_users@, d));
                    let k = choose|k: int|
                        0 <= k < registered_users@.len() && (#[trigger] registered_users@[k])@
                            == d;
                    assert(record_quotes(event.record, registered_users@[k]@));
                }
                proof {
                    assert(views_distinct(quoted_dids@));
                }
                return Some((NotificationType::Quote, quoted_dids));
            }
        }
        proof {
            assert(!(spec_has_quote_embed(event.record) && (exists|k: int|
                0 <= k < registered_users@.len() && record_quotes(
                    event.record,
                    (#[trigger] registered_users@[k])@,
                )))) by {
                if spec_has_quote_embed(event.record) {
                    if exists|k: int|
                        0 <= k < registered_users@.len() && record_quotes(
                            event.record,
                            (#[trigger] registered_users@[k])@,
                        ) {
                        let k = choose|k: int|
                            0 <= k < registered_users@.len() && record_quotes(
                                event.record,
                                (#[trigger] registered_users@[k])@,
                            );
                        assert(false);
                    }
                }
            }
        }
        if event.record.reply.is_some() {
            let relevant_dids = extract_target_dids(event, registered_users);
            if relevant_dids.len() > 0 {
                proof {
                    assert forall|m: int| 0 <= m < relevant_dids@.len() implies spec_kind_recipient(
                        *event,
                        registered_users@,
                        NotificationType::Reply,
                        (#[trigger] relevant_dids@[m])@,
                    ) by {
                        assert(seq_contains_str(
                            spec_extract_target_dids(*event, registered_users@),
                            relevant_dids@[m]@,
                        ));
                    }
                }
                proof {
                    if views_distinct(registered_users@) {
                        lemma_extract_target_distinct(*event, registered_users@);
                    }
                }
                return Some((NotificationType::Reply, relevant_dids));
            }
        }
        let mentioned_dids = extract_mention_dids(event, registered_users);
        if mentioned_dids.len() > 0 {
            proof {
                let d = mentioned_dids@[0]@;
                assert(seq_contains_str(registered_users@, d));
                let k = choose|k: int|
                    0 <= k < registered_users@.len() && (#[trigger] registered_users@[k])@ == d;
                assert(record_mentions(event.record, registered_users@[k]@));
            }
            proof {
                assert(views_distinct(mentioned_dids@));
            }
            Some((NotificationType::Mention, mentioned_dids))
        } else {
            None
        }
    } else if str_contains(path, "app.bsky.feed.like") {
        let relevant_dids = extract_target_dids(event, registered_users);
        if relevant_dids.len() > 0 {
            proof {
                if views_distinct(registered_users@) {
                    lemma_extract_target_distinct(*event, registered_users@);
                }
            }
            Some((NotificationType::Like, relevant_dids))
        } else {
            None
        }
    } else if str_contains(path, "app.bsky.graph.follow") {
        let relevant_dids = extract_target_dids(event, registered_users);
        if relevant_dids.len() > 0 {
            proof {
                if views_distinct(registered_users@) {
                    lemma_extract_target_distinct(*event, registered_users@);
                }
            }
            Some((NotificationType::Follow, relevant_dids))
        } else {
            None
        }
    } else if str_contains(path, "app.bsky.feed.repost") {
        let relevant_dids = extract_target_dids(event, registered_users);
        if relevant_dids.len() > 0 {
            proof {
                if views_distinct(registered_users@) {
                    lemma_extract_target_distinct(*event, registered_users@);
                }
            }
            Some((NotificationType::Repost, relevant_dids))
        } else {
            None
        }
    } else {
        None
    }
}

/// The feature is a mention of some listed actor.
pub open spec fn is_listed_mention(f: FacetFeature, users: Seq<String>) -> bool {
    f.feature_type is Some && f.feature_type->0@ == "app.bsky.richtext.facet#mention"@ && f.did
        is Some && seq_contains_str(users, f.did->0@)
}

/// Carrying the per-feature completeness facts across one inner step of
/// the mention scan.
proof fn lemma_mentions_step(
    before: Seq<String>,
    after: Seq<String>,
    facets: Seq<crate::models::Facet>,
    users: Seq<String>,
    i: int,
    j: int,
)
    requires
        0 <= i < facets.len(),
        0 <= j < facets[i].features@.len(),
        before.len() <= after.len(),
        forall|m: int| 0 <= m < before.len() ==> after[m] == before[m],
        is_listed_mention(facets[i].features@[j], users) ==> seq_contains_str(
            after,
            facets[i].features@[j].did->0@,
        ),
        forall|fi: int, fj: int|
            0 <= fi < i && 0 <= fj < facets[fi].features@.len() && is_listed_mention(
                facets[fi].features@[fj],
                users,
            ) ==> seq_contains_str(before, (#[trigger] facets[fi].features@[fj]).did->0@),
        forall|fj: int|
            0 <= fj < j && is_listed_mention(facets[i].features@[fj], users) ==> seq_contains_str(
                before,
                (#[trigger] facets[i].features@[fj]).did->0@,
            ),
    ensures
        forall|fi: int, fj: int|
            0 <= fi < i && 0 <= fj < facets[fi].features@.len() && is_listed_mention(
                facets[fi].features@[fj],
                users,
            ) ==> seq_contains_str(after, (#[trigger] facets[fi].features@[fj]).did->0@),
        forall|fj: int|
            0 <= fj < j + 1 && is_listed_mention(facets[i].features@[fj], users)
                ==> seq_contains_str(after, (#[trigger] facets[i].features@[fj]).did->0@),
{
    assert forall|fi: int, fj: int|
        0 <= fi < i && 0 <= fj < facets[fi].features@.len() && is_listed_mention(
            facets[fi].features@[fj],
            users,
        ) implies seq_contains_str(after, (#[trigger] facets[fi].features@[fj]).did->0@) by {
        let d = facets[fi].features@[fj].did->0@;
        let w = choose|w: int| 0 <= w < before.len() && (#[trigger] before[w])@ == d;
        assert(after[w]@ == d);
    }
    assert forall|fj: int|
        0 <= fj < j + 1 && is_listed_mention(facets[i].features@[fj], users) implies
        seq_contains_str(after, (#[trigger] facets[i].features@[fj]).did->0@) by {
        if fj < j {
            let d = facets[i].features@[fj].did->0@;
            let w = choose|w: int| 0 <= w < before.len() && (#[trigger] before[w])@ == d;
            assert(after[w]@ == d);
        }
    }
}

/// Structural relevance: the cheap pre-filter applied to a raw event
/// before any enrichment, matching the classification predicates against
/// the registered set. A follow is relevant only through its subject;
/// likes and reposts through their subject URI; posts through mention
/// facets, reply parents, or quote embeds.
pub open spec fn spec_event_relevant(event: BlueskyEvent, users: Seq<String>) -> bool {
    let rec = event.record;
    if path_is_follow(event.path@) {
        rec.subject_actor is Some && exists|k: int|
            0 <= k < users.len() && (#[trigger] users[k])@ == rec.subject_actor->0@
    } else {
        ||| ((path_is_like(event.path@) || path_is_repost(event.path@)) && rec.subject_uri is Some
            && exists|k: int|
            0 <= k < users.len() && contains_seq(rec.subject_uri->0@, (#[trigger] users[k])@))
        ||| (path_is_post(event.path@) && {
            ||| exists|k: int|
                0 <= k < users.len() && record_mentions(rec, (#[trigger] users[k])@)
            ||| (spec_reply_parent_uri(rec) is Some && exists|k: int|
                0 <= k < users.len() && contains_seq(
                    spec_reply_parent_uri(rec)->0,
                    (#[trigger] users[k])@,
                ))
            ||| (rec.embed is Some && rec.embed->0.record is Some && exists|k: int|
                0 <= k < users.len() && embed_record_quotes(
                    rec.embed->0.record->0,
                    (#[trigger] users[k])@,
                ))
        })
    }
}

/// Whether the raw event is structurally relevant to any listed actor.
pub fn is_event_relevant_to_users(event: &BlueskyEvent, users: &Vec<String>) -> (r: bool)
    ensures
        r == spec_event_relevant(*event, users@),
{
    let path = event.path.as_str();
    if str_contains(path, "app.bsky.graph.follow") {
        match &event.record.subject_actor {
            Some(subject) => {
                let mut k: usize = 0;
                while k < users.len()
                    invariant
                        path_is_follow(event.path@),
                        event.record.subject_actor == Some(*subject),
                        0 <= k <= users@.len(),
                        forall|j: int| 0 <= j < k ==> (#[trigger] users@[j])@ != subject@,
                    decreases users@.len() - k,
                {
                    if str_eq(subject.as_str(), users[k].as_str()) {
                        return true;
                    }
                    k += 1;
                }
                return false;
            },
            None => {
                return false;
            },
        }
    }
    if str_contains(path, "app.bsky.feed.like") || str_contains(path, "app.bsky.feed.repost") {
        match &event.record.subject_uri {
            Some(uri) => {
                let mut k: usize = 0;
                while k < users.len()
                    invariant
                        !path_is_follow(event.path@),
                        path_is_like(event.path@) || path_is_repost(event.path@),
                        event.record.subject_uri == Some(*uri),
                        0 <= k <= users@.len(),
                        forall|j: int|
                            0 <= j < k ==> !contains_seq(uri@, (#[trigger] users@[j])@),
                    decreases users@.len() - k,
                {
                    if str_contains(uri.as_str(), users[k].as_str()) {
                        return true;
                    }
                    k += 1;
                }
            },
            None => {},
        }
    }
    if str_contains(path, "app.bsky.feed.post") {
        let mut i: usize = 0;
        while i < event.record.facets.len()
            invariant
                !path_is_follow(event.path@),
                path_is_post(event.path@),
                0 <= i <= event.record.facets@.len(),
                forall|fi: int, fj: int, k: int|
                    0 <= fi < i && 0 <= fj < event.record.facets@[fi].features@.len() && 0 <= k
                        < users@.len() ==> !feature_is_mention_of(
                        #[trigger] event.record.facets@[fi].features@[fj],
                        (#[trigger] users@[k])@,
                    ),
            decreases event.record.facets@.len() - i,
        {
            let features = &event.record.facets[i].features;
            let mut j: usize = 0;
            while j < features.len()
                invariant
                    !path_is_follow(event.path@),
                    path_is_post(event.path@),
                    0 <= i < event.record.facets@.len(),
                    0 <= j <= features@.len(),
                    features@ == event.record.facets@[i as int].features@,
                    forall|fi: int, fj: int, k: int|
                        0 <= fi < i && 0 <= fj < event.record.facets@[fi].features@.len() && 0 <= k
                            < users@.len() ==> !feature_is_mention_of(
                            #[trigger] event.record.facets@[fi].features@[fj],
                            (#[trigger] users@[k])@,
                        ),
                    forall|fj: int, k: int|
                        0 <= fj < j && 0 <= k < users@.len() ==> !feature_is_mention_of(
                            #[trigger] event.record.facets@[i as int].features@[fj],
                            (#[trigger] users@[k])@,
                        ),
                decreases features@.len() - j,
            {
                let feature = &features[j];
                proof {
                    assert(*feature == event.record.facets@[i as int].features@[j as int]);
                }
                let is_mention = match &feature.feature_type {
                    Some(t) => str_eq(t.as_str(), "app.bsky.richtext.facet#mention"),
                    None => false,
                };
                if is_mention {
                    match &feature.did {
                        Some(did) => {
                            let mut k: usize = 0;
                            while k < users.len()
                                invariant
                                    !path_is_follow(event.path@),
                                    path_is_post(event.path@),
                                    0 <= i < event.record.facets@.len(),
                                    0 <= j < event.record.facets@[i as int].features@.len(),
                                    ({
                                        let f = event.record.facets@[i as int].features@[j as int];
                                        f.feature_type is Some && f.feature_type->0@
                                            == "app.bsky.richtext.facet#mention"@ && f.did
                                            == Some(*did)
                                    }),
                                    0 <= k <= users@.len(),
                                    forall|m: int|
                                        0 <= m < k ==> (#[trigger] users@[m])@ != did@,
                                decreases users@.len() - k,
                            {
                                if str_eq(did.as_str(), users[k].as_str()) {
                                    proof {
                                        assert(feature_is_mention_of(
                                            event.record.facets@[i as int].features@[j as int],
                                            users@[k as int]@,
                                        ));
                                        assert(record_mentions(event.record, users@[k as int]@));
                                    }
                                    return true;
                                }
                                k += 1;
                            }
                        },
                        None => {},
                    }
                }
                j += 1;
            }
            i += 1;
        }
        proof {
            assert forall|k: int|
                0 <= k < users@.len() implies !record_mentions(
                event.record,
                (#[trigger] users@[k])@,
            ) by {
                if record_mentions(event.record, users@[k]@) {
                    let (fi, fj) = choose|fi: int, fj: int|
                        0 <= fi < event.record.facets@.len() && 0 <= fj
                            < event.record.facets@[fi].features@.len() && feature_is_mention_of(
                            event.record.facets@[fi].features@[fj],
                            users@[k]@,
                        );
                    assert(false);
                }
            }
        }
        match &event.record.reply {
            Some(reply) => {
                match &reply.parent_uri {
                    Some(uri) => {
                        let mut k: usize = 0;
                        while k < users.len()
                            invariant
                                !path_is_follow(event.path@),
                                path_is_post(event.path@),
                                spec_reply_parent_uri(event.record) == Some(uri@),
                                0 <= k <= users@.len(),
                                forall|j: int|
                                    0 <= j < k ==> !contains_seq(uri@, (#[trigger] users@[j])@),
                            decreases users@.len() - k,
                        {
                            if str_contains(uri.as_str(), users[k].as_str()) {
                                return true;
                            }
                            k += 1;
                        }
                    },
                    None => {},
                }
            },
            None => {},
        }
        match &event.record.embed {
            Some(embed) => {
                match &embed.record {
                    Some(record_obj) => {
                        if is_quote_of_users(record_obj, users) {
                            return true;
                        }
                    },
                    None => {},
                }
            },
            None => {},
        }
    }
    false
}

/// The display name used in notification text: the resolved handle, or
/// the tail of the actor identifier after its last colon.
pub open spec fn spec_username(handle_map: Seq<(String, String)>, author: Seq<char>) -> Seq<char> {
    match crate::strutil::assoc_first(handle_map, author) {
        Some(h) => h,
        None => author.subrange(crate::strutil::last_ix(author, ':') + 1, author.len() as int),
    }
}

/// The notification title for a kind and display name.
pub open spec fn spec_title(kind: NotificationType, username: Seq<char>) -> Seq<char> {
    match kind {
        NotificationType::Like => "@"@ + username + " liked your post"@,
        NotificationType::Repost => "@"@ + username + " reposted your post"@,
        NotificationType::Reply => "@"@ + username + " replied to you"@,
        NotificationType::Mention => "@"@ + username + " mentioned you"@,
        NotificationType::Quote => "@"@ + username + " quoted your post"@,
        NotificationType::Follow => "New follower"@,
    }
}

/// The deep link of a post event, built from its author and record key.
pub open spec fn spec_post_deeplink(author: Seq<char>, path: Seq<char>) -> Seq<char> {
    "at://"@ + author + "/app.bsky.feed.post/"@ + path.subrange(
        crate::strutil::last_ix(path, '/') + 1,
        path.len() as int,
    )
}

/// The (title, body, deep link) of a notification: likes and reposts
/// carry the referenced post's resolved text and subject URI; replies,
/// mentions and quotes carry the event's own text and post link; follows
/// carry a follow message and the follower's profile link.
pub open spec fn spec_content(
    kind: NotificationType,
    event: BlueskyEvent,
    handle_map: Seq<(String, String)>,
    subject_text: Option<Seq<char>>,
) -> (Seq<char>, Seq<char>, Option<Seq<char>>) {
    let username = spec_username(handle_map, event.author@);
    let title = spec_title(kind, username);
    match kind {
        NotificationType::Like | NotificationType::Repost => {
            match event.record.subject_uri {
                Some(uri) => (
                    title,
                    match subject_text {
                        Some(t) => t,
                        None => Seq::empty(),
                    },
                    Some(uri@),
                ),
                None => (title, Seq::empty(), None),
            }
        },
        NotificationType::Follow => (
            title,
            "@"@ + username + " followed you"@,
            Some("at://"@ + event.author@),
        ),
        _ => {
            let text = match event.record.text {
                Some(t) => t@,
                None => Seq::empty(),
            };
            (title, text, Some(spec_post_deeplink(event.author@, event.path@)))
        },
    }
}

/// Prefix a display name with `@` and append a fixed suffix.
fn at_text(username: &str, suffix: &str) -> (r: String)
    ensures
        r@ == "@"@ + username@ + suffix@,
{
    let mut s = String::new();
    s.append("@");
    s.append(username);
    s.append(suffix);
    proof {
        assert(s@ =~= "@"@ + username@ + suffix@);
    }
    s
}

/// Title, body and deep-link URI of one notification. For likes and
/// reposts, `subject_text` is what the post resolver returned for the
/// subject URI (absent when resolution failed, giving an empty body).
pub fn create_notification_content(
    handle_map: &Vec<(String, String)>,
    notification_type: NotificationType,
    event: &BlueskyEvent,
    subject_text: Option<&String>,
) -> (r: (String, String, Option<String>))
    ensures
        ({
            let c = spec_content(
                notification_type,
                *event,
                handle_map@,
                match subject_text {
                    Some(t) => Some(t@),
                    None => None,
                },
            );
            &&& r.0@ == c.0
            &&& r.1@ == c.1
            &&& (r.2 is Some <==> c.2 is Some)
            &&& (r.2 is Some ==> r.2->0@ == c.2->0)
        }),
{
    let username = match crate::strutil::assoc_lookup(handle_map, event.author.as_str()) {
        Some(h) => h,
        None => crate::strutil::suffix_after_last(event.author.as_str(), ':'),
    };
    match notification_type {
        NotificationType::Like | NotificationType::Repost => {
            let title = if matches!(notification_type, NotificationType::Like) {
                at_text(username.as_str(), " liked your post")
            } else {
                at_text(username.as_str(), " reposted your post")
            };
            match &event.record.subject_uri {
                Some(uri) => {
                    let body = match subject_text {
                        Some(t) => t.clone(),
                        None => String::new(),
                    };
                    (title, body, Some(uri.clone()))
                },
                None => (title, String::new(), None),
            }
        },
        NotificationType::Follow => {
            let title = "New follower".to_owned();
            let body = at_text(username.as_str(), " followed you");
            let mut uri = String::new();
            uri.append("at://");
            uri.append(event.author.as_str());
            proof {
                assert(uri@ =~= "at://"@ + event.author@);
            }
            (title, body, Some(uri))
        },
        _ => {
            let title = match notification_type {
                NotificationType::Reply => at_text(username.as_str(), " replied to you"),
                NotificationType::Mention => at_text(username.as_str(), " mentioned you"),
                _ => at_text(username.as_str(), " quoted your post"),
            };
            let body = match &event.record.text {
                Some(t) => t.clone(),
                None => String::new(),
            };
            let rkey = crate::strutil::suffix_after_last(event.path.as_str(), '/');
            let mut uri = String::new();
            uri.append("at://");
            uri.append(event.author.as_str());
            uri.append("/app.bsky.feed.post/");
            uri.append(rkey.as_str());
            proof {
                assert(uri@ =~= spec_post_deeplink(event.author@, event.path@));
            }
            (title, body, Some(uri))
        },
    }
}

/// Some payload in the batch goes to this device token.
pub open spec fn token_in(out: Seq<NotificationPayload>, token: Seq<char>) -> bool {
    exists|m: int| 0 <= m < out.len() && out[m].device_token@ == token
}

proof fn lemma_token_in_extend(before: Seq<NotificationPayload>, after: Seq<NotificationPayload>, token: Seq<char>)
    requires
        token_in(before, token),
        before.len() <= after.len(),
        forall|m: int| 0 <= m < before.len() ==> after[m] == before[m],
    ensures
        token_in(after, token),
{
    let w = choose|w: int| 0 <= w < before.len() && (#[trigger] before[w]).device_token@ == token;
    assert(after[w].device_token@ == token);
}

/// Some recipient among the first `n` of the batch carries this actor.
pub open spec fn did_in_prefix(dids: Seq<String>, n: int, u: Seq<char>) -> bool {
    exists|d: int| 0 <= d < n && (#[trigger] dids[d])@ == u
}

/// Device tokens stay pairwise distinct under filtering.
proof fn lemma_device_filter_tokens_distinct(c: Seq<UserDevice>, pred: spec_fn(UserDevice) -> bool)
    requires
        forall|p: int, q: int| 0 <= p < q < c.len() ==> c[p].device_token@ != c[q].device_token@,
    ensures
        forall|p: int, q: int|
            0 <= p < q < c.filter(pred).len() ==> c.filter(pred)[p].device_token@ != c.filter(
                pred,
            )[q].device_token@,
    decreases c.len(),
{
    reveal(Seq::filter);
    if c.len() > 0 {
        lemma_device_filter_tokens_distinct(c.drop_last(), pred);
        let f = c.filter(pred);
        let fd = c.drop_last().filter(pred);
        assert forall|p: int, q: int|
            0 <= p < q < f.len() implies f[p].device_token@ != f[q].device_token@ by {
            if pred(c.last()) && q == f.len() - 1 {
                assert(f[p] == fd[p]);
                lemma_device_filter_subset(c.drop_last(), pred, p);
                let j = choose|j: int| 0 <= j < c.drop_last().len() && c.drop_last()[j] == fd[p];
                assert(c[j] == fd[p]);
                assert(c[j].device_token@ != c[c.len() - 1].device_token@);
            } else {
                assert(f[p] == fd[p] && f[q] == fd[q]);
            }
        }
    }
}

/// Every filtered device row comes from the original rows.
proof fn lemma_device_filter_subset(c: Seq<UserDevice>, pred: spec_fn(UserDevice) -> bool, i: int)
    requires
        0 <= i < c.filter(pred).len(),
    ensures
        exists|j: int| 0 <= j < c.len() && c[j] == c.filter(pred)[i],
    decreases c.len(),
{
    reveal(Seq::filter);
    if c.len() > 0 {
        let fd = c.drop_last().filter(pred);
        if i < fd.len() {
            lemma_device_filter_subset(c.drop_last(), pred, i);
            let j = choose|j: int| 0 <= j < c.drop_last().len() && c.drop_last()[j] == fd[i];
            assert(c[j] == c.filter(pred)[i]);
        } else {
            assert(c[c.len() - 1] == c.filter(pred)[i]);
        }
    }
}

/// The device row (with its preference row) lets this kind through.
pub open spec fn allowed_at(
    devs: Seq<UserDevice>,
    prefs: Seq<NotificationPreference>,
    d: UserDevice,
    kind: NotificationType,
) -> bool {
    exists|i: int| 0 <= i < devs.len() && devs[i] == d && spec_pref_allows(prefs[i], kind)
}

/// Process one event end to end: early-reject, classify, filter by
/// relationships, fan out to devices, gate on preferences, and build the
/// payloads. `subject_text` is the resolver's answer for a like/repost
/// subject. No payload reaches a recipient who muted or blocked the
/// author, nor a device whose flag for the kind is off; every allowed
/// (recipient, device) pair gets one, and every device gets at most one.
pub fn process_event(
    event: &BlueskyEvent,
    registered_users: &Vec<String>,
    rels: &crate::relationships::RelationshipManager,
    devices: &crate::devices::DeviceStore,
    handle_map: &Vec<(String, String)>,
    subject_text: Option<&String>,
    now_ms: u64,
) -> (out: Vec<NotificationPayload>)
    requires
        rels.wf(),
        devices.wf(),
        views_distinct(registered_users@),
    ensures
        !seq_contains_str(registered_users@, event.author@) && !spec_event_relevant(
            *event,
            registered_users@,
        ) ==> out@.len() == 0,
        spec_classified_kind(*event, registered_users@) is None ==> out@.len() == 0,
        forall|m: int, n: int|
            0 <= m < n < out@.len() ==> (#[trigger] out@[m]).device_token@ != (
            #[trigger] out@[n]).device_token@,
        spec_classified_kind(*event, registered_users@) is Some ==> ({
            let kind = spec_classified_kind(*event, registered_users@)->0;
            let c = spec_content(
                kind,
                *event,
                handle_map@,
                match subject_text {
                    Some(t) => Some(t@),
                    None => None,
                },
            );
            &&& forall|m: int|
                0 <= m < out@.len() ==> {
                    let p = #[trigger] out@[m];
                    &&& p.notification_type == kind
                    &&& spec_kind_recipient(*event, registered_users@, kind, p.user_did@)
                    &&& !rels.spec_is_muted(p.user_did@, event.author@, now_ms)
                    &&& !rels.spec_is_blocked(p.user_did@, event.author@, now_ms)
                    &&& exists|di: int|
                        0 <= di < devices.spec_devices().len() && (#[trigger] devices.spec_devices()[di]).did@
                            == p.user_did@ && devices.spec_devices()[di].device_token@
                            == p.device_token@ && spec_pref_allows(devices.spec_prefs()[di], kind)
                    &&& p.title@ == c.0
                    &&& p.body@ == c.1
                    &&& (p.data_uri is Some <==> c.2 is Some)
                    &&& (p.data_uri is Some ==> p.data_uri->0@ == c.2->0)
                    &&& (p.data_kind is Some <==> c.2 is Some)
                    &&& (p.data_kind is Some ==> p.data_kind->0@
                        == crate::models::spec_kind_name(kind))
                }
            &&& (seq_contains_str(registered_users@, event.author@) || spec_event_relevant(
                *event,
                registered_users@,
            )) ==> forall|k: int, di: int|
                0 <= k < registered_users@.len() && 0 <= di < devices.spec_devices().len()
                    && spec_kind_recipient(
                    *event,
                    registered_users@,
                    kind,
                    (#[trigger] registered_users@[k])@,
                ) && !rels.spec_is_muted(registered_users@[k]@, event.author@, now_ms)
                    && !rels.spec_is_blocked(registered_users@[k]@, event.author@, now_ms) && (
                #[trigger] devices.spec_devices()[di]).did@ == registered_users@[k]@
                    && spec_pref_allows(devices.spec_prefs()[di], kind) ==> token_in(
                    out@,
                    devices.spec_devices()[di].device_token@,
                )
        }),
{
    let mut out: Vec<NotificationPayload> = Vec::new();
    if !vec_contains_str(registered_users, event.author.as_str()) {
        if !is_event_relevant_to_users(event, registered_users) {
            return out;
        }
    }
    match classify_event(event, registered_users) {
        Some((notification_type, relevant_dids)) => {
            let ghost kind = notification_type;
            let ghost c = spec_content(
                kind,
                *event,
                handle_map@,
                match subject_text {
                    Some(t) => Some(t@),
                    None => None,
                },
            );
            let content = create_notification_content(
                handle_map,
                notification_type,
                event,
                subject_text,
            );
            let (title, body, uri) = content;
            proof {
                assert(views_distinct(relevant_dids@));
            }
            let mut dj: usize = 0;
            while dj < relevant_dids.len()
                invariant
                    rels.wf(),
                    devices.wf(),
                    0 <= dj <= relevant_dids@.len(),
                    spec_classified_kind(*event, registered_users@) == Some(kind),
                    kind == notification_type,
                    c == spec_content(
                        kind,
                        *event,
                        handle_map@,
                        match subject_text {
                            Some(t) => Some(t@),
                            None => None,
                        },
                    ),
                    title@ == c.0,
                    body@ == c.1,
                    (uri is Some <==> c.2 is Some),
                    (uri is Some ==> uri->0@ == c.2->0),
                    forall|m: int|
                        0 <= m < relevant_dids@.len() ==> spec_kind_recipient(
                            *event,
                            registered_users@,
                            kind,
                            (#[trigger] relevant_dids@[m])@,
                        ),
                    forall|k: int|
                        0 <= k < registered_users@.len() && spec_kind_recipient(
                            *event,
                            registered_users@,
                            kind,
                            (#[trigger] registered_users@[k])@,
                        ) ==> seq_contains_str(relevant_dids@, registered_users@[k]@),
                    forall|m: int|
                        0 <= m < out@.len() ==> {
                            let p = #[trigger] out@[m];
                            &&& p.notification_type == kind
                            &&& spec_kind_recipient(*event, registered_users@, kind, p.user_did@)
                            &&& !rels.spec_is_muted(p.user_did@, event.author@, now_ms)
                            &&& !rels.spec_is_blocked(p.user_did@, event.author@, now_ms)
                            &&& exists|di: int|
                                0 <= di < devices.spec_devices().len() && (
                                #[trigger] devices.spec_devices()[di]).did@ == p.user_did@
                                    && devices.spec_devices()[di].device_token@ == p.device_token@
                                    && spec_pref_allows(devices.spec_prefs()[di], kind)
                            &&& p.title@ == c.0
                            &&& p.body@ == c.1
                            &&& (p.data_uri is Some <==> c.2 is Some)
                            &&& (p.data_uri is Some ==> p.data_uri->0@ == c.2->0)
                            &&& (p.data_kind is Some <==> c.2 is Some)
                            &&& (p.data_kind is Some ==> p.data_kind->0@
                                == crate::models::spec_kind_name(kind))
                        },
                    forall|d: int, di: int|
                        0 <= d < dj && 0 <= di < devices.spec_devices().len()
                            && !rels.spec_is_muted(
                            (#[trigger] relevant_dids@[d])@,
                            event.author@,
                            now_ms,
                        ) && !rels.spec_is_blocked(relevant_dids@[d]@, event.author@, now_ms) && (
                        #[trigger] devices.spec_devices()[di]).did@ == relevant_dids@[d]@
                            && spec_pref_allows(devices.spec_prefs()[di], kind) ==> token_in(
                            out@,
                            devices.spec_devices()[di].device_token@,
                        ),
                    views_distinct(relevant_dids@),
                    forall|m: int|
                        0 <= m < out@.len() ==> did_in_prefix(
                            relevant_dids@,
                            dj as int,
                            (#[trigger] out@[m]).user_did@,
                        ),
                    forall|m: int, n: int|
                        0 <= m < n < out@.len() ==> (#[trigger] out@[m]).device_token@ != (
                        #[trigger] out@[n]).device_token@,
                decreases relevant_dids@.len() - dj,
            {
                let did = &relevant_dids[dj];
                let muted = rels.is_muted(did.as_str(), event.author.as_str(), now_ms);
                let blocked = rels.is_blocked(did.as_str(), event.author.as_str(), now_ms);
                if !muted && !blocked {
                    let ghost devpred = |d: UserDevice| d.did@ == did@;
                    let user_devices = devices.get_user_devices(did.as_str());
                    let ghost out_start = out@;
                    proof {
                        lemma_device_filter_tokens_distinct(devices.spec_devices(), devpred);
                        assert forall|m: int|
                            0 <= m < out_start.len() implies (#[trigger] out_start[m]).user_did@
                            != did@ by {
                            let d = choose|d: int|
                                0 <= d < dj && (#[trigger] relevant_dids@[d])@
                                    == out_start[m].user_did@;
                            assert(relevant_dids@[d]@ != relevant_dids@[dj as int]@);
                        }
                    }
                    let mut vi: usize = 0;
                    while vi < user_devices.len()
                        invariant
                            rels.wf(),
                            devices.wf(),
                            0 <= vi <= user_devices@.len(),
                            0 <= dj < relevant_dids@.len(),
                            did == &relevant_dids@[dj as int],
                            !rels.spec_is_muted(did@, event.author@, now_ms),
                            !rels.spec_is_blocked(did@, event.author@, now_ms),
                            spec_kind_recipient(*event, registered_users@, kind, did@),
                            kind == notification_type,
                            spec_classified_kind(*event, registered_users@) == Some(kind),
                            c == spec_content(
                                kind,
                                *event,
                                handle_map@,
                                match subject_text {
                                    Some(t) => Some(t@),
                                    None => None,
                                },
                            ),
                            title@ == c.0,
                            body@ == c.1,
                            (uri is Some <==> c.2 is Some),
                            (uri is Some ==> uri->0@ == c.2->0),
                            devpred == (|d: UserDevice| d.did@ == did@),
                            user_devices@ == devices.spec_devices().filter(devpred),
                            forall|m: int|
                                0 <= m < out@.len() ==> {
                                    let p = #[trigger] out@[m];
                                    &&& p.notification_type == kind
                                    &&& spec_kind_recipient(
                                        *event,
                                        registered_users@,
                                        kind,
                                        p.user_did@,
                                    )
                                    &&& !rels.spec_is_muted(p.user_did@, event.author@, now_ms)
                                    &&& !rels.spec_is_blocked(p.user_did@, event.author@, now_ms)
                                    &&& exists|di: int|
                                        0 <= di < devices.spec_devices().len() && (
                                        #[trigger] devices.spec_devices()[di]).did@ == p.user_did@
                                            && devices.spec_devices()[di].device_token@
                                            == p.device_token@ && spec_pref_allows(
                                            devices.spec_prefs()[di],
                                            kind,
                                        )
                                    &&& p.title@ == c.0
                                    &&& p.body@ == c.1
                                    &&& (p.data_uri is Some <==> c.2 is Some)
                                    &&& (p.data_uri is Some ==> p.data_uri->0@ == c.2->0)
                                    &&& (p.data_kind is Some <==> c.2 is Some)
                                    &&& (p.data_kind is Some ==> p.data_kind->0@
                                        == crate::models::spec_kind_name(kind))
                                },
                            forall|d: int, di: int|
                                0 <= d < dj && 0 <= di < devices.spec_devices().len()
                                    && !rels.spec_is_muted(
                                    (#[trigger] relevant_dids@[d])@,
                                    event.author@,
                                    now_ms,
                                ) && !rels.spec_is_blocked(
                                    relevant_dids@[d]@,
                                    event.author@,
                                    now_ms,
                                ) && (#[trigger] devices.spec_devices()[di]).did@
                                    == relevant_dids@[d]@ && spec_pref_allows(
                                    devices.spec_prefs()[di],
                                    kind,
                                ) ==> token_in(out@, devices.spec_devices()[di].device_token@),
                            forall|v: int|
                                0 <= v < vi && allowed_at(
                                    devices.spec_devices(),
                                    devices.spec_prefs(),
                                    #[trigger] user_devices@[v],
                                    kind,
                                ) ==> token_in(out@, user_devices@[v].device_token@),
                            forall|p: int, q: int|
                                0 <= p < q < user_devices@.len() ==> (
                                #[trigger] user_devices@[p]).device_token@ != (
                                #[trigger] user_devices@[q]).device_token@,
                            out_start.len() <= out@.len(),
                            forall|m: int|
                                0 <= m < out_start.len() ==> (#[trigger] out@[m]) == out_start[m],
                            forall|m: int|
                                0 <= m < out_start.len() ==> (#[trigger] out_start[m]).user_did@
                                    != did@,
                            forall|m: int|
                                0 <= m < out_start.len() ==> did_in_prefix(
                                    relevant_dids@,
                                    dj as int,
                                    (#[trigger] out_start[m]).user_did@,
                                ),
                            forall|m: int|
                                out_start.len() <= m < out@.len() ==> (
                                #[trigger] out@[m]).user_did@ == did@ && exists|v: int|
                                    0 <= v < vi && out@[m].device_token@ == (
                                    #[trigger] user_devices@[v]).device_token@,
                            forall|m: int, n: int|
                                0 <= m < n < out@.len() ==> (#[trigger] out@[m]).device_token@
                                    != (#[trigger] out@[n]).device_token@,
                        decreases user_devices@.len() - vi,
                    {
                        let device = &user_devices[vi];
                        proof {
                            lemma_device_filter_subset(
                                devices.spec_devices(),
                                devpred,
                                vi as int,
                            );
                            devices.spec_devices().lemma_filter_pred(devpred, vi as int);
                        }
                        let ghost out_before = out@;
                        match devices.get_notification_preferences(device.id) {
                            Some(prefs) => {
                                let ghost j = choose|j: int|
                                    0 <= j < devices.spec_devices().len()
                                        && devices.spec_devices()[j] == *device;
                                proof {
                                    let i0 = choose|i0: int|
                                        0 <= i0 < devices.spec_devices().len()
                                            && devices.spec_devices()[i0].id == device.id && Some(
                                            prefs,
                                        ) == Some(devices.spec_prefs()[i0]);
                                    assert(i0 == j);
                                    assert(prefs == devices.spec_prefs()[j]);
                                }
                                if crate::models::pref_allows(&prefs, notification_type) {
                                    let payload = NotificationPayload {
                                        user_did: did.clone(),
                                        device_token: device.device_token.clone(),
                                        notification_type,
                                        title: title.clone(),
                                        body: body.clone(),
                                        data_uri: match &uri {
                                            Some(u) => Some(u.clone()),
                                            None => None,
                                        },
                                        data_kind: match &uri {
                                            Some(_) => Some(
                                                crate::models::kind_name(notification_type),
                                            ),
                                            None => None,
                                        },
                                    };
                                    out.push(payload);
                                    proof {
                                        let n = out@.len() - 1;
                                        assert(out@[n].user_did@ == did@);
                                        assert(out@[n].device_token@
                                            == devices.spec_devices()[j].device_token@);
                                        assert(devices.spec_devices()[j].did@ == did@);
                                        assert(spec_pref_allows(devices.spec_prefs()[j], kind));
                                        assert(out@[n].device_token@
                                            == user_devices@[vi as int].device_token@);
                                        assert forall|m: int|
                                            0 <= m < n implies out@[m].device_token@ != out@[
                                            n
                                        ].device_token@ by {
                                            if m < out_start.len() {
                                                assert(out@[m] == out_start[m]);
                                                assert(out@[m].user_did@ != did@);
                                                let dim = choose|dim: int|
                                                    0 <= dim < devices.spec_devices().len() && (
                                                    #[trigger] devices.spec_devices()[dim]).did@
                                                        == out_before[m].user_did@
                                                        && devices.spec_devices()[
                                                    dim].device_token@
                                                        == out_before[m].device_token@
                                                        && spec_pref_allows(
                                                        devices.spec_prefs()[dim],
                                                        kind,
                                                    );
                                                if out@[m].device_token@ == out@[
                                                    n
                                                ].device_token@ {
                                                    if dim < j {
                                                        assert(devices.spec_devices()[
                                                            dim].device_token@
                                                            != devices.spec_devices()[
                                                            j].device_token@);
                                                    } else if j < dim {
                                                        assert(devices.spec_devices()[
                                                            j].device_token@
                                                            != devices.spec_devices()[
                                                            dim].device_token@);
                                                    }
                                                    assert(dim == j);
                                                    assert(out@[m].user_did@ == did@);
                                                }
                                            } else {
                                                let v = choose|v: int|
                                                    0 <= v < vi && out_before[m].device_token@
                                                        == (
                                                    #[trigger] user_devices@[v]).device_token@;
                                                assert(user_devices@[v].device_token@
                                                    != user_devices@[vi as int].device_token@);
                                            }
                                        }
                                        assert forall|d: int, di: int|
                                            0 <= d < dj && 0 <= di
                                                < devices.spec_devices().len()
                                                && !rels.spec_is_muted(
                                                (#[trigger] relevant_dids@[d])@,
                                                event.author@,
                                                now_ms,
                                            ) && !rels.spec_is_blocked(
                                                relevant_dids@[d]@,
                                                event.author@,
                                                now_ms,
                                            ) && (#[trigger] devices.spec_devices()[di]).did@
                                                == relevant_dids@[d]@ && spec_pref_allows(
                                                devices.spec_prefs()[di],
                                                kind,
                                            ) implies token_in(
                                            out@,
                                            devices.spec_devices()[di].device_token@,
                                        ) by {
                                            lemma_token_in_extend(
                                                out_before,
                                                out@,
                                                devices.spec_devices()[di].device_token@,
                                            );
                                        }
                                        assert forall|v: int|
                                            0 <= v < vi + 1 && allowed_at(
                                                devices.spec_devices(),
                                                devices.spec_prefs(),
                                                #[trigger] user_devices@[v],
                                                kind,
                                            ) implies token_in(
                                            out@,
                                            user_devices@[v].device_token@,
                                        ) by {
                                            if v < vi {
                                                lemma_token_in_extend(
                                                    out_before,
                                                    out@,
                                                    user_devices@[v].device_token@,
                                                );
                                            } else {
                                                assert(out@[n].device_token@
                                                    == user_devices@[v].device_token@);
                                            }
                                        }
                                    }
                                } else {
                                    proof {
                                        assert forall|i0: int|
                                            0 <= i0 < devices.spec_devices().len()
                                                && devices.spec_devices()[i0]
                                                == *device implies !spec_pref_allows(
                                            devices.spec_prefs()[i0],
                                            kind,
                                        ) by {
                                            assert(devices.spec_devices()[i0].id == device.id);
                                            assert(i0 == j);
                                        }
                                        assert(!allowed_at(
                                            devices.spec_devices(),
                                            devices.spec_prefs(),
                                            *device,
                                            kind,
                                        ));
                                    }
                                }
                            },
                            None => {
                                proof {
                                    assert(false);
                                }
                            },
                        }
                        vi += 1;
                    }
                    proof {
                        assert forall|d: int, di: int|
                            0 <= d < dj + 1 && 0 <= di < devices.spec_devices().len()
                                && !rels.spec_is_muted(
                                (#[trigger] relevant_dids@[d])@,
                                event.author@,
                                now_ms,
                            ) && !rels.spec_is_blocked(relevant_dids@[d]@, event.author@, now_ms)
                                && (#[trigger] devices.spec_devices()[di]).did@
                                == relevant_dids@[d]@ && spec_pref_allows(
                                devices.spec_prefs()[di],
                                kind,
                            ) implies token_in(
                            out@,
                            devices.spec_devices()[di].device_token@,
                        ) by {
                            if d == dj {
                                assert(devpred(devices.spec_devices()[di]));
                                devices.spec_devices().lemma_filter_contains(devpred, di);
                                let v = choose|v: int|
                                    0 <= v < user_devices@.len() && user_devices@[v]
                                        == devices.spec_devices()[di];
                                assert(allowed_at(
                                    devices.spec_devices(),
                                    devices.spec_prefs(),
                                    user_devices@[v],
                                    kind,
                                ));
                            }
                        }
                        assert forall|m: int|
                            0 <= m < out@.len() implies did_in_prefix(
                            relevant_dids@,
                            dj + 1,
                            (#[trigger] out@[m]).user_did@,
                        ) by {
                            if m < out_start.len() {
                                assert(out@[m] == out_start[m]);
                                let d = choose|d: int|
                                    0 <= d < dj && (#[trigger] relevant_dids@[d])@
                                        == out_start[m].user_did@;
                                assert(relevant_dids@[d]@ == out@[m].user_did@);
                            } else {
                                assert(relevant_dids@[dj as int]@ == out@[m].user_did@);
                            }
                        }
                    }
                } else {
                    proof {
                        assert forall|m: int|
                            0 <= m < out@.len() implies did_in_prefix(
                            relevant_dids@,
                            dj + 1,
                            (#[trigger] out@[m]).user_did@,
                        ) by {
                            let d = choose|d: int|
                                0 <= d < dj && (#[trigger] relevant_dids@[d])@
                                    == out@[m].user_did@;
                            assert(relevant_dids@[d]@ == out@[m].user_did@);
                        }
                    }
                }
                dj += 1;
            }
            proof {
                assert forall|k: int, di: int|
                    0 <= k < registered_users@.len() && 0 <= di < devices.spec_devices().len()
                        && spec_kind_recipient(
                        *event,
                        registered_users@,
                        kind,
                        (#[trigger] registered_users@[k])@,
                    ) && !rels.spec_is_muted(registered_users@[k]@, event.author@, now_ms)
                        && !rels.spec_is_blocked(registered_users@[k]@, event.author@, now_ms) && (
                    #[trigger] devices.spec_devices()[di]).did@ == registered_users@[k]@
                        && spec_pref_allows(devices.spec_prefs()[di], kind) implies token_in(
                    out@,
                    devices.spec_devices()[di].device_token@,
                ) by {
                    assert(seq_contains_str(relevant_dids@, registered_users@[k]@));
                    let d = choose|d: int|
                        0 <= d < relevant_dids@.len() && (#[trigger] relevant_dids@[d])@
                            == registered_users@[k]@;
                }
            }
            out
        },
        None => out,
    }
}

/// What to do with a payload given the notification channel's remaining
/// capacity: enqueue when there is room; at capacity, drop low-priority
/// kinds silently and briefly yield before enqueuing mentions, replies
/// and follows.
#[derive(Debug, Clone, Copy, PartialEq, Eq, Structural)]
pub enum ChannelAction {
    Enqueue,
    DropLowPriority,
    YieldThenEnqueue,
}

/// The backpressure policy of the notification channel.
pub fn backpressure_action(kind: NotificationType, remaining_capacity: usize) -> (r: ChannelAction)
    ensures
        remaining_capacity > 0 ==> r == ChannelAction::Enqueue,
        remaining_capacity == 0 && (kind == NotificationType::Follow || kind
            == NotificationType::Reply || kind == NotificationType::Mention) ==> r
            == ChannelAction::YieldThenEnqueue,
        remaining_capacity == 0 && !(kind == NotificationType::Follow || kind
            == NotificationType::Reply || kind == NotificationType::Mention) ==> r
            == ChannelAction::DropLowPriority,
{
    if remaining_capacity > 0 {
        ChannelAction::Enqueue
    } else {
        match kind {
            NotificationType::Follow | NotificationType::Reply | NotificationType::Mention => ChannelAction::YieldThenEnqueue,
            _ => ChannelAction::DropLowPriority,
        }
    }
}

/// Whether the registered-user cache is stale (refreshed every 300 s).
pub fn should_refresh_users(last_refresh_secs: u64, now_secs: u64) -> (r: bool)
    requires
        last_refresh_secs <= now_secs,
    ensures
        r == (now_secs - last_refresh_secs > 300),
{
    now_secs - last_refresh_secs > 300
}

} // verus!
