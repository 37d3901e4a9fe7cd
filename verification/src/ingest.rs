//! Translation of remote payloads into cache records, and the sync pass's
//! ingestion steps.
//!
//! Remote payloads are opaque structured records; the narrow adapters here
//! read a fixed set of named fields through the untyped JSON boundary and
//! substitute empty defaults for anything absent, so ingestion never fails
//! merely because an optional field is missing. The typed builders
//! [`conversation_from_fields`] and [`message_from_fields`] carry the
//! exact contracts: the display-name derivation, the default substitution,
//! and the recognized-type allow-list.

use vstd::prelude::*;
use crate::cache::{Cache, CachedConversation, CachedMessage};
use crate::html::{spec_strip_html, strip_html};
use crate::json::{json_as_bool, json_as_str, json_get, json_to_string};

verus! {

/// The text of an optional field, with the empty default.
pub open spec fn str_or_empty(o: Option<String>) -> Seq<char> {
    match o {
        Option::Some(s) => s@,
        Option::None => Seq::<char>::empty(),
    }
}

/// The display name a conversation record gets: the topic when there is
/// one; else the last sender's name; else the product type.
pub open spec fn spec_display_name(
    topic: Seq<char>,
    from_name: Seq<char>,
    product_type: Seq<char>,
) -> Seq<char> {
    if topic.len() == 0 {
        if from_name.len() == 0 {
            product_type
        } else {
            from_name
        }
    } else {
        topic
    }
}

/// Build a cache record for a conversation from its extracted fields,
/// substituting empty defaults, deriving the display name, and stripping
/// the last message's markup for the preview.
pub fn conversation_from_fields(
    id: Option<String>,
    topic: Option<String>,
    product_type: Option<String>,
    thread_type: Option<String>,
    last_from: Option<String>,
    last_content_html: Option<String>,
    last_activity: Option<String>,
    messages_url: Option<String>,
    raw_json: Option<String>,
) -> (r: CachedConversation)
    ensures
        r@.id == str_or_empty(id),
        r@.display_name == spec_display_name(
            str_or_empty(topic),
            str_or_empty(last_from),
            str_or_empty(product_type),
        ),
        r@.thread_type == str_or_empty(thread_type),
        r@.product_type == str_or_empty(product_type),
        r@.last_message_preview == spec_strip_html(str_or_empty(last_content_html)),
        r@.last_message_from == str_or_empty(last_from),
        r@.last_activity == str_or_empty(last_activity),
        r@.messages_url == str_or_empty(messages_url),
        r@.member_names == Seq::<char>::empty(),
        r@.raw_json == str_or_empty(raw_json),
{
    let id_s = or_empty(id);
    let topic_s = or_empty(topic);
    let product_s = or_empty(product_type);
    let thread_s = or_empty(thread_type);
    let from_s = or_empty(last_from);
    let html_s = or_empty(last_content_html);
    let activity_s = or_empty(last_activity);
    let url_s = or_empty(messages_url);
    let raw_s = or_empty(raw_json);
    let display_name = if topic_s.unicode_len() == 0 {
        if from_s.unicode_len() == 0 {
            product_s.clone()
        } else {
            from_s.clone()
        }
    } else {
        topic_s.clone()
    };
    let preview = strip_html(html_s.as_str());
    CachedConversation {
        id: id_s,
        display_name,
        thread_type: thread_s,
        product_type: product_s,
        last_message_preview: preview,
        last_message_from: from_s,
        last_activity: activity_s,
        messages_url: url_s,
        member_names: String::new(),
        raw_json: raw_s,
    }
}

/// An optional string, with the empty default.
fn or_empty(o: Option<String>) -> (r: String)
    ensures
        r@ == str_or_empty(o),
{
    match o {
        Option::Some(s) => s,
        Option::None => String::new(),
    }
}

/// The recognized message types: text, rich text, and file or media
/// payloads. System and control payloads are filtered out before upsert.
pub open spec fn allowed_message_type(t: Seq<char>) -> bool {
    ||| t == "RichText/Html"@
    ||| t == "Text"@
    ||| t == "RichText"@
    ||| t == "RichText/UriObject"@
    ||| t == "RichText/Media_GenericFile"@
    ||| t == "RichText/Media_Card"@
}

/// Build a cache record for a message from its extracted fields. Returns
/// nothing exactly when the message type is not on the allow-list; all
/// other absent fields get empty defaults.
pub fn message_from_fields(
    conversation_id: &str,
    msg_type: Option<String>,
    id: Option<String>,
    content_html: Option<String>,
    from_name: Option<String>,
    compose_time: Option<String>,
    is_from_me: Option<bool>,
    raw_json: Option<String>,
) -> (r: Option<CachedMessage>)
    ensures
        r is Some <==> allowed_message_type(str_or_empty(msg_type)),
        match r {
            Option::Some(m) => {
                &&& m@.id == str_or_empty(id)
                &&& m@.conversation_id == conversation_id@
                &&& m@.from_display_name == str_or_empty(from_name)
                &&& m@.content == spec_strip_html(str_or_empty(content_html))
                &&& m@.content_html == str_or_empty(content_html)
                &&& m@.message_type == str_or_empty(msg_type)
                &&& m@.compose_time == str_or_empty(compose_time)
                &&& m@.is_from_me == (is_from_me is Some && is_from_me.unwrap())
                &&& m@.raw_json == str_or_empty(raw_json)
            },
            Option::None => true,
        },
{
    let type_s = or_empty(msg_type);
    let allowed = crate::text::str_eq(type_s.as_str(), "RichText/Html") || crate::text::str_eq(
        type_s.as_str(),
        "Text",
    ) || crate::text::str_eq(type_s.as_str(), "RichText") || crate::text::str_eq(
        type_s.as_str(),
        "RichText/UriObject",
    ) || crate::text::str_eq(type_s.as_str(), "RichText/Media_GenericFile")
        || crate::text::str_eq(type_s.as_str(), "RichText/Media_Card");
    if !allowed {
        return Option::None;
    }
    let html_s = or_empty(content_html);
    let content = strip_html(html_s.as_str());
    Option::Some(
        CachedMessage {
            id: or_empty(id),
            conversation_id: String::from_str(conversation_id),
            from_display_name: or_empty(from_name),
            content,
            content_html: html_s,
            message_type: type_s,
            compose_time: or_empty(compose_time),
            is_from_me: match is_from_me {
                Option::Some(b) => b,
                Option::None => false,
            },
            raw_json: or_empty(raw_json),
        },
    )
}

/// Translate a remote conversation payload into a cache record, reading a
/// fixed set of named fields and tolerating anything absent.
pub fn parse_conversation(conv: &serde_json::Value) -> (r: CachedConversation)
    ensures
        r@.member_names == Seq::<char>::empty(),
{
    let id = match json_get(conv, "id") {
        Option::Some(v) => json_as_str(&v),
        Option::None => Option::None,
    };
    let tp = json_get(conv, "threadProperties");
    let lm = json_get(conv, "lastMessage");
    let topic = match &tp {
        Option::Some(t) => match json_get(t, "topic") {
            Option::Some(v) => json_as_str(&v),
            Option::None => Option::None,
        },
        Option::None => Option::None,
    };
    let product_type = match &tp {
        Option::Some(t) => match json_get(t, "productThreadType") {
            Option::Some(v) => json_as_str(&v),
            Option::None => Option::None,
        },
        Option::None => Option::None,
    };
    let thread_type = match &tp {
        Option::Some(t) => match json_get(t, "threadType") {
            Option::Some(v) => json_as_str(&v),
            Option::None => Option::None,
        },
        Option::None => Option::None,
    };
    let last_from = match &lm {
        Option::Some(m) => match json_get(m, "imdisplayname") {
            Option::Some(v) => json_as_str(&v),
            Option::None => Option::None,
        },
        Option::None => Option::None,
    };
    let last_content = match &lm {
        Option::Some(m) => match json_get(m, "content") {
            Option::Some(v) => json_as_str(&v),
            Option::None => Option::None,
        },
        Option::None => Option::None,
    };
    let last_activity = match &lm {
        Option::Some(m) => match json_get(m, "composetime") {
            Option::Some(v) => json_as_str(&v),
            Option::None => Option::None,
        },
        Option::None => Option::None,
    };
    let messages_url = match json_get(conv, "messages") {
        Option::Some(v) => json_as_str(&v),
        Option::None => Option::None,
    };
    let raw_json = json_to_string(conv);
    conversation_from_fields(
        id,
        topic,
        product_type,
        thread_type,
        last_from,
        last_content,
        last_activity,
        messages_url,
        raw_json,
    )
}

/// Translate a remote message payload into a cache record. Returns
/// nothing for system and control payloads, whose type is not on the
/// allow-list.
pub fn parse_message(msg: &serde_json::Value, conversation_id: &str) -> (r: Option<CachedMessage>)
    ensures
        r is Some ==> r.unwrap()@.conversation_id == conversation_id@,
{
    let msg_type = match json_get(msg, "messagetype") {
        Option::Some(v) => json_as_str(&v),
        Option::None => Option::None,
    };
    let id = match json_get(msg, "id") {
        Option::Some(v) => json_as_str(&v),
        Option::None => Option::None,
    };
    let content_html = match json_get(msg, "content") {
        Option::Some(v) => json_as_str(&v),
        Option::None => Option::None,
    };
    let from_name = match json_get(msg, "imdisplayname") {
        Option::Some(v) => json_as_str(&v),
        Option::None => Option::None,
    };
    let compose_time = match json_get(msg, "composetime") {
        Option::Some(v) => json_as_str(&v),
        Option::None => Option::None,
    };
    let is_from_me = match json_get(msg, "isFromMe") {
        Option::Some(v) => json_as_bool(&v),
        Option::None => Option::None,
    };
    let raw_json = json_to_string(msg);
    message_from_fields(
        conversation_id,
        msg_type,
        id,
        content_html,
        from_name,
        compose_time,
        is_from_me,
        raw_json,
    )
}

/// Ingest a batch of conversation payloads: translate and upsert each,
/// counting successes. Re-running the same batch cannot create duplicates,
/// because identity is keyed by the stable remote ids.
pub fn ingest_conversations(cache: &mut Cache, convs: &Vec<serde_json::Value>) -> (r: usize)
    requires
        old(cache).wf(),
    ensures
        final(cache).wf(),
        r == convs@.len(),
        final(cache).msgs() == old(cache).msgs(),
        final(cache).entries() == old(cache).entries(),
        final(cache).imgs() == old(cache).imgs(),
{
    let n = convs.len();
    let mut i: usize = 0;
    while i < n
        invariant
            i <= n,
            n == convs@.len(),
            cache.wf(),
            cache.msgs() == old(cache).msgs(),
            cache.entries() == old(cache).entries(),
            cache.imgs() == old(cache).imgs(),
        decreases n - i,
    {
        let record = parse_conversation(&convs[i]);
        cache.upsert_conversation(&record);
        i = i + 1;
    }
    i
}

/// Ingest a batch of message payloads for one conversation: translate and
/// upsert each recognized one, counting successes. System and control
/// payloads are skipped.
pub fn ingest_messages(
    cache: &mut Cache,
    conversation_id: &str,
    msgs: &Vec<serde_json::Value>,
) -> (r: usize)
    requires
        old(cache).wf(),
    ensures
        final(cache).wf(),
        r <= msgs@.len(),
        final(cache).convs() == old(cache).convs(),
        final(cache).imgs() == old(cache).imgs(),
{
    let n = msgs.len();
    let mut count: usize = 0;
    let mut i: usize = 0;
    while i < n
        invariant
            i <= n,
            count <= i,
            n == msgs@.len(),
            cache.wf(),
            cache.convs() == old(cache).convs(),
            cache.imgs() == old(cache).imgs(),
        decreases n - i,
    {
        match parse_message(&msgs[i], conversation_id) {
            Option::Some(record) => {
                cache.upsert_message(&record);
                count = count + 1;
            },
            Option::None => {},
        }
        i = i + 1;
    }
    count
}

} // verus!
