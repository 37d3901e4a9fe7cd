//! In-memory cache of conversations and messages with a maintained
//! full-text index and a keyed binary asset store.
//!
//! The store is the queryable mirror of the remote service: one row per
//! conversation id, one row per (message id, conversation id) pair, both kept
//! sorted by their activity timestamps, newest first, and an index row per
//! message that mirrors the searchable columns. Durability is the caller's
//! concern; every operation here is specified and proved against the
//! sequence-level model in [`crate::ordered`].

use vstd::prelude::*;
use crate::ordered::{
    count_key, filter_seq, find_key, has_key, key_pos, lemma_filter_all, lemma_filter_complete,
    lemma_filter_pred, lemma_filter_push, lemma_insert_pos_at, lemma_key_pos, lemma_key_pos_at,
    lemma_upsert_found, lemma_upsert_idempotent, lemma_upsert_preserves_others,
    lemma_upsert_sorted, lemma_upsert_unique, remove_key, sorted_desc, unique_keys,
    upsert_sorted,
};
use crate::text::{lex_lt, seq_has_ci, str_eq, str_has_ci, str_lex_lt};

verus! {

/// A cached conversation.
#[derive(Debug)]
pub struct CachedConversation {
    /// Conversation thread ID.
    pub id: String,
    /// Display name / topic.
    pub display_name: String,
    /// Thread type (chat, topic, space, etc.).
    pub thread_type: String,
    /// Product type (one-to-one, group, channel, meeting, ...).
    pub product_type: String,
    /// Last message preview.
    pub last_message_preview: String,
    /// Last message sender display name.
    pub last_message_from: String,
    /// Last activity time (ISO 8601).
    pub last_activity: String,
    /// Messages URL for fetching messages.
    pub messages_url: String,
    /// Comma-separated member display names.
    pub member_names: String,
    /// Raw JSON from the API.
    pub raw_json: String,
}

/// Mathematical view of a cached conversation.
pub ghost struct ConversationView {
    pub id: Seq<char>,
    pub display_name: Seq<char>,
    pub thread_type: Seq<char>,
    pub product_type: Seq<char>,
    pub last_message_preview: Seq<char>,
    pub last_message_from: Seq<char>,
    pub last_activity: Seq<char>,
    pub messages_url: Seq<char>,
    pub member_names: Seq<char>,
    pub raw_json: Seq<char>,
}

impl View for CachedConversation {
    type V = ConversationView;

    open spec fn view(&self) -> ConversationView {
        ConversationView {
            id: self.id@,
            display_name: self.display_name@,
            thread_type: self.thread_type@,
            product_type: self.product_type@,
            last_message_preview: self.last_message_preview@,
            last_message_from: self.last_message_from@,
            last_activity: self.last_activity@,
            messages_url: self.messages_url@,
            member_names: self.member_names@,
            raw_json: self.raw_json@,
        }
    }
}

impl Clone for CachedConversation {
    /// The clone is field-for-field equal to the original.
    fn clone(&self) -> (r: Self)
        ensures
            r@ == self@,
    {
        CachedConversation {
            id: self.id.clone(),
            display_name: self.display_name.clone(),
            thread_type: self.thread_type.clone(),
            product_type: self.product_type.clone(),
            last_message_preview: self.last_message_preview.clone(),
            last_message_from: self.last_message_from.clone(),
            last_activity: self.last_activity.clone(),
            messages_url: self.messages_url.clone(),
            member_names: self.member_names.clone(),
            raw_json: self.raw_json.clone(),
        }
    }
}

/// A cached message. Its identity is the composite (id, conversation id):
/// message ids are only unique within a conversation.
#[derive(Debug)]
pub struct CachedMessage {
    /// Message ID.
    pub id: String,
    /// Conversation thread ID.
    pub conversation_id: String,
    /// Sender display name.
    pub from_display_name: String,
    /// Message content (HTML stripped to plain text for display).
    pub content: String,
    /// Raw HTML content.
    pub content_html: String,
    /// Message type.
    pub message_type: String,
    /// Compose time (ISO 8601).
    pub compose_time: String,
    /// Whether the message is from the current user.
    pub is_from_me: bool,
    /// Raw JSON from the API.
    pub raw_json: String,
}

/// Mathematical view of a cached message.
pub ghost struct MessageView {
    pub id: Seq<char>,
    pub conversation_id: Seq<char>,
    pub from_display_name: Seq<char>,
    pub content: Seq<char>,
    pub content_html: Seq<char>,
    pub message_type: Seq<char>,
    pub compose_time: Seq<char>,
    pub is_from_me: bool,
    pub raw_json: Seq<char>,
}

impl View for CachedMessage {
    type V = MessageView;

    open spec fn view(&self) -> MessageView {
        MessageView {
            id: self.id@,
            conversation_id: self.conversation_id@,
            from_display_name: self.from_display_name@,
            content: self.content@,
            content_html: self.content_html@,
            message_type: self.message_type@,
            compose_time: self.compose_time@,
            is_from_me: self.is_from_me,
            raw_json: self.raw_json@,
        }
    }
}

impl Clone for CachedMessage {
    /// The clone is field-for-field equal to the original.
    fn clone(&self) -> (r: Self)
        ensures
            r@ == self@,
    {
        CachedMessage {
            id: self.id.clone(),
            conversation_id: self.conversation_id.clone(),
            from_display_name: self.from_display_name.clone(),
            content: self.content.clone(),
            content_html: self.content_html.clone(),
            message_type: self.message_type.clone(),
            compose_time: self.compose_time.clone(),
            is_from_me: self.is_from_me,
            raw_json: self.raw_json.clone(),
        }
    }
}

/// One row of the full-text index: the searchable columns of one message.
#[derive(Debug)]
pub struct IndexEntry {
    /// The message's plain-text content.
    pub content: String,
    /// The message's sender display name.
    pub from_display_name: String,
    /// The owning conversation's id.
    pub conversation_id: String,
}

/// Mathematical view of an index row.
pub ghost struct IndexEntryView {
    pub content: Seq<char>,
    pub from_display_name: Seq<char>,
    pub conversation_id: Seq<char>,
}

impl View for IndexEntry {
    type V = IndexEntryView;

    open spec fn view(&self) -> IndexEntryView {
        IndexEntryView {
            content: self.content@,
            from_display_name: self.from_display_name@,
            conversation_id: self.conversation_id@,
        }
    }
}

/// A cached binary asset, keyed by its source URL.
#[derive(Debug)]
pub struct CachedImage {
    /// Source URL, the key.
    pub url: String,
    /// The binary content.
    pub data: Vec<u8>,
    /// Content-type tag.
    pub content_type: String,
    /// When the asset was cached, as an epoch second.
    pub cached_at: i64,
}

/// Mathematical view of a cached asset.
pub ghost struct ImageView {
    pub url: Seq<char>,
    pub data: Seq<u8>,
    pub content_type: Seq<char>,
    pub cached_at: int,
}

impl View for CachedImage {
    type V = ImageView;

    open spec fn view(&self) -> ImageView {
        ImageView {
            url: self.url@,
            data: self.data@,
            content_type: self.content_type@,
            cached_at: self.cached_at as int,
        }
    }
}

/// Search result combining a message with its conversation context.
#[derive(Debug)]
pub struct SearchResult {
    /// The matched message.
    pub message: CachedMessage,
    /// Display name of the conversation, empty if it is not cached.
    pub conversation_name: String,
}

/// Mathematical view of a search result.
pub ghost struct SearchResultView {
    pub message: MessageView,
    pub conversation_name: Seq<char>,
}

impl View for SearchResult {
    type V = SearchResultView;

    open spec fn view(&self) -> SearchResultView {
        SearchResultView { message: self.message@, conversation_name: self.conversation_name@ }
    }
}

/// The identity key of a conversation: its id.
pub open spec fn conv_id_key() -> spec_fn(ConversationView) -> Seq<char> {
    |c: ConversationView| c.id
}

/// The order key of a conversation: its last activity timestamp.
pub open spec fn conv_ord_key() -> spec_fn(ConversationView) -> Seq<char> {
    |c: ConversationView| c.last_activity
}

/// The identity key of a message: the composite (id, conversation id).
pub open spec fn msg_id_key() -> spec_fn(MessageView) -> (Seq<char>, Seq<char>) {
    |m: MessageView| (m.id, m.conversation_id)
}

/// The order key of a message: its compose time.
pub open spec fn msg_ord_key() -> spec_fn(MessageView) -> Seq<char> {
    |m: MessageView| m.compose_time
}

/// The key of a cached asset: its URL.
pub open spec fn img_key() -> spec_fn(ImageView) -> Seq<char> {
    |i: ImageView| i.url
}

/// The index row that mirrors a message.
pub open spec fn entry_of(m: MessageView) -> IndexEntryView {
    IndexEntryView {
        content: m.content,
        from_display_name: m.from_display_name,
        conversation_id: m.conversation_id,
    }
}

/// Views of a sequence of conversations.
pub open spec fn conv_views(s: Seq<CachedConversation>) -> Seq<ConversationView> {
    s.map_values(|c: CachedConversation| c@)
}

/// Views of a sequence of messages.
pub open spec fn msg_views(s: Seq<CachedMessage>) -> Seq<MessageView> {
    s.map_values(|m: CachedMessage| m@)
}

/// Views of a sequence of index rows.
pub open spec fn entry_views(s: Seq<IndexEntry>) -> Seq<IndexEntryView> {
    s.map_values(|e: IndexEntry| e@)
}

/// Views of a sequence of cached assets.
pub open spec fn img_views(s: Seq<CachedImage>) -> Seq<ImageView> {
    s.map_values(|i: CachedImage| i@)
}

/// The index rows that mirror a sequence of messages.
pub open spec fn entries_of(msgs: Seq<MessageView>) -> Seq<IndexEntryView> {
    msgs.map_values(|m: MessageView| entry_of(m))
}


/// The fixed cap on fuzzy-match results.
pub const FIND_LIMIT: usize = 10;

/// The first `n` elements, or all of them when there are fewer.
pub open spec fn take_at_most<T>(s: Seq<T>, n: int) -> Seq<T> {
    if n < s.len() {
        s.take(n)
    } else {
        s
    }
}

/// A conversation matches a free-form query when the query occurs,
/// case-insensitively, in its display name, member names or id.
pub open spec fn conv_match_pred(q: Seq<char>) -> spec_fn(ConversationView) -> bool {
    |c: ConversationView|
        seq_has_ci(c.display_name, q) || seq_has_ci(c.member_names, q) || seq_has_ci(c.id, q)
}

/// A message belongs to the given conversation.
pub open spec fn msg_conv_pred(cid: Seq<char>) -> spec_fn(MessageView) -> bool {
    |m: MessageView| m.conversation_id == cid
}

/// A message matches a full-text query over its content and sender name,
/// optionally restricted to one conversation.
pub open spec fn search_pred(q: Seq<char>, scope: Option<Seq<char>>) -> spec_fn(
    MessageView,
) -> bool {
    |m: MessageView|
        (seq_has_ci(m.content, q) || seq_has_ci(m.from_display_name, q)) && (match scope {
            Option::Some(cid) => m.conversation_id == cid,
            Option::None => true,
        })
}

/// The display name of the conversation with the given id, or the empty
/// string when it is not cached (outer-join semantics).
pub open spec fn conv_name_of(convs: Seq<ConversationView>, cid: Seq<char>) -> Seq<char> {
    match find_key(convs, cid, conv_id_key()) {
        Option::Some(c) => c.display_name,
        Option::None => Seq::<char>::empty(),
    }
}

/// Attach the owning conversation's display name to a message.
pub open spec fn hit_fn(convs: Seq<ConversationView>) -> spec_fn(MessageView) -> SearchResultView {
    |m: MessageView|
        SearchResultView { message: m, conversation_name: conv_name_of(convs, m.conversation_id) }
}

/// Full-text search results: the matching messages, in stored (newest-first)
/// order, each joined with its conversation's display name.
pub open spec fn spec_search(
    msgs: Seq<MessageView>,
    convs: Seq<ConversationView>,
    q: Seq<char>,
    scope: Option<Seq<char>>,
) -> Seq<SearchResultView> {
    filter_seq(msgs, search_pred(q, scope)).map_values(hit_fn(convs))
}

/// Views of a sequence of search results.
pub open spec fn sr_views(s: Seq<SearchResult>) -> Seq<SearchResultView> {
    s.map_values(|r: SearchResult| r@)
}

/// The most recent `per` messages of one conversation, oldest first.
pub open spec fn chron_messages(msgs: Seq<MessageView>, cid: Seq<char>, per: int) -> Seq<
    MessageView,
> {
    take_at_most(filter_seq(msgs, msg_conv_pred(cid)), per).reverse()
}

/// A conversation that has at least one cached message, under the `per` cap.
pub open spec fn has_msgs_pred(msgs: Seq<MessageView>, per: int) -> spec_fn(
    ConversationView,
) -> bool {
    |c: ConversationView| chron_messages(msgs, c.id, per).len() > 0
}

/// Pair a conversation with its recent messages.
pub open spec fn pair_fn(msgs: Seq<MessageView>, per: int) -> spec_fn(ConversationView) -> (
    ConversationView,
    Seq<MessageView>,
) {
    |c: ConversationView| (c, chron_messages(msgs, c.id, per))
}

/// The latest messages across the most recently active conversations.
pub open spec fn spec_latest(
    sel: Seq<ConversationView>,
    msgs: Seq<MessageView>,
    per: int,
) -> Seq<(ConversationView, Seq<MessageView>)> {
    filter_seq(sel, has_msgs_pred(msgs, per)).map_values(pair_fn(msgs, per))
}

/// Views of a sequence of conversation/messages pairs.
pub open spec fn latest_views(v: Seq<(CachedConversation, Vec<CachedMessage>)>) -> Seq<
    (ConversationView, Seq<MessageView>),
> {
    v.map_values(|p: (CachedConversation, Vec<CachedMessage>)| (p.0@, msg_views(p.1@)))
}

/// An asset store update: replace the asset with the same URL, else append.
pub open spec fn upsert_img(s: Seq<ImageView>, x: ImageView) -> Seq<ImageView> {
    if has_key(s, x.url, img_key()) {
        s.update(key_pos(s, x.url, img_key()), x)
    } else {
        s.push(x)
    }
}

/// An asset is young enough to survive pruning.
pub open spec fn keep_img_pred(now: int, days: int) -> spec_fn(ImageView) -> bool {
    |i: ImageView| i.cached_at >= now - days * 86400
}

/// Total byte size of the stored assets.
pub open spec fn spec_data_total(s: Seq<ImageView>) -> int
    decreases s.len(),
{
    if s.len() == 0 {
        0
    } else {
        s[0].data.len() + spec_data_total(s.drop_first())
    }
}

/// The total is non-negative and grows by the appended asset's size.
pub proof fn lemma_data_total_push(s: Seq<ImageView>, x: ImageView)
    ensures
        spec_data_total(s) >= 0,
        spec_data_total(s.push(x)) == spec_data_total(s) + x.data.len(),
    decreases s.len(),
{
    if s.len() == 0 {
        assert(s.push(x).drop_first() =~= Seq::<ImageView>::empty());
        assert(spec_data_total(Seq::<ImageView>::empty()) == 0);
    } else {
        assert(s.push(x).drop_first() =~= s.drop_first().push(x));
        assert(s.push(x)[0] == s[0]);
        lemma_data_total_push(s.drop_first(), x);
    }
}

/// Cache statistics: row counts and total asset bytes.
#[derive(Debug, Clone, Copy)]
pub struct CacheStats {
    /// Number of cached conversations.
    pub conversations: u64,
    /// Number of cached messages.
    pub messages: u64,
    /// Number of cached assets.
    pub images: u64,
    /// Total size of cached assets in bytes, saturating.
    pub image_bytes: u64,
}

impl Clone for CachedImage {
    /// The clone is field-for-field equal to the original.
    fn clone(&self) -> (r: Self)
        ensures
            r@ == self@,
    {
        CachedImage {
            url: self.url.clone(),
            data: clone_bytes(&self.data),
            content_type: self.content_type.clone(),
            cached_at: self.cached_at,
        }
    }
}

/// Copy a byte vector.
fn clone_bytes(v: &Vec<u8>) -> (r: Vec<u8>)
    ensures
        r@ == v@,
{
    let mut r: Vec<u8> = Vec::new();
    let n = v.len();
    let mut i: usize = 0;
    while i < n
        invariant
            i <= n,
            n == v@.len(),
            r@ == v@.take(i as int),
        decreases n - i,
    {
        r.push(v[i]);
        i = i + 1;
        proof {
            assert(r@ =~= v@.take(i as int));
        }
    }
    proof {
        assert(r@ =~= v@);
    }
    r
}

/// The cache store.
#[derive(Debug)]
pub struct Cache {
    conversations: Vec<CachedConversation>,
    messages: Vec<CachedMessage>,
    index: Vec<IndexEntry>,
    images: Vec<CachedImage>,
}

impl Cache {
    /// The conversations, newest first.
    pub closed spec fn convs(&self) -> Seq<ConversationView> {
        conv_views(self.conversations@)
    }

    /// The messages, newest first.
    pub closed spec fn msgs(&self) -> Seq<MessageView> {
        msg_views(self.messages@)
    }

    /// The full-text index rows, aligned with the messages.
    pub closed spec fn entries(&self) -> Seq<IndexEntryView> {
        entry_views(self.index@)
    }

    /// The cached assets.
    pub closed spec fn imgs(&self) -> Seq<ImageView> {
        img_views(self.images@)
    }

    /// Well-formedness: ids unique, both tables sorted newest first, and the
    /// full-text index exactly mirroring the message table.
    pub open spec fn wf(&self) -> bool {
        &&& sorted_desc(self.convs(), conv_ord_key())
        &&& unique_keys(self.convs(), conv_id_key())
        &&& sorted_desc(self.msgs(), msg_ord_key())
        &&& unique_keys(self.msgs(), msg_id_key())
        &&& self.entries() == entries_of(self.msgs())
        &&& unique_keys(self.imgs(), img_key())
    }

    /// Create an empty cache store.
    pub fn new() -> (r: Self)
        ensures
            r.wf(),
            r.convs() == Seq::<ConversationView>::empty(),
            r.msgs() == Seq::<MessageView>::empty(),
            r.imgs() == Seq::<ImageView>::empty(),
    {
        let r = Cache {
            conversations: Vec::new(),
            messages: Vec::new(),
            index: Vec::new(),
            images: Vec::new(),
        };
        proof {
            assert(r.convs() =~= Seq::<ConversationView>::empty());
            assert(r.msgs() =~= Seq::<MessageView>::empty());
            assert(r.entries() =~= entries_of(r.msgs()));
            assert(r.imgs() =~= Seq::<ImageView>::empty());
        }
        r
    }

    /// Upsert a conversation: insert-or-replace by id, overwriting every
    /// denormalized field, and keep the newest-first order.
    pub fn upsert_conversation(&mut self, conv: &CachedConversation)
        requires
            old(self).wf(),
        ensures
            final(self).wf(),
            final(self).convs() == upsert_sorted(
                old(self).convs(),
                conv@,
                conv_id_key(),
                conv_ord_key(),
            ),
            final(self).msgs() == old(self).msgs(),
            final(self).entries() == old(self).entries(),
            final(self).imgs() == old(self).imgs(),
    {
        let ghost s0 = self.convs();
        let ghost idk = conv_id_key();
        let ghost ordk = conv_ord_key();
        let ghost k = conv@.id;

        // Find the row with this id, if any.
        let n = self.conversations.len();
        let mut idx: usize = n;
        let mut i: usize = 0;
        while i < n
            invariant
                n == self.conversations.len(),
                s0 == self.convs(),
                i <= n,
                idx == n || (idx < i && idk(s0[idx as int]) == k),
                forall|j: int| 0 <= j < i && j != idx ==> idk(s0[j]) != k,
            decreases n - i,
        {
            proof {
                assert(s0[i as int] == self.conversations@[i as int]@);
                assert(idk(s0[i as int]) == s0[i as int].id);
            }
            if idx == n && str_eq(self.conversations[i].id.as_str(), conv.id.as_str()) {
                idx = i;
            }
            i = i + 1;
        }

        // Remove it, leaving remove_key(s0, k).
        if idx < n {
            proof {
                lemma_key_pos_at(s0, k, idk, idx as int);
            }
            self.conversations.remove(idx);
            proof {
                assert(self.convs() =~= remove_key(s0, k, idk));
            }
        } else {
            proof {
                lemma_key_pos(s0, k, idk);
                if has_key(s0, k, idk) {
                    assert(idk(s0[crate::ordered::key_pos(s0, k, idk)]) == k);
                }
                assert(self.convs() == remove_key(s0, k, idk));
            }
        }

        // Insert the new row at its descending-order position.
        let ghost s1 = self.convs();
        let m = self.conversations.len();
        let mut p: usize = 0;
        while p < m && !str_lex_lt(
            self.conversations[p].last_activity.as_str(),
            conv.last_activity.as_str(),
        )
            invariant
                m == self.conversations.len(),
                s1 == self.convs(),
                p <= m,
                forall|j: int| 0 <= j < p ==> !lex_lt(ordk(s1[j]), conv@.last_activity),
            decreases m - p,
        {
            proof {
                assert(s1[p as int] == self.conversations@[p as int]@);
                assert(ordk(s1[p as int]) == s1[p as int].last_activity);
            }
            p = p + 1;
        }
        proof {
            if p < m {
                assert(s1[p as int] == self.conversations@[p as int]@);
                assert(ordk(s1[p as int]) == s1[p as int].last_activity);
            }
            lemma_insert_pos_at(s1, conv@.last_activity, ordk, p as int);
            lemma_upsert_sorted(s0, conv@, idk, ordk);
            lemma_upsert_unique(s0, conv@, idk, ordk);
        }
        self.conversations.insert(p, conv.clone());
        proof {
            assert(self.convs() =~= s1.take(p as int) + seq![conv@] + s1.skip(p as int));
            assert(self.convs() == upsert_sorted(s0, conv@, idk, ordk));
        }
    }

    /// Upsert a message: insert-or-replace by the composite key
    /// (id, conversation id), overwriting every field, keeping the
    /// newest-first order, and updating the full-text index row in the same
    /// logical operation.
    pub fn upsert_message(&mut self, msg: &CachedMessage)
        requires
            old(self).wf(),
        ensures
            final(self).wf(),
            final(self).msgs() == upsert_sorted(
                old(self).msgs(),
                msg@,
                msg_id_key(),
                msg_ord_key(),
            ),
            final(self).entries() == entries_of(final(self).msgs()),
            final(self).convs() == old(self).convs(),
            final(self).imgs() == old(self).imgs(),
    {
        let ghost s0 = self.msgs();
        let ghost idk = msg_id_key();
        let ghost ordk = msg_ord_key();
        let ghost k = (msg@.id, msg@.conversation_id);

        // Find the row with this composite key, if any.
        let n = self.messages.len();
        let mut idx: usize = n;
        let mut i: usize = 0;
        while i < n
            invariant
                n == self.messages.len(),
                s0 == self.msgs(),
                i <= n,
                idx == n || (idx < i && idk(s0[idx as int]) == k),
                forall|j: int| 0 <= j < i && j != idx ==> idk(s0[j]) != k,
            decreases n - i,
        {
            proof {
                assert(s0[i as int] == self.messages@[i as int]@);
                assert(idk(s0[i as int]) == (s0[i as int].id, s0[i as int].conversation_id));
            }
            if idx == n && str_eq(self.messages[i].id.as_str(), msg.id.as_str()) && str_eq(
                self.messages[i].conversation_id.as_str(),
                msg.conversation_id.as_str(),
            ) {
                idx = i;
            }
            i = i + 1;
        }

        // Remove row and index row together.
        let ghost ms_old = self.messages@;
        let ghost ix_old = self.index@;
        proof {
            assert(self.entries().len() == entries_of(s0).len());
            assert(self.index@.len() == self.messages@.len());
        }
        if idx < n {
            proof {
                lemma_key_pos_at(s0, k, idk, idx as int);
            }
            self.messages.remove(idx);
            self.index.remove(idx);
            proof {
                assert(self.msgs() =~= remove_key(s0, k, idk));
                assert forall|t: int| 0 <= t < self.index@.len() implies self.entries()[t]
                    == entries_of(self.msgs())[t] by {
                    let u = if t < idx {
                        t
                    } else {
                        t + 1
                    };
                    assert(self.index@[t] == ix_old[u]);
                    assert(self.messages@[t] == ms_old[u]);
                    assert(entry_views(ix_old)[u] == entries_of(s0)[u]);
                    assert(self.entries()[t] == ix_old[u]@);
                    assert(entries_of(self.msgs())[t] == entry_of(ms_old[u]@));
                }
                assert(self.entries() =~= entries_of(self.msgs()));
            }
        } else {
            proof {
                lemma_key_pos(s0, k, idk);
                if has_key(s0, k, idk) {
                    assert(idk(s0[crate::ordered::key_pos(s0, k, idk)]) == k);
                }
                assert(self.msgs() == remove_key(s0, k, idk));
            }
        }

        // Insert row and index row at the descending-order position.
        let ghost s1 = self.msgs();
        let m = self.messages.len();
        let mut p: usize = 0;
        while p < m && !str_lex_lt(
            self.messages[p].compose_time.as_str(),
            msg.compose_time.as_str(),
        )
            invariant
                m == self.messages.len(),
                s1 == self.msgs(),
                self.entries() == entries_of(self.msgs()),
                p <= m,
                forall|j: int| 0 <= j < p ==> !lex_lt(ordk(s1[j]), msg@.compose_time),
            decreases m - p,
        {
            proof {
                assert(s1[p as int] == self.messages@[p as int]@);
                assert(ordk(s1[p as int]) == s1[p as int].compose_time);
            }
            p = p + 1;
        }
        proof {
            if p < m {
                assert(s1[p as int] == self.messages@[p as int]@);
                assert(ordk(s1[p as int]) == s1[p as int].compose_time);
            }
            lemma_insert_pos_at(s1, msg@.compose_time, ordk, p as int);
            lemma_upsert_sorted(s0, msg@, idk, ordk);
            lemma_upsert_unique(s0, msg@, idk, ordk);
        }
        let entry = IndexEntry {
            content: msg.content.clone(),
            from_display_name: msg.from_display_name.clone(),
            conversation_id: msg.conversation_id.clone(),
        };
        let ghost ms_mid = self.messages@;
        let ghost ix_mid = self.index@;
        let ghost ev = entry@;
        self.messages.insert(p, msg.clone());
        self.index.insert(p, entry);
        proof {
            assert(self.msgs() =~= s1.take(p as int) + seq![msg@] + s1.skip(p as int));
            assert(self.msgs() == upsert_sorted(s0, msg@, idk, ordk));
            assert forall|t: int| 0 <= t < self.index@.len() implies self.entries()[t]
                == entries_of(self.msgs())[t] by {
                if t == p {
                    assert(self.index@[t]@ == ev);
                    assert(self.messages@[t]@ == msg@);
                    assert(ev == entry_of(msg@));
                } else {
                    let u = if t < p {
                        t
                    } else {
                        t - 1
                    };
                    assert(self.index@[t] == ix_mid[u]);
                    assert(self.messages@[t] == ms_mid[u]);
                    assert(entry_views(ix_mid)[u] == entries_of(msg_views(ms_mid))[u]);
                    assert(self.entries()[t] == ix_mid[u]@);
                    assert(entries_of(self.msgs())[t] == entry_of(ms_mid[u]@));
                }
            }
            assert(self.entries() =~= entries_of(self.msgs()));
        }
    }

    /// List conversations, most recently active first, capped at `limit`.
    pub fn list_conversations(&self, limit: usize) -> (r: Vec<CachedConversation>)
        ensures
            conv_views(r@) == take_at_most(self.convs(), limit as int),
    {
        let n = self.conversations.len();
        let m = if limit < n {
            limit
        } else {
            n
        };
        let mut out: Vec<CachedConversation> = Vec::new();
        proof {
            assert(conv_views(out@) =~= self.convs().take(0));
        }
        let mut i: usize = 0;
        while i < m
            invariant
                i <= m,
                conv_views(out@) == self.convs().take(i as int),
            decreases m - i,
        {
            out.push(self.conversations[i].clone());
            i = i + 1;
            proof {
                assert(conv_views(out@) =~= self.convs().take(i as int));
            }
        }
        proof {
            assert(conv_views(out@) =~= take_at_most(self.convs(), limit as int));
        }
        out
    }

    /// Fuzzy-find conversations: case-insensitive substring match against
    /// display name, member names, or id; most recently active first; at
    /// most [`FIND_LIMIT`] results. An empty result is valid, not an error.
    pub fn find_conversation(&self, query: &str) -> (r: Vec<CachedConversation>)
        ensures
            conv_views(r@) == take_at_most(
                filter_seq(self.convs(), conv_match_pred(query@)),
                FIND_LIMIT as int,
            ),
    {
        let ghost pred = conv_match_pred(query@);
        let n = self.conversations.len();
        let mut out: Vec<CachedConversation> = Vec::new();
        proof {
            assert(self.convs().take(0) =~= Seq::<ConversationView>::empty());
            assert(filter_seq(Seq::<ConversationView>::empty(), pred) == Seq::<
                ConversationView,
            >::empty());
            assert(conv_views(out@) =~= take_at_most(filter_seq(self.convs().take(0), pred), 10));
        }
        let mut i: usize = 0;
        while i < n
            invariant
                i <= n,
                conv_views(out@) == take_at_most(filter_seq(self.convs().take(i as int), pred), 10),
                out@.len() <= 10,
            decreases n - i,
        {
            let c = &self.conversations[i];
            let matched = str_has_ci(c.display_name.as_str(), query) || str_has_ci(
                c.member_names.as_str(),
                query,
            ) || str_has_ci(c.id.as_str(), query);
            proof {
                assert(self.convs().take(i + 1) =~= self.convs().take(i as int).push(
                    self.convs()[i as int],
                ));
                lemma_filter_push(self.convs().take(i as int), self.convs()[i as int], pred);
                assert(pred(self.convs()[i as int]) == matched);
            }
            let ghost f0 = filter_seq(self.convs().take(i as int), pred);
            let ghost f1 = filter_seq(self.convs().take(i + 1), pred);
            if matched && out.len() < FIND_LIMIT {
                out.push(c.clone());
                proof {
                    assert(f1 == f0.push(self.convs()[i as int]));
                    assert(conv_views(out@) =~= take_at_most(f1, 10));
                }
            } else if matched {
                proof {
                    assert(f1 == f0.push(self.convs()[i as int]));
                    assert(f0.len() >= 10);
                    assert(take_at_most(f1, 10) =~= take_at_most(f0, 10));
                }
            }
            i = i + 1;
        }
        proof {
            assert(self.convs().take(n as int) =~= self.convs());
        }
        out
    }

    /// The most recent `limit` messages of a conversation, re-ordered to
    /// chronological (oldest first) for display.
    pub fn get_messages(&self, conversation_id: &str, limit: usize) -> (r: Vec<CachedMessage>)
        ensures
            msg_views(r@) == chron_messages(self.msgs(), conversation_id@, limit as int),
    {
        let ghost pred = msg_conv_pred(conversation_id@);
        let n = self.messages.len();
        let mut tmp: Vec<CachedMessage> = Vec::new();
        proof {
            assert(self.msgs().take(0) =~= Seq::<MessageView>::empty());
            assert(filter_seq(Seq::<MessageView>::empty(), pred) == Seq::<MessageView>::empty());
            assert(msg_views(tmp@) =~= take_at_most(
                filter_seq(self.msgs().take(0), pred),
                limit as int,
            ));
        }
        let mut i: usize = 0;
        while i < n
            invariant
                i <= n,
                msg_views(tmp@) == take_at_most(
                    filter_seq(self.msgs().take(i as int), pred),
                    limit as int,
                ),
                tmp@.len() <= limit,
            decreases n - i,
        {
            let matched = str_eq(self.messages[i].conversation_id.as_str(), conversation_id);
            proof {
                assert(self.msgs().take(i + 1) =~= self.msgs().take(i as int).push(
                    self.msgs()[i as int],
                ));
                lemma_filter_push(self.msgs().take(i as int), self.msgs()[i as int], pred);
                assert(pred(self.msgs()[i as int]) == matched);
            }
            let ghost f0 = filter_seq(self.msgs().take(i as int), pred);
            let ghost f1 = filter_seq(self.msgs().take(i + 1), pred);
            if matched && tmp.len() < limit {
                tmp.push(self.messages[i].clone());
                proof {
                    assert(f1 == f0.push(self.msgs()[i as int]));
                    assert(msg_views(tmp@) =~= take_at_most(f1, limit as int));
                }
            } else if matched {
                proof {
                    assert(f1 == f0.push(self.msgs()[i as int]));
                    assert(f0.len() >= limit as int);
                    assert(take_at_most(f1, limit as int) =~= take_at_most(f0, limit as int));
                }
            }
            i = i + 1;
        }
        proof {
            assert(self.msgs().take(n as int) =~= self.msgs());
        }
        // Reverse to chronological order.
        let mut out: Vec<CachedMessage> = Vec::new();
        let mut j: usize = tmp.len();
        while j > 0
            invariant
                j <= tmp@.len(),
                out@.len() == tmp@.len() - j,
                forall|t: int|
                    0 <= t < out@.len() ==> msg_views(out@)[t] == msg_views(tmp@)[tmp@.len() - 1
                        - t],
            decreases j,
        {
            j = j - 1;
            let ghost o0 = out@;
            out.push(tmp[j].clone());
            proof {
                assert forall|t: int|
                    0 <= t < out@.len() implies msg_views(out@)[t] == msg_views(tmp@)[tmp@.len() - 1
                    - t] by {
                    if t < o0.len() {
                        assert(out@[t] == o0[t]);
                        assert(msg_views(out@)[t] == msg_views(o0)[t]);
                    } else {
                        assert(out@[t]@ == tmp@[j as int]@);
                        assert(msg_views(out@)[t] == tmp@[j as int]@);
                        assert(msg_views(tmp@)[j as int] == tmp@[j as int]@);
                    }
                }
            }
        }
        proof {
            assert(msg_views(out@) =~= msg_views(tmp@).reverse());
        }
        out
    }

    /// The display name of the cached conversation with this id, or the
    /// empty string when it is not cached.
    fn conv_name(&self, cid: &str) -> (r: String)
        ensures
            r@ == conv_name_of(self.convs(), cid@),
    {
        let ghost idk = conv_id_key();
        let n = self.conversations.len();
        let mut i: usize = 0;
        while i < n
            invariant
                i <= n,
                forall|j: int| 0 <= j < i ==> idk(self.convs()[j]) != cid@,
            decreases n - i,
        {
            proof {
                assert(idk(self.convs()[i as int]) == self.convs()[i as int].id);
            }
            if str_eq(self.conversations[i].id.as_str(), cid) {
                proof {
                    lemma_key_pos_at(self.convs(), cid@, idk, i as int);
                }
                return self.conversations[i].display_name.clone();
            }
            i = i + 1;
        }
        proof {
            lemma_key_pos(self.convs(), cid@, idk);
            if has_key(self.convs(), cid@, idk) {
                assert(idk(self.convs()[key_pos(self.convs(), cid@, idk)]) == cid@);
            }
        }
        String::new()
    }

    /// Shared body of the two full-text searches.
    fn search_impl(&self, query: &str, scope: Option<&str>, limit: usize) -> (r: Vec<SearchResult>)
        requires
            self.wf(),
        ensures
            sr_views(r@) == take_at_most(
                spec_search(
                    self.msgs(),
                    self.convs(),
                    query@,
                    match scope {
                        Option::Some(c) => Option::Some(c@),
                        Option::None => Option::<Seq<char>>::None,
                    },
                ),
                limit as int,
            ),
    {
        let ghost sv: Option<Seq<char>> = match scope {
            Option::Some(c) => Option::Some(c@),
            Option::None => Option::None,
        };
        let ghost pred = search_pred(query@, sv);
        let ghost hf = hit_fn(self.convs());
        let n = self.messages.len();
        let mut out: Vec<SearchResult> = Vec::new();
        proof {
            assert(self.msgs().take(0) =~= Seq::<MessageView>::empty());
            assert(filter_seq(Seq::<MessageView>::empty(), pred) == Seq::<MessageView>::empty());
            assert(sr_views(out@) =~= take_at_most(
                filter_seq(self.msgs().take(0), pred).map_values(hf),
                limit as int,
            ));
        }
        let mut i: usize = 0;
        while i < n
            invariant
                i <= n,
                sr_views(out@) == take_at_most(
                    filter_seq(self.msgs().take(i as int), pred).map_values(hf),
                    limit as int,
                ),
                out@.len() <= limit,
            decreases n - i,
        {
            proof {
                assert(self.entries().len() == entries_of(self.msgs()).len());
                assert(self.index@.len() == self.messages@.len());
                assert(self.entries()[i as int] == entry_of(self.msgs()[i as int]));
                assert(self.index@[i as int]@ == entry_of(self.msgs()[i as int]));
            }
            let e = &self.index[i];
            let mut matched = str_has_ci(e.content.as_str(), query) || str_has_ci(
                e.from_display_name.as_str(),
                query,
            );
            match scope {
                Option::Some(cid) => {
                    matched = matched && str_eq(e.conversation_id.as_str(), cid);
                },
                Option::None => {},
            }
            proof {
                assert(self.msgs().take(i + 1) =~= self.msgs().take(i as int).push(
                    self.msgs()[i as int],
                ));
                lemma_filter_push(self.msgs().take(i as int), self.msgs()[i as int], pred);
                assert(pred(self.msgs()[i as int]) == matched);
            }
            let ghost f0 = filter_seq(self.msgs().take(i as int), pred);
            let ghost f1 = filter_seq(self.msgs().take(i + 1), pred);
            if matched && out.len() < limit {
                let name = self.conv_name(self.messages[i].conversation_id.as_str());
                let hit = SearchResult {
                    message: self.messages[i].clone(),
                    conversation_name: name,
                };
                proof {
                    assert(hit@ == hf(self.msgs()[i as int]));
                }
                out.push(hit);
                proof {
                    assert(f1 == f0.push(self.msgs()[i as int]));
                    assert(f1.map_values(hf) =~= f0.map_values(hf).push(hf(self.msgs()[i as int])));
                    assert(sr_views(out@) =~= take_at_most(f1.map_values(hf), limit as int));
                }
            } else if matched {
                proof {
                    assert(f1 == f0.push(self.msgs()[i as int]));
                    assert(f1.map_values(hf) =~= f0.map_values(hf).push(hf(self.msgs()[i as int])));
                    assert(f0.len() >= limit as int);
                    assert(take_at_most(f1.map_values(hf), limit as int) =~= take_at_most(
                        f0.map_values(hf),
                        limit as int,
                    ));
                }
            } else {
                proof {
                    assert(f1 == f0);
                }
            }
            i = i + 1;
        }
        proof {
            assert(self.msgs().take(n as int) =~= self.msgs());
        }
        out
    }

    /// Full-text search across all cached messages, newest first, joined
    /// with the owning conversation's display name.
    pub fn search(&self, query: &str, limit: usize) -> (r: Vec<SearchResult>)
        requires
            self.wf(),
        ensures
            sr_views(r@) == take_at_most(
                spec_search(self.msgs(), self.convs(), query@, Option::None),
                limit as int,
            ),
    {
        self.search_impl(query, Option::None, limit)
    }

    /// Full-text search within a specific conversation, newest first.
    pub fn search_in_conversation(
        &self,
        query: &str,
        conversation_id: &str,
        limit: usize,
    ) -> (r: Vec<SearchResult>)
        requires
            self.wf(),
        ensures
            sr_views(r@) == take_at_most(
                spec_search(self.msgs(), self.convs(), query@, Option::Some(conversation_id@)),
                limit as int,
            ),
    {
        self.search_impl(query, Option::Some(conversation_id), limit)
    }

    /// The latest messages across the most recently active conversations:
    /// up to `per_chat` messages for each of the top `num_chats`
    /// conversations, skipping conversations without cached messages.
    pub fn latest_across_chats(&self, num_chats: usize, per_chat: usize) -> (r: Vec<
        (CachedConversation, Vec<CachedMessage>),
    >)
        ensures
            latest_views(r@) == spec_latest(
                take_at_most(self.convs(), num_chats as int),
                self.msgs(),
                per_chat as int,
            ),
    {
        let top = self.list_conversations(num_chats);
        let ghost sel = take_at_most(self.convs(), num_chats as int);
        let ghost hp = has_msgs_pred(self.msgs(), per_chat as int);
        let ghost pf = pair_fn(self.msgs(), per_chat as int);
        let mut out: Vec<(CachedConversation, Vec<CachedMessage>)> = Vec::new();
        proof {
            assert(sel.take(0) =~= Seq::<ConversationView>::empty());
            assert(filter_seq(Seq::<ConversationView>::empty(), hp) == Seq::<
                ConversationView,
            >::empty());
            assert(latest_views(out@) =~= filter_seq(sel.take(0), hp).map_values(pf));
        }
        let n = top.len();
        let mut i: usize = 0;
        while i < n
            invariant
                i <= n,
                n == top@.len(),
                conv_views(top@) == sel,
                latest_views(out@) == filter_seq(sel.take(i as int), hp).map_values(pf),
            decreases n - i,
        {
            let msgs_i = self.get_messages(top[i].id.as_str(), per_chat);
            proof {
                assert(sel[i as int] == top@[i as int]@);
                assert(sel.take(i + 1) =~= sel.take(i as int).push(sel[i as int]));
                lemma_filter_push(sel.take(i as int), sel[i as int], hp);
                assert(hp(sel[i as int]) == (chron_messages(
                    self.msgs(),
                    sel[i as int].id,
                    per_chat as int,
                ).len() > 0));
                assert(msg_views(msgs_i@) == chron_messages(
                    self.msgs(),
                    sel[i as int].id,
                    per_chat as int,
                ));
            }
            let ghost f0 = filter_seq(sel.take(i as int), hp);
            let ghost f1 = filter_seq(sel.take(i + 1), hp);
            if msgs_i.len() > 0 {
                let pair = (top[i].clone(), msgs_i);
                proof {
                    assert((pair.0@, msg_views(pair.1@)) == pf(sel[i as int]));
                }
                out.push(pair);
                proof {
                    assert(f1 == f0.push(sel[i as int]));
                    assert(f1.map_values(pf) =~= f0.map_values(pf).push(pf(sel[i as int])));
                    assert(latest_views(out@) =~= f1.map_values(pf));
                }
            } else {
                proof {
                    assert(f1 == f0);
                }
            }
            i = i + 1;
        }
        proof {
            assert(sel.take(n as int) =~= sel);
        }
        out
    }

    /// Store an asset: insert-or-replace by source URL.
    pub fn cache_image(&mut self, url: &str, data: &[u8], content_type: &str, now: i64)
        requires
            old(self).wf(),
        ensures
            final(self).wf(),
            final(self).imgs() == upsert_img(
                old(self).imgs(),
                ImageView {
                    url: url@,
                    data: data@,
                    content_type: content_type@,
                    cached_at: now as int,
                },
            ),
            final(self).convs() == old(self).convs(),
            final(self).msgs() == old(self).msgs(),
            final(self).entries() == old(self).entries(),
    {
        let ghost s0 = self.imgs();
        let ghost ik = img_key();
        let img = CachedImage {
            url: String::from_str(url),
            data: vstd::slice::slice_to_vec(data),
            content_type: String::from_str(content_type),
            cached_at: now,
        };
        let ghost xv = img@;
        let n = self.images.len();
        let mut idx: usize = n;
        let mut i: usize = 0;
        while i < n
            invariant
                i <= n,
                n == self.images@.len(),
                s0 == self.imgs(),
                idx == n || (idx < i && ik(s0[idx as int]) == url@),
                forall|j: int| 0 <= j < i && j != idx ==> ik(s0[j]) != url@,
            decreases n - i,
        {
            proof {
                assert(ik(s0[i as int]) == s0[i as int].url);
            }
            if idx == n && str_eq(self.images[i].url.as_str(), url) {
                idx = i;
            }
            i = i + 1;
        }
        if idx < n {
            proof {
                lemma_key_pos_at(s0, url@, ik, idx as int);
            }
            self.images.remove(idx);
            self.images.insert(idx, img);
            proof {
                assert(self.imgs() =~= s0.update(idx as int, xv));
                assert(self.imgs() == upsert_img(s0, xv));
                assert forall|a: int, b: int|
                    0 <= a < b < self.imgs().len() implies ik(self.imgs()[a]) != ik(
                    self.imgs()[b],
                ) by {
                    assert(s0[a].url != s0[b].url);
                }
            }
        } else {
            proof {
                lemma_key_pos(s0, url@, ik);
                if has_key(s0, url@, ik) {
                    assert(ik(s0[key_pos(s0, url@, ik)]) == url@);
                }
            }
            self.images.push(img);
            proof {
                assert(self.imgs() =~= s0.push(xv));
                assert(self.imgs() == upsert_img(s0, xv));
                assert forall|a: int, b: int|
                    0 <= a < b < self.imgs().len() implies ik(self.imgs()[a]) != ik(
                    self.imgs()[b],
                ) by {
                    if b < s0.len() {
                        assert(s0[a].url != s0[b].url);
                    } else {
                        assert(ik(s0[a]) != url@);
                    }
                }
            }
        }
    }

    /// Retrieve a cached asset's bytes by URL, or nothing when absent.
    pub fn get_image(&self, url: &str) -> (r: Option<Vec<u8>>)
        ensures
            match find_key(self.imgs(), url@, img_key()) {
                Option::Some(img) => r is Some && r.unwrap()@ == img.data,
                Option::None => r is None,
            },
    {
        let ghost ik = img_key();
        let n = self.images.len();
        let mut i: usize = 0;
        while i < n
            invariant
                i <= n,
                forall|j: int| 0 <= j < i ==> ik(self.imgs()[j]) != url@,
            decreases n - i,
        {
            proof {
                assert(ik(self.imgs()[i as int]) == self.imgs()[i as int].url);
            }
            if str_eq(self.images[i].url.as_str(), url) {
                proof {
                    lemma_key_pos_at(self.imgs(), url@, ik, i as int);
                }
                return Option::Some(clone_bytes(&self.images[i].data));
            }
            i = i + 1;
        }
        proof {
            lemma_key_pos(self.imgs(), url@, ik);
            if has_key(self.imgs(), url@, ik) {
                assert(ik(self.imgs()[key_pos(self.imgs(), url@, ik)]) == url@);
            }
        }
        Option::None
    }

    /// Whether an asset with this URL is cached.
    pub fn has_image(&self, url: &str) -> (r: bool)
        ensures
            r == has_key(self.imgs(), url@, img_key()),
    {
        let r = self.get_image(url);
        proof {
            crate::ordered::lemma_key_pos(self.imgs(), url@, img_key());
        }
        match r {
            Option::Some(_) => true,
            Option::None => false,
        }
    }

    /// Delete cached assets older than the given number of days, measured
    /// from `now`; returns how many were removed.
    pub fn prune_images(&mut self, older_than_days: u32, now: i64) -> (r: u64)
        requires
            old(self).wf(),
        ensures
            final(self).wf(),
            final(self).imgs() == filter_seq(
                old(self).imgs(),
                keep_img_pred(now as int, older_than_days as int),
            ),
            r == old(self).imgs().len() - final(self).imgs().len(),
            final(self).convs() == old(self).convs(),
            final(self).msgs() == old(self).msgs(),
            final(self).entries() == old(self).entries(),
    {
        let ghost s0 = self.imgs();
        let ghost pred = keep_img_pred(now as int, older_than_days as int);
        let cutoff: i128 = (now as i128) - (older_than_days as i128) * 86400;
        let mut kept: Vec<CachedImage> = Vec::new();
        proof {
            assert(s0.take(0) =~= Seq::<ImageView>::empty());
            assert(filter_seq(Seq::<ImageView>::empty(), pred) == Seq::<ImageView>::empty());
            assert(img_views(kept@) =~= filter_seq(s0.take(0), pred));
        }
        let n = self.images.len();
        let mut i: usize = 0;
        while i < n
            invariant
                i <= n,
                n == self.images@.len(),
                s0 == self.imgs(),
                img_views(kept@) == filter_seq(s0.take(i as int), pred),
            decreases n - i,
        {
            proof {
                assert(s0.take(i + 1) =~= s0.take(i as int).push(s0[i as int]));
                lemma_filter_push(s0.take(i as int), s0[i as int], pred);
            }
            if (self.images[i].cached_at as i128) >= cutoff {
                proof {
                    assert(pred(s0[i as int]));
                }
                kept.push(self.images[i].clone());
                proof {
                    assert(img_views(kept@) =~= filter_seq(s0.take(i + 1), pred));
                }
            } else {
                proof {
                    assert(!pred(s0[i as int]));
                }
            }
            i = i + 1;
        }
        proof {
            assert(s0.take(n as int) =~= s0);
            crate::ordered::lemma_filter_pred(s0, pred);
        }
        let removed = (n - kept.len()) as u64;
        self.images = kept;
        proof {
            crate::ordered::lemma_filter_unique(s0, pred, img_key());
        }
        removed
    }

    /// Row counts for conversations, messages and assets, and the assets'
    /// total byte size (saturating at the counter's maximum).
    pub fn stats(&self) -> (r: CacheStats)
        ensures
            r.conversations == self.convs().len(),
            r.messages == self.msgs().len(),
            r.images == self.imgs().len(),
            r.image_bytes == if spec_data_total(self.imgs()) > u64::MAX {
                u64::MAX as int
            } else {
                spec_data_total(self.imgs())
            },
    {
        let mut total: u64 = 0;
        proof {
            assert(self.imgs().take(0) =~= Seq::<ImageView>::empty());
            assert(spec_data_total(Seq::<ImageView>::empty()) == 0);
        }
        let n = self.images.len();
        let mut i: usize = 0;
        while i < n
            invariant
                i <= n,
                n == self.images@.len(),
                total == if spec_data_total(self.imgs().take(i as int)) > u64::MAX {
                    u64::MAX as int
                } else {
                    spec_data_total(self.imgs().take(i as int))
                },
            decreases n - i,
        {
            let l = self.images[i].data.len();
            proof {
                assert(self.imgs().take(i + 1) =~= self.imgs().take(i as int).push(
                    self.imgs()[i as int],
                ));
                lemma_data_total_push(self.imgs().take(i as int), self.imgs()[i as int]);
                assert(self.imgs()[i as int].data.len() == l);
            }
            total = total.saturating_add(l as u64);
            i = i + 1;
        }
        proof {
            assert(self.imgs().take(n as int) =~= self.imgs());
        }
        CacheStats {
            conversations: self.conversations.len() as u64,
            messages: self.messages.len() as u64,
            images: self.images.len() as u64,
            image_bytes: total,
        }
    }
}


/// Law: upserting a conversation twice with identical data changes nothing
/// after the first time; the id then finds exactly the new record, and
/// exactly one row carries that id.
pub proof fn lemma_upsert_conversation_idempotent(s: Seq<ConversationView>, c: ConversationView)
    requires
        unique_keys(s, conv_id_key()),
    ensures
        upsert_sorted(
            upsert_sorted(s, c, conv_id_key(), conv_ord_key()),
            c,
            conv_id_key(),
            conv_ord_key(),
        ) == upsert_sorted(s, c, conv_id_key(), conv_ord_key()),
        find_key(upsert_sorted(s, c, conv_id_key(), conv_ord_key()), c.id, conv_id_key())
            == Option::Some(c),
        count_key(upsert_sorted(s, c, conv_id_key(), conv_ord_key()), c.id, conv_id_key()) == 1,
{
    assert(conv_id_key()(c) == c.id);
    lemma_upsert_idempotent(s, c, conv_id_key(), conv_ord_key());
    lemma_upsert_found(s, c, conv_id_key(), conv_ord_key());
}

/// Law: upserting a record with an already-present id overwrites the old
/// record entirely: afterwards the id finds only the new record.
pub proof fn lemma_upsert_conversation_overwrites(
    s: Seq<ConversationView>,
    c1: ConversationView,
    c2: ConversationView,
)
    requires
        unique_keys(s, conv_id_key()),
        c2.id == c1.id,
    ensures
        find_key(
            upsert_sorted(
                upsert_sorted(s, c1, conv_id_key(), conv_ord_key()),
                c2,
                conv_id_key(),
                conv_ord_key(),
            ),
            c1.id,
            conv_id_key(),
        ) == Option::Some(c2),
{
    assert(conv_id_key()(c2) == c2.id);
    lemma_upsert_unique(s, c1, conv_id_key(), conv_ord_key());
    lemma_upsert_found(
        upsert_sorted(s, c1, conv_id_key(), conv_ord_key()),
        c2,
        conv_id_key(),
        conv_ord_key(),
    );
}

/// Law: messages with the same message id in two different conversations
/// are both retained as distinct rows: upserting the second leaves the
/// first untouched.
pub proof fn lemma_composite_key_isolation(s: Seq<MessageView>, m1: MessageView, m2: MessageView)
    requires
        unique_keys(s, msg_id_key()),
        m1.id == m2.id,
        m1.conversation_id != m2.conversation_id,
    ensures
        ({
            let s1 = upsert_sorted(s, m1, msg_id_key(), msg_ord_key());
            let s2 = upsert_sorted(s1, m2, msg_id_key(), msg_ord_key());
            find_key(s2, (m1.id, m1.conversation_id), msg_id_key()) == Option::Some(m1)
                && find_key(s2, (m2.id, m2.conversation_id), msg_id_key()) == Option::Some(m2)
        }),
{
    let s1 = upsert_sorted(s, m1, msg_id_key(), msg_ord_key());
    assert(msg_id_key()(m1) == (m1.id, m1.conversation_id));
    assert(msg_id_key()(m2) == (m2.id, m2.conversation_id));
    lemma_upsert_found(s, m1, msg_id_key(), msg_ord_key());
    lemma_upsert_unique(s, m1, msg_id_key(), msg_ord_key());
    lemma_upsert_found(s1, m2, msg_id_key(), msg_ord_key());
    lemma_upsert_preserves_others(
        s1,
        m2,
        msg_id_key(),
        msg_ord_key(),
        (m1.id, m1.conversation_id),
    );
}

/// Law: search is sound. Every hit's message matches the query in its
/// content or sender name, respects the scope, comes from the message
/// table, and carries its conversation's display name.
pub proof fn lemma_search_sound(
    msgs: Seq<MessageView>,
    convs: Seq<ConversationView>,
    q: Seq<char>,
    scope: Option<Seq<char>>,
)
    ensures
        forall|j: int|
            0 <= j < spec_search(msgs, convs, q, scope).len() ==> {
                let hit = #[trigger] spec_search(msgs, convs, q, scope)[j];
                &&& seq_has_ci(hit.message.content, q) || seq_has_ci(
                    hit.message.from_display_name,
                    q,
                )
                &&& (match scope {
                    Option::Some(cid) => hit.message.conversation_id == cid,
                    Option::None => true,
                })
                &&& exists|i: int| 0 <= i < msgs.len() && msgs[i] == hit.message
                &&& hit.conversation_name == conv_name_of(convs, hit.message.conversation_id)
            },
{
    let pred = search_pred(q, scope);
    let fs = filter_seq(msgs, pred);
    lemma_filter_pred(msgs, pred);
    assert forall|j: int| 0 <= j < spec_search(msgs, convs, q, scope).len() implies {
        let hit = #[trigger] spec_search(msgs, convs, q, scope)[j];
        &&& seq_has_ci(hit.message.content, q) || seq_has_ci(hit.message.from_display_name, q)
        &&& (match scope {
            Option::Some(cid) => hit.message.conversation_id == cid,
            Option::None => true,
        })
        &&& exists|i: int| 0 <= i < msgs.len() && msgs[i] == hit.message
        &&& hit.conversation_name == conv_name_of(convs, hit.message.conversation_id)
    } by {
        assert(spec_search(msgs, convs, q, scope)[j] == hit_fn(convs)(fs[j]));
        assert(pred(fs[j]));
        let i = choose|i: int| 0 <= i < msgs.len() && msgs[i] == fs[j];
        assert(msgs[i] == spec_search(msgs, convs, q, scope)[j].message);
    }
}

/// Law: search is complete. A stored message whose content or sender name
/// matches the query, inside the scope, surfaces as a hit.
pub proof fn lemma_search_complete(
    msgs: Seq<MessageView>,
    convs: Seq<ConversationView>,
    q: Seq<char>,
    scope: Option<Seq<char>>,
    i: int,
)
    requires
        0 <= i < msgs.len(),
        seq_has_ci(msgs[i].content, q) || seq_has_ci(msgs[i].from_display_name, q),
        match scope {
            Option::Some(cid) => msgs[i].conversation_id == cid,
            Option::None => true,
        },
    ensures
        exists|j: int|
            0 <= j < spec_search(msgs, convs, q, scope).len() && (#[trigger] spec_search(
                msgs,
                convs,
                q,
                scope,
            )[j]).message == msgs[i],
{
    let pred = search_pred(q, scope);
    assert(pred(msgs[i]));
    lemma_filter_complete(msgs, pred, i);
    let fs = filter_seq(msgs, pred);
    let j = choose|j: int| 0 <= j < fs.len() && #[trigger] fs[j] == msgs[i];
    assert(spec_search(msgs, convs, q, scope)[j] == hit_fn(convs)(fs[j]));
    assert(spec_search(msgs, convs, q, scope)[j].message == msgs[i]);
}

/// Law: after a base-table update that makes a message stop matching the
/// query, search excludes it: no hit carries a non-matching message.
pub proof fn lemma_search_excludes(
    msgs: Seq<MessageView>,
    convs: Seq<ConversationView>,
    q: Seq<char>,
    scope: Option<Seq<char>>,
    m: MessageView,
)
    requires
        !seq_has_ci(m.content, q),
        !seq_has_ci(m.from_display_name, q),
    ensures
        forall|j: int|
            0 <= j < spec_search(msgs, convs, q, scope).len() ==> (#[trigger] spec_search(
                msgs,
                convs,
                q,
                scope,
            )[j]).message != m,
{
    let pred = search_pred(q, scope);
    let fs = filter_seq(msgs, pred);
    lemma_filter_pred(msgs, pred);
    assert forall|j: int| 0 <= j < spec_search(msgs, convs, q, scope).len() implies (
    #[trigger] spec_search(msgs, convs, q, scope)[j]).message != m by {
        assert(spec_search(msgs, convs, q, scope)[j] == hit_fn(convs)(fs[j]));
        assert(pred(fs[j]));
    }
}

/// Law: when every stored message matches the query and scope, search
/// returns exactly the message table, in order — no more, no fewer.
pub proof fn lemma_search_all(
    msgs: Seq<MessageView>,
    convs: Seq<ConversationView>,
    q: Seq<char>,
    scope: Option<Seq<char>>,
)
    requires
        forall|i: int|
            0 <= i < msgs.len() ==> ((seq_has_ci(#[trigger] msgs[i].content, q) || seq_has_ci(
                msgs[i].from_display_name,
                q,
            )) && (match scope {
                Option::Some(cid) => msgs[i].conversation_id == cid,
                Option::None => true,
            })),
    ensures
        spec_search(msgs, convs, q, scope).len() == msgs.len(),
        forall|i: int|
            0 <= i < msgs.len() ==> (#[trigger] spec_search(msgs, convs, q, scope)[i]).message
                == msgs[i],
{
    let pred = search_pred(q, scope);
    assert(forall|i: int| 0 <= i < msgs.len() ==> pred(#[trigger] msgs[i]));
    lemma_filter_all(msgs, pred);
    assert(filter_seq(msgs, pred) == msgs);
    assert forall|i: int|
        0 <= i < msgs.len() implies (#[trigger] spec_search(msgs, convs, q, scope)[i]).message
        == msgs[i] by {
        assert(spec_search(msgs, convs, q, scope)[i] == hit_fn(convs)(msgs[i]));
    }
}

} // verus!

