//! The interactive client's state: panels, modes, the filtered
//! conversation list, scrolling and the input line.
//!
//! Drawing and key reading belong to the caller; every state transition
//! here is a plain function with a contract. The input line's cursor is a
//! character index and always stays inside the line.

use vstd::prelude::*;
use crate::cache::{conv_views, Cache, CachedConversation, CachedMessage, ConversationView};
use crate::config::AppConfig;
use crate::ordered::filter_seq;
use crate::text::{lower_of, seq_has, str_has, to_lower};

verus! {

/// Which panel has focus.
#[derive(Debug, Clone, Copy, PartialEq, Eq, Structural)]
pub enum Focus {
    /// The conversation list.
    ChatList,
    /// The message pane.
    Messages,
    /// The input line.
    Input,
    /// The files pane.
    Files,
}

/// Current input mode.
#[derive(Debug, Clone, Copy, PartialEq, Eq, Structural)]
pub enum Mode {
    /// Normal navigation.
    Normal,
    /// Composing a message.
    Insert,
    /// Searching inside a conversation.
    Search,
    /// The help overlay.
    Help,
    /// Fuzzy-finding a conversation.
    ChatSearch,
}

/// Left panel tab.
#[derive(Debug, Clone, Copy, PartialEq, Eq, Structural)]
pub enum SideTab {
    /// Conversations.
    Chats,
    /// Teams.
    Teams,
    /// Channels.
    Channels,
}

/// A conversation passes the list filter when the lower-cased query
/// occurs in its lower-cased display name or member names.
pub open spec fn chat_filter_pred(convs: Seq<ConversationView>, q: Seq<char>) -> spec_fn(
    int,
) -> bool {
    |i: int|
        0 <= i < convs.len() && (seq_has(lower_of(convs[i].display_name), lower_of(q)) || seq_has(
            lower_of(convs[i].member_names),
            lower_of(q),
        ))
}

/// The indices `0` to `n - 1`.
pub open spec fn index_seq(n: int) -> Seq<int> {
    Seq::new(n as nat, |i: int| i)
}

/// Views of an index list.
pub open spec fn idx_views(v: Seq<usize>) -> Seq<int> {
    v.map_values(|i: usize| i as int)
}

/// The filtered conversation list: every index when the query is empty,
/// else the indices whose conversation matches.
pub open spec fn spec_filtered(convs: Seq<ConversationView>, q: Seq<char>) -> Seq<int> {
    if q.len() == 0 {
        index_seq(convs.len() as int)
    } else {
        filter_seq(index_seq(convs.len() as int), chat_filter_pred(convs, q))
    }
}

/// Application state.
#[derive(Debug)]
pub struct App {
    /// Loaded configuration.
    pub config: AppConfig,
    /// Current input mode.
    pub mode: Mode,
    /// Which panel has focus.
    pub focus: Focus,
    /// Left panel tab.
    pub side_tab: SideTab,
    /// Whether the event loop keeps running.
    pub running: bool,
    /// The loaded conversation list.
    pub conversations: Vec<CachedConversation>,
    /// Indices into `conversations` that pass the current filter.
    pub filtered_conversations: Vec<usize>,
    /// Selected position within the filtered list.
    pub chat_selected: usize,
    /// The conversation filter text.
    pub chat_search: String,
    /// The loaded messages of the selected conversation.
    pub messages: Vec<CachedMessage>,
    /// Message pane scroll position.
    pub msg_scroll: usize,
    /// The input line.
    pub input: String,
    /// Cursor position in the input line, as a character index.
    pub cursor_pos: usize,
    /// The in-conversation search text.
    pub search_query: String,
    /// Indices of messages matching the in-conversation search.
    pub search_results: Vec<usize>,
    /// Whether the files pane is shown.
    pub show_files: bool,
    /// When the list was last refreshed, as an epoch second.
    pub last_sync: Option<i64>,
    /// Whether a sync is in flight.
    pub syncing: bool,
    /// Minutes until the credential bundle expires.
    pub token_expires_mins: Option<i64>,
    /// The status bar message.
    pub status_msg: String,
    /// The cache store, once loaded.
    pub cache: Option<Cache>,
}

impl App {
    /// The cursor stays inside the input line.
    pub open spec fn input_wf(&self) -> bool {
        self.cursor_pos <= self.input@.len()
    }

    /// Create the initial state for a loaded configuration.
    pub fn new(config: AppConfig) -> (r: App)
        ensures
            r.mode == Mode::Normal,
            r.focus == Focus::ChatList,
            r.side_tab == SideTab::Chats,
            r.running,
            r.conversations@.len() == 0,
            r.filtered_conversations@.len() == 0,
            r.chat_selected == 0,
            r.chat_search@.len() == 0,
            r.messages@.len() == 0,
            r.msg_scroll == 0,
            r.input@.len() == 0,
            r.cursor_pos == 0,
            r.input_wf(),
            r.search_query@.len() == 0,
            r.search_results@.len() == 0,
            !r.show_files,
            r.last_sync is None,
            !r.syncing,
            r.token_expires_mins is None,
            r.status_msg@.len() == 0,
            r.cache is None,
            r.config == config,
    {
        App {
            config,
            mode: Mode::Normal,
            focus: Focus::ChatList,
            side_tab: SideTab::Chats,
            running: true,
            conversations: Vec::new(),
            filtered_conversations: Vec::new(),
            chat_selected: 0,
            chat_search: String::new(),
            messages: Vec::new(),
            msg_scroll: 0,
            input: String::new(),
            cursor_pos: 0,
            search_query: String::new(),
            search_results: Vec::new(),
            show_files: false,
            last_sync: Option::None,
            syncing: false,
            token_expires_mins: Option::None,
            status_msg: String::new(),
            cache: Option::None,
        }
    }

    /// The currently selected conversation, when the selection points at
    /// a valid entry of the filtered list.
    pub fn selected_conversation<'a>(&'a self) -> (r: Option<&'a CachedConversation>)
        ensures
            match r {
                Option::Some(c) => self.chat_selected < self.filtered_conversations@.len()
                    && self.filtered_conversations@[self.chat_selected as int] < self
                    .conversations@.len() && c@ == self.conversations@[self.filtered_conversations@[
                    self.chat_selected as int] as int]@,
                Option::None => self.chat_selected >= self.filtered_conversations@.len() || self
                    .filtered_conversations@[self.chat_selected as int] >= self
                    .conversations@.len(),
            },
    {
        if self.chat_selected < self.filtered_conversations.len() {
            let idx = self.filtered_conversations[self.chat_selected];
            if idx < self.conversations.len() {
                Option::Some(&self.conversations[idx])
            } else {
                Option::None
            }
        } else {
            Option::None
        }
    }

    /// Rebuild the filtered list from the current filter text and clamp
    /// the selection to it.
    pub fn filter_conversations(&mut self)
        ensures
            idx_views(final(self).filtered_conversations@) == spec_filtered(
                conv_views(old(self).conversations@),
                old(self).chat_search@,
            ),
            final(self).chat_selected == (if old(self).chat_selected
                < final(self).filtered_conversations@.len() {
                old(self).chat_selected as int
            } else if final(self).filtered_conversations@.len() == 0 {
                0int
            } else {
                final(self).filtered_conversations@.len() - 1
            }),
            final(self).conversations == old(self).conversations,
            final(self).chat_search == old(self).chat_search,
            final(self).input == old(self).input,
            final(self).cursor_pos == old(self).cursor_pos,
    {
        let ghost cv = conv_views(self.conversations@);
        let ghost q = self.chat_search@;
        let n = self.conversations.len();
        let mut out: Vec<usize> = Vec::new();
        if self.chat_search.as_str().is_empty() {
            let mut i: usize = 0;
            while i < n
                invariant
                    i <= n,
                    idx_views(out@) == index_seq(n as int).take(i as int),
                decreases n - i,
            {
                out.push(i);
                i = i + 1;
                proof {
                    assert(idx_views(out@) =~= index_seq(n as int).take(i as int));
                }
            }
            proof {
                assert(index_seq(n as int).take(n as int) =~= index_seq(n as int));
                assert(cv.len() == n);
            }
        } else {
            let ghost pred = chat_filter_pred(cv, q);
            let ghost idxs = index_seq(n as int);
            proof {
                assert(idxs.take(0) =~= Seq::<int>::empty());
                assert(filter_seq(Seq::<int>::empty(), pred) == Seq::<int>::empty());
                assert(idx_views(out@) =~= filter_seq(idxs.take(0), pred));
            }
            let folded_query = to_lower(self.chat_search.as_str());
            let mut i: usize = 0;
            while i < n
                invariant
                    i <= n,
                    n == self.conversations@.len(),
                    cv == conv_views(self.conversations@),
                    q == self.chat_search@,
                    folded_query@ == lower_of(q),
                    idx_views(out@) == filter_seq(idxs.take(i as int), pred),
                decreases n - i,
            {
                proof {
                    assert(idxs.take(i + 1) =~= idxs.take(i as int).push(i as int));
                    crate::ordered::lemma_filter_push(idxs.take(i as int), i as int, pred);
                    assert(cv[i as int] == self.conversations@[i as int]@);
                }
                let c = &self.conversations[i];
                let folded_name = to_lower(c.display_name.as_str());
                let folded_members = to_lower(c.member_names.as_str());
                let hit = str_has(folded_name.as_str(), folded_query.as_str()) || str_has(
                    folded_members.as_str(),
                    folded_query.as_str(),
                );
                proof {
                    assert(pred(i as int) == hit);
                }
                if hit {
                    out.push(i);
                    proof {
                        assert(idx_views(out@) =~= filter_seq(idxs.take(i + 1), pred));
                    }
                }
                i = i + 1;
            }
            proof {
                assert(idxs.take(n as int) =~= idxs);
            }
        }
        self.filtered_conversations = out;
        if self.chat_selected >= self.filtered_conversations.len() {
            let len = self.filtered_conversations.len();
            self.chat_selected = if len == 0 {
                0
            } else {
                len - 1
            };
        }
    }

    /// How many conversations pass the filter.
    pub fn chat_list_len(&self) -> (r: usize)
        ensures
            r == self.filtered_conversations@.len(),
    {
        self.filtered_conversations.len()
    }

    /// Move the selection down, stopping at the end of the list.
    pub fn chat_next(&mut self)
        ensures
            final(self).chat_selected == (if old(self).filtered_conversations@.len() == 0 {
                old(self).chat_selected as int
            } else if old(self).chat_selected + 1 < old(self).filtered_conversations@.len() {
                old(self).chat_selected + 1
            } else {
                old(self).filtered_conversations@.len() - 1
            }),
            final(self).filtered_conversations == old(self).filtered_conversations,
            final(self).conversations == old(self).conversations,
    {
        let len = self.filtered_conversations.len();
        if len > 0 {
            let next = if self.chat_selected < len - 1 {
                self.chat_selected + 1
            } else {
                len - 1
            };
            self.chat_selected = next;
        }
    }

    /// Move the selection up, stopping at the start of the list.
    pub fn chat_prev(&mut self)
        ensures
            final(self).chat_selected == (if old(self).chat_selected > 0 {
                old(self).chat_selected - 1
            } else {
                0int
            }),
            final(self).filtered_conversations == old(self).filtered_conversations,
    {
        if self.chat_selected > 0 {
            self.chat_selected = self.chat_selected - 1;
        }
    }

    /// Scroll the message pane down.
    pub fn msg_scroll_down(&mut self)
        ensures
            final(self).msg_scroll == (if old(self).msg_scroll + 3 <= usize::MAX {
                old(self).msg_scroll + 3
            } else {
                usize::MAX as int
            }),
    {
        self.msg_scroll = self.msg_scroll.saturating_add(3);
    }

    /// Scroll the message pane up.
    pub fn msg_scroll_up(&mut self)
        ensures
            final(self).msg_scroll == (if old(self).msg_scroll >= 3 {
                old(self).msg_scroll - 3
            } else {
                0int
            }),
    {
        self.msg_scroll = self.msg_scroll.saturating_sub(3);
    }

    /// Scroll the message pane to the bottom; the renderer clamps it.
    pub fn msg_scroll_bottom(&mut self)
        ensures
            final(self).msg_scroll == usize::MAX,
    {
        self.msg_scroll = usize::MAX;
    }

    /// Insert a character at the cursor.
    pub fn input_char(&mut self, c: char)
        requires
            old(self).input_wf(),
            old(self).input@.len() < usize::MAX,
        ensures
            final(self).input_wf(),
            final(self).input@ == old(self).input@.take(old(self).cursor_pos as int) + seq![c]
                + old(self).input@.skip(old(self).cursor_pos as int),
            final(self).cursor_pos == old(self).cursor_pos + 1,
    {
        let n = self.input.unicode_len();
        let mut next = String::from_str(self.input.as_str().substring_char(0, self.cursor_pos));
        crate::text::push_char(&mut next, c);
        next.append(self.input.as_str().substring_char(self.cursor_pos, n));
        self.input = next;
        self.cursor_pos = self.cursor_pos + 1;
    }

    /// Delete the character before the cursor, if any.
    pub fn input_backspace(&mut self)
        requires
            old(self).input_wf(),
        ensures
            final(self).input_wf(),
            old(self).cursor_pos == 0 ==> final(self).input == old(self).input && final(self).cursor_pos == 0,
            old(self).cursor_pos > 0 ==> final(self).input@ == old(self).input@.take(
                old(self).cursor_pos - 1,
            ) + old(self).input@.skip(old(self).cursor_pos as int) && final(self).cursor_pos == old(
                self,
            ).cursor_pos - 1,
    {
        if self.cursor_pos > 0 {
            let n = self.input.unicode_len();
            let mut next = String::from_str(
                self.input.as_str().substring_char(0, self.cursor_pos - 1),
            );
            next.append(self.input.as_str().substring_char(self.cursor_pos, n));
            self.input = next;
            self.cursor_pos = self.cursor_pos - 1;
        }
    }

    /// Clear the input line.
    pub fn input_clear(&mut self)
        ensures
            final(self).input_wf(),
            final(self).input@.len() == 0,
            final(self).cursor_pos == 0,
    {
        self.input = String::new();
        self.cursor_pos = 0;
    }
}

} // verus!
