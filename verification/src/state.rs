//! The session state and its transition operations.
//!
//! One value of [`AppState`] owns everything the interface shows: the
//! dialog list, the per-dialog transcripts and unread counters, the
//! selection, the focus, the interaction mode, the search and compose
//! buffers, and the transcript scroll position. Every operation is a
//! total, verified transition; the selection invariant — the selected id
//! is visible, or nothing is selected because nothing is visible — is
//! re-established by every operation that can change the visible set.

use vstd::prelude::*;
use crate::model::{DialogSummary, MessageSummary};
use crate::store::{BadgeCounters, MessageStore, has_dialog_id, has_message_id};
use crate::text::{pop_char, push_char};
use crate::visible::{
    compute_visible,
    dialog_id_list,
    first_index_of,
    ids_contain,
    lemma_first_index_of,
    position_of_id,
    query_matches,
    title_matches,
    visible_dialogs_of,
    visible_ids_of,
};

verus! {

/// Which pane keyboard input is directed at; cycles Chats, Messages, Input.
#[derive(Debug, Clone, Copy, PartialEq, Eq, Structural)]
pub enum FocusArea {
    Chats,
    Messages,
    Input,
}

/// Order of the dialog list: backend delivery order, or case-insensitive
/// title order with ties broken by id.
#[derive(Debug, Clone, Copy, PartialEq, Eq, Structural)]
pub enum SortMode {
    Recent,
    Alphabetical,
}

/// How character input is interpreted: hotkeys, message text, or search text.
#[derive(Debug, Clone, Copy, PartialEq, Eq, Structural)]
pub enum UiMode {
    Normal,
    Compose,
    Search,
}

/// The pane after `focus` in forward cycling order.
pub open spec fn next_focus(focus: FocusArea) -> FocusArea {
    match focus {
        FocusArea::Chats => FocusArea::Messages,
        FocusArea::Messages => FocusArea::Input,
        FocusArea::Input => FocusArea::Chats,
    }
}

/// The pane before `focus` in forward cycling order.
pub open spec fn prev_focus(focus: FocusArea) -> FocusArea {
    match focus {
        FocusArea::Chats => FocusArea::Input,
        FocusArea::Messages => FocusArea::Chats,
        FocusArea::Input => FocusArea::Messages,
    }
}

/// The other sort mode.
pub open spec fn flipped_sort(sort: SortMode) -> SortMode {
    match sort {
        SortMode::Recent => SortMode::Alphabetical,
        SortMode::Alphabetical => SortMode::Recent,
    }
}

/// Whether `sel` names an id that occurs in `vis`.
pub open spec fn selected_visible(sel: Option<i64>, vis: Seq<i64>) -> bool {
    match sel {
        Some(id) => vis.contains(id),
        None => false,
    }
}

/// The first dialog in `dialogs` carrying the given id, if any.
pub open spec fn first_dialog_with(dialogs: Seq<DialogSummary>, id: i64) -> Option<DialogSummary>
    decreases dialogs.len(),
{
    if dialogs.len() == 0 {
        None
    } else if dialogs[0].id == id {
        Some(dialogs[0])
    } else {
        first_dialog_with(dialogs.drop_first(), id)
    }
}

proof fn lemma_first_dialog_with(dialogs: Seq<DialogSummary>, id: i64, i: int)
    requires
        0 <= i < dialogs.len(),
        dialogs[i].id == id,
        forall|k: int| 0 <= k < i ==> dialogs[k].id != id,
    ensures
        first_dialog_with(dialogs, id) == Some(dialogs[i]),
    decreases i,
{
    if i > 0 {
        let tail = dialogs.drop_first();
        assert forall|k: int| 0 <= k < i - 1 implies tail[k].id != id by {
            assert(tail[k] == dialogs[k + 1]);
        }
        assert(tail[i - 1] == dialogs[i]);
        lemma_first_dialog_with(tail, id, i - 1);
    }
}

proof fn lemma_first_dialog_with_none(dialogs: Seq<DialogSummary>, id: i64)
    requires
        forall|k: int| 0 <= k < dialogs.len() ==> dialogs[k].id != id,
    ensures
        first_dialog_with(dialogs, id) is None,
    decreases dialogs.len(),
{
    if dialogs.len() > 0 {
        let tail = dialogs.drop_first();
        assert forall|k: int| 0 <= k < tail.len() implies tail[k].id != id by {
            assert(tail[k] == dialogs[k + 1]);
        }
        lemma_first_dialog_with_none(tail, id);
    }
}

/// The whole client-side view state.
pub struct AppState {
    pub dialogs: Vec<DialogSummary>,
    pub selected_dialog_id: Option<i64>,
    pub messages_by_dialog: MessageStore,
    pub new_message_count_by_dialog: BadgeCounters,
    pub is_loading_dialogs: bool,
    pub is_loading_messages: bool,
    pub is_sending_message: bool,
    pub last_error: Option<String>,
    pub should_quit: bool,
    pub focus: FocusArea,
    pub sort_mode: SortMode,
    pub ui_mode: UiMode,
    pub search_query: String,
    pub compose_text: String,
    pub message_scroll_from_bottom: usize,
    pub pending_new_messages_for_selected: usize,
}

impl AppState {
    /// The visible dialog view for the current list, query and sort mode.
    pub open spec fn spec_visible(self) -> Seq<DialogSummary> {
        visible_dialogs_of(self.dialogs@, self.search_query@, self.sort_mode)
    }

    /// The ids of the visible dialogs, in view order.
    pub open spec fn spec_visible_ids(self) -> Seq<i64> {
        visible_ids_of(self.dialogs@, self.search_query@, self.sort_mode)
    }

    /// The selection invariant: the selected id is visible, or nothing is
    /// selected because nothing is visible.
    pub open spec fn selection_ok(self) -> bool {
        match self.selected_dialog_id {
            Some(id) => self.spec_visible_ids().contains(id),
            None => self.spec_visible_ids().len() == 0,
        }
    }

    /// Both keyed stores are well formed and the selection invariant holds.
    pub open spec fn wf(self) -> bool {
        &&& self.messages_by_dialog.wf()
        &&& self.new_message_count_by_dialog.wf()
        &&& self.selection_ok()
    }

    /// The transcript of the selected dialog (empty when none is selected).
    pub open spec fn spec_selected_messages(self) -> Seq<MessageSummary> {
        match self.selected_dialog_id {
            Some(id) => self.messages_by_dialog.log_of(id),
            None => Seq::empty(),
        }
    }

    /// A fresh state: no dialogs yet, the initial dialog load in flight.
    pub fn new() -> (r: Self)
        ensures
            r.wf(),
            r.dialogs@.len() == 0,
            r.selected_dialog_id is None,
            forall|id: i64| #[trigger] r.messages_by_dialog.log_of(id).len() == 0,
            forall|id: i64| #[trigger] r.new_message_count_by_dialog.count_of(id) == 0,
            r.is_loading_dialogs == true,
            r.is_loading_messages == false,
            r.is_sending_message == false,
            r.last_error is None,
            r.should_quit == false,
            r.focus == FocusArea::Chats,
            r.sort_mode == SortMode::Recent,
            r.ui_mode == UiMode::Normal,
            r.search_query@.len() == 0,
            r.compose_text@.len() == 0,
            r.message_scroll_from_bottom == 0,
            r.pending_new_messages_for_selected == 0,
    {
        let r = AppState {
            dialogs: Vec::new(),
            selected_dialog_id: None,
            messages_by_dialog: MessageStore::new(),
            new_message_count_by_dialog: BadgeCounters::new(),
            is_loading_dialogs: true,
            is_loading_messages: false,
            is_sending_message: false,
            last_error: None,
            should_quit: false,
            focus: FocusArea::Chats,
            sort_mode: SortMode::Recent,
            ui_mode: UiMode::Normal,
            search_query: String::new(),
            compose_text: String::new(),
            message_scroll_from_bottom: 0,
            pending_new_messages_for_selected: 0,
        };
        proof {
            assert(r.spec_visible_ids().len() == 0);
        }
        r
    }

    /// The currently selected dialog id, if any.
    pub fn selected_dialog_id(&self) -> (r: Option<i64>)
        ensures
            r == self.selected_dialog_id,
    {
        self.selected_dialog_id
    }

    /// The unread count shown beside a dialog.
    pub fn dialog_new_message_count(&self, dialog_id: i64) -> (r: usize)
        ensures
            r == self.new_message_count_by_dialog.count_of(dialog_id),
    {
        self.new_message_count_by_dialog.get(dialog_id)
    }

    /// The visible dialogs, filtered and ordered for display.
    pub fn visible_dialogs(&self) -> (r: Vec<DialogSummary>)
        ensures
            r@ == self.spec_visible(),
    {
        compute_visible(&self.dialogs, self.search_query.as_str(), self.sort_mode)
    }

    /// The ids of the visible dialogs, in view order.
    fn visible_dialog_ids(&self) -> (r: Vec<i64>)
        ensures
            r@ == self.spec_visible_ids(),
    {
        let v = self.visible_dialogs();
        dialog_id_list(&v)
    }

    /// Whether a dialog passes the current search query.
    pub fn matches_query(&self, dialog: &DialogSummary) -> (r: bool)
        ensures
            r == title_matches(dialog.title@, self.search_query@),
    {
        query_matches(dialog.title.as_str(), self.search_query.as_str())
    }

    /// Re-establish the selection invariant: keep a still-visible
    /// selection, else snap to the first visible dialog, else clear.
    fn ensure_selection(&mut self)
        requires
            old(self).messages_by_dialog.wf(),
            old(self).new_message_count_by_dialog.wf(),
        ensures
            final(self).wf(),
            ({
                let vis = old(self).spec_visible_ids();
                if vis.len() == 0 {
                    *final(self) == (AppState { selected_dialog_id: None, ..*old(self) })
                } else if selected_visible(old(self).selected_dialog_id, vis) {
                    *final(self) == *old(self)
                } else {
                    *final(self) == (AppState {
                        selected_dialog_id: Some(vis[0]),
                        message_scroll_from_bottom: 0,
                        pending_new_messages_for_selected: 0,
                        ..*old(self)
                    })
                }
            }),
    {
        let vis = self.visible_dialog_ids();
        if vis.is_empty() {
            self.selected_dialog_id = None;
            return;
        }
        let keep = match self.selected_dialog_id {
            Some(id) => ids_contain(&vis, id),
            None => false,
        };
        if !keep {
            let first = vis[0];
            self.selected_dialog_id = Some(first);
            self.message_scroll_from_bottom = 0;
            self.pending_new_messages_for_selected = 0;
            proof {
                assert(old(self).spec_visible_ids().contains(first));
            }
        }
    }

    /// The selected dialog's entry in the raw dialog list, if any.
    pub fn selected_dialog(&self) -> (r: Option<&DialogSummary>)
        ensures
            match self.selected_dialog_id {
                None => r is None,
                Some(id) => match r {
                    Some(d) => first_dialog_with(self.dialogs@, id) == Some(*d),
                    None => first_dialog_with(self.dialogs@, id) is None,
                },
            },
    {
        let id = match self.selected_dialog_id {
            Some(id) => id,
            None => {
                return None;
            },
        };
        let n = self.dialogs.len();
        let mut i: usize = 0;
        while i < n
            invariant
                self.selected_dialog_id == Some(id),
                n == self.dialogs@.len(),
                i <= n,
                forall|k: int| 0 <= k < i ==> self.dialogs@[k].id != id,
            decreases n - i,
        {
            if self.dialogs[i].id == id {
                proof {
                    lemma_first_dialog_with(self.dialogs@, id, i as int);
                }
                return Some(&self.dialogs[i]);
            }
            i = i + 1;
        }
        proof {
            lemma_first_dialog_with_none(self.dialogs@, id);
        }
        None
    }

    /// The transcript of the selected dialog (empty when none is
    /// selected or none is loaded).
    pub fn selected_dialog_messages(&self) -> (r: &[MessageSummary])
        ensures
            r@ == self.spec_selected_messages(),
    {
        match self.selected_dialog_id {
            Some(id) => match self.messages_by_dialog.get_log(id) {
                Some(v) => v.as_slice(),
                None => {
                    proof {
                        assert(self.spec_selected_messages() =~= Seq::<MessageSummary>::empty());
                    }
                    &[]
                },
            },
            None => &[],
        }
    }

    /// Where the selected dialog stands in the visible view, if anywhere.
    pub fn selected_visible_index(&self) -> (r: Option<usize>)
        ensures
            match self.selected_dialog_id {
                None => r is None,
                Some(id) => {
                    let vis = self.spec_visible_ids();
                    if vis.contains(id) {
                        r == Some(first_index_of(vis, id) as usize)
                    } else {
                        r is None
                    }
                },
            },
    {
        let id = match self.selected_dialog_id {
            Some(id) => id,
            None => {
                return None;
            },
        };
        let vis = self.visible_dialog_ids();
        let r = position_of_id(&vis, id);
        proof {
            match r {
                Some(i) => {
                    lemma_first_index_of(vis@, id, i as int);
                },
                None => {},
            }
        }
        r
    }

    /// Move the selection one step up the visible list. Without a valid
    /// selection this selects the first visible dialog; at the top edge it
    /// is a no-op. Reports whether the selection changed.
    pub fn select_prev(&mut self) -> (changed: bool)
        requires
            old(self).wf(),
        ensures
            final(self).wf(),
            ({
                let vis = old(self).spec_visible_ids();
                if vis.len() == 0 {
                    !changed && *final(self) == *old(self)
                } else if !selected_visible(old(self).selected_dialog_id, vis) {
                    changed && *final(self) == (AppState {
                        selected_dialog_id: Some(vis[0]),
                        pending_new_messages_for_selected: 0,
                        ..*old(self)
                    })
                } else {
                    let pos = first_index_of(vis, old(self).selected_dialog_id.unwrap());
                    if pos == 0 {
                        !changed && *final(self) == *old(self)
                    } else {
                        changed && *final(self) == (AppState {
                            selected_dialog_id: Some(vis[pos - 1]),
                            message_scroll_from_bottom: 0,
                            pending_new_messages_for_selected: 0,
                            ..*old(self)
                        })
                    }
                }
            }),
    {
        let vis = self.visible_dialog_ids();
        if vis.is_empty() {
            return false;
        }
        let cur = match self.selected_dialog_id {
            Some(id) => id,
            None => {
                let first = vis[0];
                self.selected_dialog_id = Some(first);
                self.pending_new_messages_for_selected = 0;
                proof {
                    assert(old(self).spec_visible_ids().contains(first));
                }
                return true;
            },
        };
        match position_of_id(&vis, cur) {
            None => {
                let first = vis[0];
                self.selected_dialog_id = Some(first);
                self.pending_new_messages_for_selected = 0;
                proof {
                    assert(old(self).spec_visible_ids().contains(first));
                }
                true
            },
            Some(pos) => {
                proof {
                    assert(vis@[pos as int] == cur);
                    lemma_first_index_of(vis@, cur, pos as int);
                }
                if pos == 0 {
                    return false;
                }
                let target = vis[pos - 1];
                self.selected_dialog_id = Some(target);
                self.message_scroll_from_bottom = 0;
                self.pending_new_messages_for_selected = 0;
                proof {
                    assert(old(self).spec_visible_ids().contains(target));
                }
                true
            },
        }
    }

    /// Move the selection one step down the visible list. Without a valid
    /// selection this selects the first visible dialog; at the bottom edge
    /// it is a no-op. Reports whether the selection changed.
    pub fn select_next(&mut self) -> (changed: bool)
        requires
            old(self).wf(),
        ensures
            final(self).wf(),
            ({
                let vis = old(self).spec_visible_ids();
                if vis.len() == 0 {
                    !changed && *final(self) == *old(self)
                } else if !selected_visible(old(self).selected_dialog_id, vis) {
                    changed && *final(self) == (AppState {
                        selected_dialog_id: Some(vis[0]),
                        pending_new_messages_for_selected: 0,
                        ..*old(self)
                    })
                } else {
                    let pos = first_index_of(vis, old(self).selected_dialog_id.unwrap());
                    if pos + 1 >= vis.len() {
                        !changed && *final(self) == *old(self)
                    } else {
                        changed && *final(self) == (AppState {
                            selected_dialog_id: Some(vis[pos + 1]),
                            message_scroll_from_bottom: 0,
                            pending_new_messages_for_selected: 0,
                            ..*old(self)
                        })
                    }
                }
            }),
    {
        let vis = self.visible_dialog_ids();
        if vis.is_empty() {
            return false;
        }
        let cur = match self.selected_dialog_id {
            Some(id) => id,
            None => {
                let first = vis[0];
                self.selected_dialog_id = Some(first);
                self.pending_new_messages_for_selected = 0;
                proof {
                    assert(old(self).spec_visible_ids().contains(first));
                }
                return true;
            },
        };
        match position_of_id(&vis, cur) {
            None => {
                let first = vis[0];
                self.selected_dialog_id = Some(first);
                self.pending_new_messages_for_selected = 0;
                proof {
                    assert(old(self).spec_visible_ids().contains(first));
                }
                true
            },
            Some(pos) => {
                proof {
                    assert(vis@[pos as int] == cur);
                    lemma_first_index_of(vis@, cur, pos as int);
                }
                if pos + 1 >= vis.len() {
                    return false;
                }
                let target = vis[pos + 1];
                self.selected_dialog_id = Some(target);
                self.message_scroll_from_bottom = 0;
                self.pending_new_messages_for_selected = 0;
                proof {
                    assert(old(self).spec_visible_ids().contains(target));
                }
                true
            },
        }
    }

    /// Move focus one pane forward.
    pub fn focus_next(&mut self)
        ensures
            *final(self) == (AppState { focus: next_focus(old(self).focus), ..*old(self) }),
    {
        self.focus = match self.focus {
            FocusArea::Chats => FocusArea::Messages,
            FocusArea::Messages => FocusArea::Input,
            FocusArea::Input => FocusArea::Chats,
        };
    }

    /// Move focus one pane backward.
    pub fn focus_prev(&mut self)
        ensures
            *final(self) == (AppState { focus: prev_focus(old(self).focus), ..*old(self) }),
    {
        self.focus = match self.focus {
            FocusArea::Chats => FocusArea::Input,
            FocusArea::Messages => FocusArea::Chats,
            FocusArea::Input => FocusArea::Messages,
        };
    }

    /// Enter compose mode; focus moves to the input pane.
    pub fn enter_compose(&mut self)
        ensures
            *final(self) == (AppState {
                ui_mode: UiMode::Compose,
                focus: FocusArea::Input,
                ..*old(self)
            }),
    {
        self.ui_mode = UiMode::Compose;
        self.focus = FocusArea::Input;
    }

    /// Leave compose mode.
    pub fn exit_compose(&mut self)
        ensures
            *final(self) == (AppState { ui_mode: UiMode::Normal, ..*old(self) }),
    {
        self.ui_mode = UiMode::Normal;
    }

    /// Enter search mode; focus is forced to the chats pane.
    pub fn start_search(&mut self)
        ensures
            *final(self) == (AppState {
                ui_mode: UiMode::Search,
                focus: FocusArea::Chats,
                ..*old(self)
            }),
    {
        self.ui_mode = UiMode::Search;
        self.focus = FocusArea::Chats;
    }

    /// Take a freshly loaded dialog list: replace the collection, prune
    /// counters for dialogs that are gone, and re-validate the selection.
    pub fn on_dialogs_loaded(&mut self, dialogs: Vec<DialogSummary>)
        requires
            old(self).messages_by_dialog.wf(),
            old(self).new_message_count_by_dialog.wf(),
        ensures
            final(self).wf(),
            final(self).dialogs == dialogs,
            final(self).is_loading_dialogs == false,
            forall|q: i64|
                #[trigger] final(self).new_message_count_by_dialog.count_of(q) == (
                if has_dialog_id(dialogs@, q) {
                    old(self).new_message_count_by_dialog.count_of(q)
                } else {
                    0
                }),
            final(self).messages_by_dialog == old(self).messages_by_dialog,
            final(self).is_loading_messages == old(self).is_loading_messages,
            final(self).is_sending_message == old(self).is_sending_message,
            final(self).last_error == old(self).last_error,
            final(self).should_quit == old(self).should_quit,
            final(self).focus == old(self).focus,
            final(self).sort_mode == old(self).sort_mode,
            final(self).ui_mode == old(self).ui_mode,
            final(self).search_query == old(self).search_query,
            final(self).compose_text == old(self).compose_text,
            ({
                let vis = visible_ids_of(dialogs@, old(self).search_query@, old(self).sort_mode);
                if vis.len() == 0 {
                    &&& final(self).selected_dialog_id is None
                    &&& final(self).message_scroll_from_bottom == old(self).message_scroll_from_bottom
                    &&& final(self).pending_new_messages_for_selected == old(self).pending_new_messages_for_selected
                } else if selected_visible(old(self).selected_dialog_id, vis) {
                    &&& final(self).selected_dialog_id == old(self).selected_dialog_id
                    &&& final(self).message_scroll_from_bottom == old(self).message_scroll_from_bottom
                    &&& final(self).pending_new_messages_for_selected == old(self).pending_new_messages_for_selected
                } else {
                    &&& final(self).selected_dialog_id == Some(vis[0])
                    &&& final(self).message_scroll_from_bottom == 0
                    &&& final(self).pending_new_messages_for_selected == 0
                }
            }),
    {
        self.dialogs = dialogs;
        self.new_message_count_by_dialog.retain_present(&self.dialogs);
        self.is_loading_dialogs = false;
        self.ensure_selection();
    }

    /// Take a freshly loaded transcript for a dialog: replace its message
    /// list, clear its unread counter, and — when it is the selected
    /// dialog — snap the viewport back to the bottom.
    pub fn on_messages_loaded(&mut self, dialog_id: i64, messages: Vec<MessageSummary>)
        requires
            old(self).wf(),
        ensures
            final(self).wf(),
            final(self).messages_by_dialog.log_of(dialog_id) == messages@,
            forall|q: i64|
                q != dialog_id ==> final(self).messages_by_dialog.log_of(q) == #[trigger] old(self).messages_by_dialog.log_of(q),
            final(self).new_message_count_by_dialog.count_of(dialog_id) == 0,
            forall|q: i64|
                q != dialog_id ==> final(self).new_message_count_by_dialog.count_of(q)
                    == #[trigger] old(self).new_message_count_by_dialog.count_of(q),
            final(self).is_loading_messages == false,
            old(self).selected_dialog_id == Some(dialog_id) ==> final(self).message_scroll_from_bottom == 0 && final(self).pending_new_messages_for_selected
                == 0,
            old(self).selected_dialog_id != Some(dialog_id) ==> final(self).message_scroll_from_bottom == old(self).message_scroll_from_bottom && final(self).pending_new_messages_for_selected == old(self).pending_new_messages_for_selected,
            *final(self) == (AppState {
                messages_by_dialog: final(self).messages_by_dialog,
                new_message_count_by_dialog: final(self).new_message_count_by_dialog,
                is_loading_messages: false,
                message_scroll_from_bottom: final(self).message_scroll_from_bottom,
                pending_new_messages_for_selected: final(self).pending_new_messages_for_selected,
                ..*old(self)
            }),
    {
        self.messages_by_dialog.set_log(dialog_id, messages);
        self.new_message_count_by_dialog.clear(dialog_id);
        self.is_loading_messages = false;
        let selected = match self.selected_dialog_id {
            Some(id) => id == dialog_id,
            None => false,
        };
        if selected {
            self.message_scroll_from_bottom = 0;
            self.pending_new_messages_for_selected = 0;
        }
    }

    /// Take the echo of a sent message: append it (idempotently by id),
    /// clear the sending flag and the compose buffer, and drop the last
    /// error.
    pub fn on_message_sent(&mut self, dialog_id: i64, message: MessageSummary)
        requires
            old(self).wf(),
        ensures
            final(self).wf(),
            !has_message_id(old(self).messages_by_dialog.log_of(dialog_id), message.id) ==> final(self).messages_by_dialog.log_of(dialog_id) == old(self).messages_by_dialog.log_of(
                dialog_id,
            ).push(message),
            has_message_id(old(self).messages_by_dialog.log_of(dialog_id), message.id) ==> final(self).messages_by_dialog == old(self).messages_by_dialog,
            forall|q: i64|
                q != dialog_id ==> final(self).messages_by_dialog.log_of(q) == #[trigger] old(self).messages_by_dialog.log_of(q),
            final(self).is_sending_message == false,
            final(self).compose_text@.len() == 0,
            final(self).last_error is None,
            *final(self) == (AppState {
                messages_by_dialog: final(self).messages_by_dialog,
                is_sending_message: false,
                compose_text: final(self).compose_text,
                last_error: None,
                ..*old(self)
            }),
    {
        self.messages_by_dialog.append_if_missing(dialog_id, message);
        self.is_sending_message = false;
        self.compose_text = String::new();
        self.last_error = None;
    }

    /// Take a pushed incoming message. The append is idempotent by id; a
    /// duplicate changes nothing at all. A new message for a non-selected
    /// dialog bumps that dialog's unread badge only; one for the selected
    /// dialog bumps the pending indicator only while the viewport is
    /// scrolled away from the bottom, and changes no counter at the
    /// bottom. Both counters saturate at the top of `usize`, so below that
    /// machine limit a bump reads as exactly one more message.
    pub fn on_incoming_message(&mut self, dialog_id: i64, message: MessageSummary)
        requires
            old(self).wf(),
        ensures
            final(self).wf(),
            has_message_id(old(self).messages_by_dialog.log_of(dialog_id), message.id) ==> *final(self) == *old(self),
            forall|q: i64|
                q != dialog_id ==> final(self).messages_by_dialog.log_of(q) == #[trigger] old(self).messages_by_dialog.log_of(q),
            ({
                let appended = !has_message_id(
                    old(self).messages_by_dialog.log_of(dialog_id),
                    message.id,
                );
                let to_selected = old(self).selected_dialog_id == Some(dialog_id);
                appended ==> {
                    &&& final(self).messages_by_dialog.log_of(dialog_id) == old(self).messages_by_dialog.log_of(dialog_id).push(message)
                    &&& (to_selected ==> {
                        &&& final(self).new_message_count_by_dialog == old(self).new_message_count_by_dialog
                        &&& (old(self).message_scroll_from_bottom > 0 ==> final(self).pending_new_messages_for_selected == (if old(self).pending_new_messages_for_selected == usize::MAX {
                            usize::MAX as int
                        } else {
                            old(self).pending_new_messages_for_selected + 1
                        }))
                        &&& (old(self).message_scroll_from_bottom == 0 ==> final(self).pending_new_messages_for_selected == old(self).pending_new_messages_for_selected)
                    })
                    &&& (!to_selected ==> {
                        &&& final(self).pending_new_messages_for_selected == old(self).pending_new_messages_for_selected
                        &&& final(self).new_message_count_by_dialog.count_of(dialog_id) == (
                        if old(self).new_message_count_by_dialog.count_of(dialog_id)
                            == usize::MAX {
                            usize::MAX as int
                        } else {
                            old(self).new_message_count_by_dialog.count_of(dialog_id) + 1
                        })
                        &&& forall|q: i64|
                            q != dialog_id ==> final(self).new_message_count_by_dialog.count_of(q)
                                == #[trigger] old(self).new_message_count_by_dialog.count_of(q)
                    })
                    &&& *final(self) == (AppState {
                        messages_by_dialog: final(self).messages_by_dialog,
                        new_message_count_by_dialog: final(self).new_message_count_by_dialog,
                        pending_new_messages_for_selected: final(self).pending_new_messages_for_selected,
                        ..*old(self)
                    })
                }
            }),
    {
        let appended = self.messages_by_dialog.append_if_missing(dialog_id, message);
        if !appended {
            return;
        }
        let to_selected = match self.selected_dialog_id {
            Some(id) => id == dialog_id,
            None => false,
        };
        if to_selected {
            if self.message_scroll_from_bottom > 0 {
                self.pending_new_messages_for_selected = if self.pending_new_messages_for_selected
                    == usize::MAX {
                    usize::MAX
                } else {
                    self.pending_new_messages_for_selected + 1
                };
            }
        } else {
            self.new_message_count_by_dialog.increment(dialog_id);
        }
    }

    /// Flip between delivery order and alphabetical order, then
    /// re-validate the selection against the re-ordered view.
    pub fn toggle_sort_mode(&mut self)
        requires
            old(self).messages_by_dialog.wf(),
            old(self).new_message_count_by_dialog.wf(),
        ensures
            final(self).wf(),
            final(self).sort_mode == flipped_sort(old(self).sort_mode),
            final(self).dialogs == old(self).dialogs,
            final(self).messages_by_dialog == old(self).messages_by_dialog,
            final(self).new_message_count_by_dialog == old(self).new_message_count_by_dialog,
            final(self).is_loading_dialogs == old(self).is_loading_dialogs,
            final(self).is_loading_messages == old(self).is_loading_messages,
            final(self).is_sending_message == old(self).is_sending_message,
            final(self).last_error == old(self).last_error,
            final(self).should_quit == old(self).should_quit,
            final(self).focus == old(self).focus,
            final(self).ui_mode == old(self).ui_mode,
            final(self).search_query == old(self).search_query,
            final(self).compose_text == old(self).compose_text,
            ({
                let vis = visible_ids_of(
                    old(self).dialogs@,
                    old(self).search_query@,
                    flipped_sort(old(self).sort_mode),
                );
                if vis.len() == 0 {
                    &&& final(self).selected_dialog_id is None
                    &&& final(self).message_scroll_from_bottom == old(self).message_scroll_from_bottom
                    &&& final(self).pending_new_messages_for_selected == old(self).pending_new_messages_for_selected
                } else if selected_visible(old(self).selected_dialog_id, vis) {
                    &&& final(self).selected_dialog_id == old(self).selected_dialog_id
                    &&& final(self).message_scroll_from_bottom == old(self).message_scroll_from_bottom
                    &&& final(self).pending_new_messages_for_selected == old(self).pending_new_messages_for_selected
                } else {
                    &&& final(self).selected_dialog_id == Some(vis[0])
                    &&& final(self).message_scroll_from_bottom == 0
                    &&& final(self).pending_new_messages_for_selected == 0
                }
            }),
    {
        self.sort_mode = match self.sort_mode {
            SortMode::Recent => SortMode::Alphabetical,
            SortMode::Alphabetical => SortMode::Recent,
        };
        self.ensure_selection();
    }

    /// One escape step for search mode: a non-empty query is cleared (the
    /// mode stays, so the next escape leaves it); an empty query leaves
    /// search mode.
    pub fn exit_or_clear_search(&mut self)
        requires
            old(self).wf(),
        ensures
            final(self).wf(),
            old(self).search_query@.len() == 0 ==> *final(self) == (AppState {
                ui_mode: UiMode::Normal,
                ..*old(self)
            }),
            old(self).search_query@.len() > 0 ==> {
                &&& final(self).search_query@.len() == 0
                &&& final(self).ui_mode == old(self).ui_mode
                &&& final(self).dialogs == old(self).dialogs
                &&& final(self).messages_by_dialog == old(self).messages_by_dialog
                &&& final(self).new_message_count_by_dialog == old(self).new_message_count_by_dialog
                &&& final(self).is_loading_dialogs == old(self).is_loading_dialogs
                &&& final(self).is_loading_messages == old(self).is_loading_messages
                &&& final(self).is_sending_message == old(self).is_sending_message
                &&& final(self).last_error == old(self).last_error
                &&& final(self).should_quit == old(self).should_quit
                &&& final(self).focus == old(self).focus
                &&& final(self).sort_mode == old(self).sort_mode
                &&& final(self).compose_text == old(self).compose_text
                &&& ({
                    let vis = visible_ids_of(
                        old(self).dialogs@,
                        Seq::<char>::empty(),
                        old(self).sort_mode,
                    );
                    if vis.len() == 0 {
                        &&& final(self).selected_dialog_id is None
                        &&& final(self).message_scroll_from_bottom == old(self).message_scroll_from_bottom
                        &&& final(self).pending_new_messages_for_selected == old(self).pending_new_messages_for_selected
                    } else if selected_visible(old(self).selected_dialog_id, vis) {
                        &&& final(self).selected_dialog_id == old(self).selected_dialog_id
                        &&& final(self).message_scroll_from_bottom == old(self).message_scroll_from_bottom
                        &&& final(self).pending_new_messages_for_selected == old(self).pending_new_messages_for_selected
                    } else {
                        &&& final(self).selected_dialog_id == Some(vis[0])
                        &&& final(self).message_scroll_from_bottom == 0
                        &&& final(self).pending_new_messages_for_selected == 0
                    }
                })
            },
    {
        if self.search_query.as_str().is_empty() {
            self.ui_mode = UiMode::Normal;
        } else {
            self.search_query = String::new();
            self.ensure_selection();
        }
    }

    /// Route one typed character: to the compose buffer in compose mode,
    /// to the search query (re-validating the selection) in search mode,
    /// nowhere in normal mode.
    pub fn insert_char(&mut self, ch: char)
        requires
            old(self).wf(),
        ensures
            final(self).wf(),
            old(self).ui_mode == UiMode::Compose ==> {
                &&& final(self).compose_text@ == old(self).compose_text@.push(ch)
                &&& *final(self) == (AppState {
                    compose_text: final(self).compose_text,
                    ..*old(self)
                })
            },
            old(self).ui_mode == UiMode::Normal ==> *final(self) == *old(self),
            old(self).ui_mode == UiMode::Search ==> {
                &&& final(self).search_query@ == old(self).search_query@.push(ch)
                &&& final(self).dialogs == old(self).dialogs
                &&& final(self).messages_by_dialog == old(self).messages_by_dialog
                &&& final(self).new_message_count_by_dialog == old(self).new_message_count_by_dialog
                &&& final(self).is_loading_dialogs == old(self).is_loading_dialogs
                &&& final(self).is_loading_messages == old(self).is_loading_messages
                &&& final(self).is_sending_message == old(self).is_sending_message
                &&& final(self).last_error == old(self).last_error
                &&& final(self).should_quit == old(self).should_quit
                &&& final(self).focus == old(self).focus
                &&& final(self).sort_mode == old(self).sort_mode
                &&& final(self).ui_mode == old(self).ui_mode
                &&& final(self).compose_text == old(self).compose_text
                &&& ({
                    let vis = visible_ids_of(
                        old(self).dialogs@,
                        old(self).search_query@.push(ch),
                        old(self).sort_mode,
                    );
                    if vis.len() == 0 {
                        &&& final(self).selected_dialog_id is None
                        &&& final(self).message_scroll_from_bottom == old(self).message_scroll_from_bottom
                        &&& final(self).pending_new_messages_for_selected == old(self).pending_new_messages_for_selected
                    } else if selected_visible(old(self).selected_dialog_id, vis) {
                        &&& final(self).selected_dialog_id == old(self).selected_dialog_id
                        &&& final(self).message_scroll_from_bottom == old(self).message_scroll_from_bottom
                        &&& final(self).pending_new_messages_for_selected == old(self).pending_new_messages_for_selected
                    } else {
                        &&& final(self).selected_dialog_id == Some(vis[0])
                        &&& final(self).message_scroll_from_bottom == 0
                        &&& final(self).pending_new_messages_for_selected == 0
                    }
                })
            },
    {
        match self.ui_mode {
            UiMode::Compose => {
                push_char(&mut self.compose_text, ch);
            },
            UiMode::Search => {
                push_char(&mut self.search_query, ch);
                self.ensure_selection();
            },
            UiMode::Normal => {},
        }
    }

    /// Erase one character: from the compose buffer in compose mode, from
    /// the search query (re-validating the selection) in search mode,
    /// nothing in normal mode.
    pub fn backspace(&mut self)
        requires
            old(self).wf(),
        ensures
            final(self).wf(),
            old(self).ui_mode == UiMode::Compose ==> {
                &&& final(self).compose_text@ == (if old(self).compose_text@.len() > 0 {
                    old(self).compose_text@.drop_last()
                } else {
                    old(self).compose_text@
                })
                &&& *final(self) == (AppState {
                    compose_text: final(self).compose_text,
                    ..*old(self)
                })
            },
            old(self).ui_mode == UiMode::Normal ==> *final(self) == *old(self),
            old(self).ui_mode == UiMode::Search ==> {
                &&& final(self).search_query@ == (if old(self).search_query@.len() > 0 {
                    old(self).search_query@.drop_last()
                } else {
                    old(self).search_query@
                })
                &&& final(self).dialogs == old(self).dialogs
                &&& final(self).messages_by_dialog == old(self).messages_by_dialog
                &&& final(self).new_message_count_by_dialog == old(self).new_message_count_by_dialog
                &&& final(self).is_loading_dialogs == old(self).is_loading_dialogs
                &&& final(self).is_loading_messages == old(self).is_loading_messages
                &&& final(self).is_sending_message == old(self).is_sending_message
                &&& final(self).last_error == old(self).last_error
                &&& final(self).should_quit == old(self).should_quit
                &&& final(self).focus == old(self).focus
                &&& final(self).sort_mode == old(self).sort_mode
                &&& final(self).ui_mode == old(self).ui_mode
                &&& final(self).compose_text == old(self).compose_text
                &&& ({
                    let vis = visible_ids_of(
                        old(self).dialogs@,
                        final(self).search_query@,
                        old(self).sort_mode,
                    );
                    if vis.len() == 0 {
                        &&& final(self).selected_dialog_id is None
                        &&& final(self).message_scroll_from_bottom == old(self).message_scroll_from_bottom
                        &&& final(self).pending_new_messages_for_selected == old(self).pending_new_messages_for_selected
                    } else if selected_visible(old(self).selected_dialog_id, vis) {
                        &&& final(self).selected_dialog_id == old(self).selected_dialog_id
                        &&& final(self).message_scroll_from_bottom == old(self).message_scroll_from_bottom
                        &&& final(self).pending_new_messages_for_selected == old(self).pending_new_messages_for_selected
                    } else {
                        &&& final(self).selected_dialog_id == Some(vis[0])
                        &&& final(self).message_scroll_from_bottom == 0
                        &&& final(self).pending_new_messages_for_selected == 0
                    }
                })
            },
    {
        match self.ui_mode {
            UiMode::Compose => {
                pop_char(&mut self.compose_text);
            },
            UiMode::Search => {
                pop_char(&mut self.search_query);
                self.ensure_selection();
            },
            UiMode::Normal => {},
        }
    }

    /// Scroll the transcript one row further from the bottom.
    pub fn scroll_messages_up(&mut self)
        ensures
            *final(self) == (AppState {
                message_scroll_from_bottom: (if old(self).message_scroll_from_bottom
                    == usize::MAX {
                    usize::MAX
                } else {
                    (old(self).message_scroll_from_bottom + 1) as usize
                }),
                ..*old(self)
            }),
    {
        self.message_scroll_from_bottom = if self.message_scroll_from_bottom == usize::MAX {
            usize::MAX
        } else {
            self.message_scroll_from_bottom + 1
        };
    }

    /// Scroll the transcript one row back toward the bottom; arriving at
    /// the bottom clears the pending-messages indicator.
    pub fn scroll_messages_down(&mut self)
        ensures
            old(self).message_scroll_from_bottom == 0 ==> *final(self) == *old(self),
            old(self).message_scroll_from_bottom == 1 ==> *final(self) == (AppState {
                message_scroll_from_bottom: 0,
                pending_new_messages_for_selected: 0,
                ..*old(self)
            }),
            old(self).message_scroll_from_bottom > 1 ==> *final(self) == (AppState {
                message_scroll_from_bottom: (old(self).message_scroll_from_bottom - 1) as usize,
                ..*old(self)
            }),
    {
        if self.message_scroll_from_bottom > 0 {
            self.message_scroll_from_bottom = self.message_scroll_from_bottom - 1;
            if self.message_scroll_from_bottom == 0 {
                self.pending_new_messages_for_selected = 0;
            }
        }
    }
}

} // verus!
