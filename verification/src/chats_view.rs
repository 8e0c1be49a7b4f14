//! The conversation list: the reorder-on-new-message and
//! selection-index reconciliation algorithm, the rendered rows, the
//! scroll limit, and the single-in-flight fetch state for loading
//! more conversations.

use vstd::prelude::*;
use crate::layout::string_views;
use crate::models::{AwaitState, Conversation, ConversationModel, Message};
use crate::text::{chars_to_string, dec_digits, dec_spec, push_chars, str_to_chars};

verus! {

/// The ghost models of a sequence of conversations.
pub open spec fn conv_models(s: Seq<Conversation>) -> Seq<ConversationModel> {
    Seq::new(s.len(), |i: int| s[i]@)
}

pub proof fn lemma_conv_models_update(s: Seq<Conversation>, i: int, c: Conversation)
    requires
        0 <= i < s.len(),
    ensures
        conv_models(s.update(i, c)) =~= conv_models(s).update(i, c@),
{
}

pub proof fn lemma_conv_models_remove(s: Seq<Conversation>, i: int)
    requires
        0 <= i < s.len(),
    ensures
        conv_models(s.remove(i)) =~= conv_models(s).remove(i),
{
}

pub proof fn lemma_conv_models_insert_front(s: Seq<Conversation>, c: Conversation)
    ensures
        conv_models(s.insert(0, c)) =~= conv_models(s).insert(0, c@),
{
}

/// Least index at or after `i` of the conversation with this id.
pub open spec fn find_chat(chats: Seq<ConversationModel>, id: Seq<char>, i: int) -> Option<int>
    decreases chats.len() - i,
{
    if i < 0 || i >= chats.len() {
        None
    } else if chats[i].chat_identifier == id {
        Some(i)
    } else {
        find_chat(chats, id, i + 1)
    }
}

pub proof fn lemma_find_chat_bounds(chats: Seq<ConversationModel>, id: Seq<char>, i: int)
    requires
        0 <= i <= chats.len(),
    ensures
        find_chat(chats, id, i) matches Some(p) ==> i <= p < chats.len() && chats[
            p
        ].chat_identifier == id,
    decreases chats.len() - i,
{
    if i < chats.len() && !(chats[i].chat_identifier == id) {
        lemma_find_chat_bounds(chats, id, i + 1);
    }
}

/// The unread flag a moved conversation carries: reading it is
/// presumed when it is the selected one, otherwise an inbound message
/// from the other party marks it unread.
pub open spec fn moved_unread(
    was_unread: bool,
    from_me: bool,
    sel: Option<usize>,
    i: int,
) -> bool {
    if sel matches Some(l) && l as int == i {
        false
    } else if !from_me {
        true
    } else {
        was_unread
    }
}

/// The selection after the conversation at `i` moves to the front:
/// the selected conversation keeps being the selected one, except
/// that the moved conversation itself becomes the selection at 0.
pub open spec fn shifted_selection(sel: Option<usize>, i: int) -> Option<usize> {
    match sel {
        Some(l) => if i == l as int {
            Some(0usize)
        } else if i > l as int {
            Some((l + 1) as usize)
        } else {
            Some(l)
        },
        None => None,
    }
}

/// The conversation materialized for a first inbound message from an
/// unseen chat id.
pub open spec fn new_conv_model(id: Seq<char>, name: Seq<char>, latest: Seq<char>) -> ConversationModel {
    ConversationModel {
        display_name: name,
        chat_identifier: id,
        latest_text: latest,
        has_unread: true,
        addresses: id,
        is_selected: false,
        pinned: false,
        relative_time: Seq::empty(),
    }
}

/// Selection stability: when the conversation at `i` moves to the
/// front of the list, the conversation referenced by the shifted
/// selection index is the same conversation that was selected before
/// the move — unless the moved conversation itself was the selected
/// one, in which case the selection becomes 0 and references it.
pub proof fn lemma_selection_stability(
    chats: Seq<ConversationModel>,
    sel: int,
    i: int,
    moved: ConversationModel,
)
    requires
        0 <= i < chats.len(),
        0 <= sel < chats.len(),
        moved.chat_identifier == chats[i].chat_identifier,
    ensures
        i == sel ==> chats.remove(i).insert(0, moved)[0].chat_identifier == chats[
            sel
        ].chat_identifier,
        i > sel ==> chats.remove(i).insert(0, moved)[sel + 1] == chats[sel],
        i < sel ==> chats.remove(i).insert(0, moved)[sel] == chats[sel],
{
}

/// Selection stability for an unseen chat id: inserting the new
/// conversation at the front shifts the whole list down one slot, so
/// the incremented selection references the conversation selected
/// before.
pub proof fn lemma_selection_stability_new(
    chats: Seq<ConversationModel>,
    sel: int,
    fresh: ConversationModel,
)
    requires
        0 <= sel < chats.len(),
    ensures
        chats.insert(0, fresh)[sel + 1] == chats[sel],
{
}

pub struct ChatsView {
    /// How many rows the list is scrolled down.
    pub scroll: usize,
    /// The conversations, front of the list first.
    pub chats: Vec<Conversation>,
    /// The rendered rows, one per conversation.
    pub chats_list: Vec<String>,
    pub last_width: usize,
    pub last_height: usize,
    /// Position of the conversation whose messages are open.
    pub last_selected: Option<usize>,
    /// Fetch state for this view: at most one fetch in flight.
    pub await_state: AwaitState,
    /// Row marker for the open conversation.
    pub current_chat_indicator: char,
    /// Row marker for conversations with unread messages.
    pub unread_chat_indicator: char,
}

impl ChatsView {
    pub open spec fn wf(&self) -> bool {
        self.last_selected matches Some(l) ==> (l as int) < self.chats@.len()
    }

    /// A fresh list; the initial conversation fetch is accounted as
    /// already in flight.
    pub fn new() -> (r: ChatsView)
        ensures
            r.wf(),
            r.scroll == 0,
            r.chats@.len() == 0,
            r.chats_list@.len() == 0,
            r.last_width == 0,
            r.last_height == 0,
            r.last_selected is None,
            r.await_state is Replace,
    {
        ChatsView {
            scroll: 0,
            chats: Vec::new(),
            chats_list: Vec::new(),
            last_width: 0,
            last_height: 0,
            last_selected: None,
            await_state: AwaitState::Replace,
            current_chat_indicator: '>',
            unread_chat_indicator: '\u{2022}',
        }
    }

    fn find_position(&self, id: &String) -> (r: Option<usize>)
        ensures
            match r {
                Some(p) => find_chat(conv_models(self.chats@), id@, 0) == Some(p as int) && p
                    < self.chats@.len(),
                None => find_chat(conv_models(self.chats@), id@, 0) is None,
            },
    {
        let mut i: usize = 0;
        while i < self.chats.len()
            invariant
                0 <= i <= self.chats@.len(),
                find_chat(conv_models(self.chats@), id@, 0) == find_chat(
                    conv_models(self.chats@),
                    id@,
                    i as int,
                ),
            decreases self.chats@.len() - i,
        {
            proof {
                assert(conv_models(self.chats@)[i as int] == self.chats@[i as int]@);
            }
            if self.chats[i].chat_identifier == *id {
                return Some(i);
            }
            i = i + 1;
        }
        None
    }

    /// Reconciles the list with one inbound message: an existing
    /// conversation moves to the front (its unread flag and the
    /// selection index updated as specified), an unseen chat id
    /// materializes a new conversation at the front.  Returns the
    /// position the conversation held before the move, if it existed.
    pub fn new_text(&mut self, item: &Message, fetched_name: Option<String>) -> (r: Option<usize>)
        requires
            old(self).wf(),
        ensures
            final(self).wf(),
            final(self).scroll == old(self).scroll,
            final(self).chats_list@ == old(self).chats_list@,
            final(self).last_width == old(self).last_width,
            final(self).await_state == old(self).await_state,
            final(self).current_chat_indicator == old(self).current_chat_indicator,
            final(self).unread_chat_indicator == old(self).unread_chat_indicator,
            item.chat_identifier is None ==> *final(self) == *old(self) && r is None,
            item.chat_identifier matches Some(id) ==> {
                &&& final(self).last_height == 0
                &&& match find_chat(conv_models(old(self).chats@), id@, 0) {
                    Some(i) => {
                        &&& r == Some(i as usize)
                        &&& conv_models(final(self).chats@) == conv_models(
                            old(self).chats@,
                        ).remove(i).insert(
                            0,
                            ConversationModel {
                                has_unread: moved_unread(
                                    conv_models(old(self).chats@)[i].has_unread,
                                    item.is_from_me,
                                    old(self).last_selected,
                                    i,
                                ),
                                ..conv_models(old(self).chats@)[i]
                            },
                        )
                        &&& final(self).last_selected == shifted_selection(
                            old(self).last_selected,
                            i,
                        )
                    },
                    None => {
                        &&& r is None
                        &&& conv_models(final(self).chats@) == conv_models(
                            old(self).chats@,
                        ).insert(
                            0,
                            new_conv_model(
                                id@,
                                match fetched_name {
                                    Some(n) => n@,
                                    None => id@,
                                },
                                item.text@,
                            ),
                        )
                        &&& final(self).last_selected == match old(self).last_selected {
                            Some(l) => Some((l + 1) as usize),
                            None => None::<usize>,
                        }
                    },
                }
            },
    {
        let id = match &item.chat_identifier {
            Some(id) => id,
            None => {
                return None;
            },
        };
        let pos = self.find_position(id);
        match pos {
            Some(idx) => {
                proof {
                    lemma_find_chat_bounds(conv_models(self.chats@), id@, 0);
                }
                let ghost models0 = conv_models(self.chats@);
                let mut old_chat = self.chats.remove(idx);
                if !item.is_from_me {
                    old_chat.has_unread = true;
                }
                match self.last_selected {
                    Some(ls) => {
                        if idx == ls {
                            self.last_selected = Some(0);
                            old_chat.has_unread = false;
                        } else if idx > ls {
                            self.last_selected = Some(ls + 1);
                        }
                    },
                    None => {},
                }
                let ghost chats_mid = self.chats@;
                self.chats.insert(0, old_chat);
                self.last_height = 0;
                proof {
                    lemma_conv_models_remove(old(self).chats@, idx as int);
                    lemma_conv_models_insert_front(chats_mid, old_chat);
                    assert(old_chat@ =~= (ConversationModel {
                        has_unread: moved_unread(
                            models0[idx as int].has_unread,
                            item.is_from_me,
                            old(self).last_selected,
                            idx as int,
                        ),
                        ..models0[idx as int]
                    }));
                    assert(conv_models(self.chats@) =~= models0.remove(idx as int).insert(
                        0,
                        old_chat@,
                    ));
                }
                Some(idx)
            },
            None => {
                let name = match fetched_name {
                    Some(n) => n,
                    None => id.clone(),
                };
                let new_convo = Conversation {
                    display_name: name,
                    chat_identifier: id.clone(),
                    latest_text: item.text.clone(),
                    has_unread: true,
                    addresses: id.clone(),
                    is_selected: false,
                    pinned: false,
                    relative_time: String::new(),
                };
                match self.last_selected {
                    Some(ls) => {
                        let n = self.chats.len();
                        proof {
                            assert((ls as int) < n as int);
                        }
                        self.last_selected = Some(ls + 1);
                    },
                    None => {},
                }
                let ghost chats_mid = self.chats@;
                self.chats.insert(0, new_convo);
                self.last_height = 0;
                proof {
                    lemma_conv_models_insert_front(chats_mid, new_convo);
                    assert(conv_models(self.chats@) =~= conv_models(old(self).chats@).insert(
                        0,
                        new_convo@,
                    ));
                }
                None
            },
        }
    }

    /// Selects the conversation at `idx`: the previous selection loses
    /// its marker, the new one is marked read and selected.
    pub fn load_in_conversation(&mut self, idx: usize)
        requires
            old(self).wf(),
            idx < old(self).chats@.len(),
        ensures
            final(self).wf(),
            final(self).last_selected == Some(idx),
            final(self).last_height == 0,
            ({
                let m0 = conv_models(old(self).chats@);
                let m1 = match old(self).last_selected {
                    Some(l) => m0.update(
                        l as int,
                        ConversationModel { is_selected: false, ..m0[l as int] },
                    ),
                    None => m0,
                };
                conv_models(final(self).chats@) == m1.update(
                    idx as int,
                    ConversationModel { has_unread: false, is_selected: true, ..m1[idx as int] },
                )
            }),
            final(self).scroll == old(self).scroll,
            final(self).chats_list@ == old(self).chats_list@,
            final(self).last_width == old(self).last_width,
            final(self).await_state == old(self).await_state,
    {
        if let Some(old_sel) = self.last_selected {
            let ghost chats0 = self.chats@;
            let deselected = Self::with_flags(
                &self.chats[old_sel],
                self.chats[old_sel].has_unread,
                false,
            );
            self.chats[old_sel] = deselected;
            proof {
                lemma_conv_models_update(chats0, old_sel as int, deselected);
            }
        }
        let ghost chats1 = self.chats@;
        let selected = Self::with_flags(&self.chats[idx], false, true);
        self.chats[idx] = selected;
        self.last_selected = Some(idx);
        self.last_height = 0;
        proof {
            lemma_conv_models_update(chats1, idx as int, selected);
            assert(conv_models(self.chats@) =~= conv_models(chats1).update(idx as int, selected@));
        }
    }

    /// A copy of the conversation with the given flags.
    pub fn with_flags(c: &Conversation, has_unread: bool, is_selected: bool) -> (r: Conversation)
        ensures
            r@ == (ConversationModel { has_unread, is_selected, ..c@ }),
    {
        Conversation {
            display_name: c.display_name.clone(),
            chat_identifier: c.chat_identifier.clone(),
            latest_text: c.latest_text.clone(),
            has_unread,
            addresses: c.addresses.clone(),
            is_selected,
            pinned: c.pinned,
            relative_time: c.relative_time.clone(),
        }
    }

    /// Asks to reload the conversation list from the start.  Refused,
    /// with nothing changed, while any fetch is in flight for this
    /// view.
    pub fn reload_chats(&mut self) -> (r: bool)
        ensures
            final(self).scroll == old(self).scroll,
            final(self).chats@ == old(self).chats@,
            final(self).chats_list@ == old(self).chats_list@,
            final(self).last_width == old(self).last_width,
            final(self).last_height == old(self).last_height,
            final(self).last_selected == old(self).last_selected,
            final(self).current_chat_indicator == old(self).current_chat_indicator,
            final(self).unread_chat_indicator == old(self).unread_chat_indicator,
            old(self).await_state is Not ==> final(self).await_state is Replace && r,
            !(old(self).await_state is Not) ==> *final(self) == *old(self) && !r,
    {
        if self.await_state == AwaitState::Not {
            self.await_state = AwaitState::Replace;
            true
        } else {
            false
        }
    }

    /// Takes delivery of a conversation fetch: pagination appends the
    /// further conversations, a reload replaces the list (a selection
    /// position that no longer exists is dropped).  Either way the
    /// fetch state returns to idle.  With no fetch in flight, nothing
    /// changes.
    pub fn loaded_in_chats(&mut self, fetched: Vec<Conversation>)
        requires
            old(self).wf(),
        ensures
            final(self).wf(),
            old(self).await_state is Not ==> *final(self) == *old(self),
            old(self).await_state is More ==> {
                &&& final(self).chats@ == old(self).chats@ + fetched@
                &&& final(self).last_selected == old(self).last_selected
                &&& final(self).await_state is Not
                &&& final(self).last_height == 0
            },
            old(self).await_state is Replace ==> {
                &&& final(self).chats@ == fetched@
                &&& final(self).last_selected == (match old(self).last_selected {
                    Some(l) => if (l as int) < fetched@.len() {
                        Some(l)
                    } else {
                        None::<usize>
                    },
                    None => None::<usize>,
                })
                &&& final(self).await_state is Not
                &&& final(self).last_height == 0
            },
            final(self).scroll == old(self).scroll,
            final(self).chats_list@ == old(self).chats_list@,
            final(self).last_width == old(self).last_width,
            final(self).current_chat_indicator == old(self).current_chat_indicator,
            final(self).unread_chat_indicator == old(self).unread_chat_indicator,
    {
        match self.await_state {
            AwaitState::Not => {},
            AwaitState::More => {
                let mut more = fetched;
                self.chats.append(&mut more);
                self.last_height = 0;
                self.await_state = AwaitState::Not;
            },
            AwaitState::Replace => {
                self.chats = fetched;
                match self.last_selected {
                    Some(l) => {
                        if l >= self.chats.len() {
                            self.last_selected = None;
                        }
                    },
                    None => {},
                }
                self.last_height = 0;
                self.await_state = AwaitState::Not;
            },
        }
    }

    /// Moves the list scroll; scrolling down past the lower limit
    /// asks (at most once) to fetch further conversations, returning
    /// the fetch offset.
    pub fn scroll(&mut self, up: bool, distance: usize) -> (r: Option<usize>)
        ensures
            final(self).chats@ == old(self).chats@,
            final(self).chats_list@ == old(self).chats_list@,
            final(self).last_width == old(self).last_width,
            final(self).last_height == old(self).last_height,
            final(self).last_selected == old(self).last_selected,
            final(self).current_chat_indicator == old(self).current_chat_indicator,
            final(self).unread_chat_indicator == old(self).unread_chat_indicator,
            up ==> {
                &&& final(self).scroll as int == crate::msgs_view::up_sel(
                    old(self).scroll as int,
                    distance as int,
                )
                &&& final(self).await_state == old(self).await_state
                &&& r is None
            },
            !up ==> {
                let limit = chats_scroll_limit(
                    old(self).chats_list@.len() as int,
                    old(self).last_height as int,
                );
                &&& final(self).scroll as int == crate::msgs_view::min2(
                    old(self).scroll as int + distance as int,
                    limit,
                )
                &&& (final(self).scroll as int == limit && old(self).await_state is Not
                    ==> final(self).await_state is More && r == Some(old(self).chats.len()))
                &&& (final(self).scroll as int == limit && !(old(self).await_state is Not)
                    ==> final(self).await_state == old(self).await_state && r is None)
                &&& (final(self).scroll as int != limit
                    ==> final(self).await_state == old(self).await_state && r is None)
            },
    {
        if !up {
            let half = self.last_height / 2;
            let llen = self.chats_list.len();
            let lim128: u128 = llen as u128 + 2;
            let limit: usize = if lim128 >= half as u128 {
                let d = lim128 - half as u128;
                if d > usize::MAX as u128 {
                    usize::MAX
                } else {
                    d as usize
                }
            } else {
                0
            };
            let newscroll: usize = if self.scroll >= limit {
                limit
            } else if limit - self.scroll < distance {
                limit
            } else {
                self.scroll + distance
            };
            proof {
                assert(newscroll as int == crate::msgs_view::min2(
                    self.scroll as int + distance as int,
                    chats_scroll_limit(self.chats_list@.len() as int, self.last_height as int),
                ));
            }
            self.scroll = newscroll;
            if newscroll == limit && self.await_state == AwaitState::Not {
                self.await_state = AwaitState::More;
                Some(self.chats.len())
            } else {
                None
            }
        } else {
            self.scroll = if self.scroll >= distance {
                self.scroll - distance
            } else {
                0
            };
            None
        }
    }

    /// Rebuilds the rendered rows from the current conversations: one
    /// row per conversation, exactly as the row model lays it out for
    /// this width.
    pub fn rerender_list(&mut self, width: usize, height: usize)
        requires
            width >= 11,
        ensures
            string_views(final(self).chats_list@) == chat_rows(
                conv_models(old(self).chats@),
                width as int - 8,
                old(self).current_chat_indicator,
                old(self).unread_chat_indicator,
            ),
            final(self).last_width == width,
            final(self).last_height == height,
            final(self).scroll == old(self).scroll,
            final(self).chats@ == old(self).chats@,
            final(self).last_selected == old(self).last_selected,
            final(self).await_state == old(self).await_state,
            final(self).current_chat_indicator == old(self).current_chat_indicator,
            final(self).unread_chat_indicator == old(self).unread_chat_indicator,
    {
        let max_len = width - 8;
        let mut rows: Vec<String> = Vec::new();
        let mut i: usize = 0;
        while i < self.chats.len()
            invariant
                0 <= i <= self.chats@.len(),
                max_len == width - 8,
                width >= 11,
                rows@.len() == i,
                string_views(rows@) =~= chat_rows(
                    conv_models(self.chats@),
                    max_len as int,
                    self.current_chat_indicator,
                    self.unread_chat_indicator,
                ).subrange(0, i as int),
            decreases self.chats@.len() - i,
        {
            let mut row: Vec<char> = Vec::new();
            if i < 100 {
                row.push(' ');
            }
            if i < 10 {
                row.push(' ');
            }
            let digits = dec_digits(i);
            push_chars(&mut row, &digits);
            row.push(' ');
            let c = &self.chats[i];
            let sym = if c.is_selected {
                self.current_chat_indicator
            } else if c.has_unread {
                self.unread_chat_indicator
            } else {
                ' '
            };
            row.push(sym);
            row.push(' ');
            let name_chars = str_to_chars(c.display_name.as_str());
            if name_chars.len() > max_len {
                let prefix = crate::text::slice_chars(&name_chars, 0, max_len - 3);
                push_chars(&mut row, &prefix);
                row.push('.');
                row.push('.');
                row.push('.');
            } else {
                push_chars(&mut row, &name_chars);
            }
            proof {
                assert(conv_models(self.chats@)[i as int] == self.chats@[i as int]@);
                assert(row@ =~= chat_row(
                    conv_models(self.chats@)[i as int],
                    i as int,
                    max_len as int,
                    self.current_chat_indicator,
                    self.unread_chat_indicator,
                ));
            }
            let ghost rows0 = rows@;
            let s = chars_to_string(&row);
            rows.push(s);
            proof {
                let target = chat_rows(
                    conv_models(self.chats@),
                    max_len as int,
                    self.current_chat_indicator,
                    self.unread_chat_indicator,
                );
                assert forall|k: int| 0 <= k < i + 1 implies string_views(rows@)[k]
                    == target.subrange(0, i + 1)[k] by {
                    assert(target[k] == chat_row(
                        conv_models(self.chats@)[k],
                        k,
                        max_len as int,
                        self.current_chat_indicator,
                        self.unread_chat_indicator,
                    ));
                    assert(rows@ == rows0.push(s));
                    if k < i {
                        assert(rows0.push(s)[k] == rows0[k]);
                        assert(string_views(rows@)[k] == rows0[k]@);
                        assert(rows0[k]@ == string_views(rows0)[k]);
                        assert(string_views(rows0)[k] == target.subrange(0, i as int)[k]);
                    } else {
                        assert(string_views(rows@)[k] == s@);
                    }
                }
                assert(string_views(rows@) =~= target.subrange(0, i + 1));
            }
            i = i + 1;
        }
        proof {
            assert(chat_rows(
                conv_models(self.chats@),
                max_len as int,
                self.current_chat_indicator,
                self.unread_chat_indicator,
            ).subrange(0, self.chats@.len() as int) =~= chat_rows(
                conv_models(self.chats@),
                max_len as int,
                self.current_chat_indicator,
                self.unread_chat_indicator,
            ));
        }
        self.chats_list = rows;
        self.last_width = width;
        self.last_height = height;
    }
}

/// The marker drawn beside a conversation row.
pub open spec fn chat_symbol(c: ConversationModel, cur: char, unr: char) -> char {
    if c.is_selected {
        cur
    } else if c.has_unread {
        unr
    } else {
        ' '
    }
}

/// The index column: right-aligned in three columns (wider indices
/// simply take more room).
pub open spec fn idx_prefix(i: int) -> Seq<char> {
    (if i < 100 {
        seq![' ']
    } else {
        Seq::empty()
    }) + (if i < 10 {
        seq![' ']
    } else {
        Seq::empty()
    }) + dec_spec(i as nat)
}

/// The display name, cut to the row with a trailing ellipsis when it
/// does not fit.  Widths are measured in characters, as the layout
/// model does throughout.
pub open spec fn chat_name_spec(name: Seq<char>, max_len: int) -> Seq<char> {
    if name.len() > max_len {
        name.subrange(0, max_len - 3) + seq!['.', '.', '.']
    } else {
        name
    }
}

/// One rendered row: index, marker, and the (possibly cut) name.
pub open spec fn chat_row(c: ConversationModel, i: int, max_len: int, cur: char, unr: char) -> Seq<
    char,
> {
    idx_prefix(i) + seq![' '] + seq![chat_symbol(c, cur, unr)] + seq![' '] + chat_name_spec(
        c.display_name,
        max_len,
    )
}

/// All rendered rows, in list order.
pub open spec fn chat_rows(chats: Seq<ConversationModel>, max_len: int, cur: char, unr: char) -> Seq<
    Seq<char>,
> {
    Seq::new(chats.len(), |i: int| chat_row(chats[i], i, max_len, cur, unr))
}

/// The lowest row the list may scroll to: two rows past the point
/// where the last conversation reaches the middle of the view.
pub open spec fn chats_scroll_limit(list_len: int, height: int) -> int {
    let raw = list_len + 2 - height / 2;
    if raw < 0 {
        0
    } else if raw > usize::MAX {
        usize::MAX as int
    } else {
        raw
    }
}

} // verus!
