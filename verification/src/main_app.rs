//! The top-level coordinator: routes local input to the focused view,
//! applies one pending async result at a time, and turns every
//! outside-facing step (fetches, sends, notifications) into an action
//! value for the unverified runner to perform.

use vstd::prelude::*;
use vstd::string::StringExecFns;
use crate::chats_view::{conv_models, find_chat, ChatsView};
use crate::command::{concat_args, join_spaces, lower_seq, parse_command, tokens, Command};
use crate::input_view::InputView;
use crate::layout::{msg_models, string_views};
use crate::models::{AwaitState, Conversation, Message, MessageModel, MessageType};
use crate::msgs_view::MessagesView;
use crate::state::GlobalState;
use crate::text::{chars_to_string, dec_digits, push_chars, str_to_chars};

verus! {

/// How many lines the help text has; the help view scrolls no further.
pub const HELP_LINES: usize = 33;

#[derive(Clone, Copy, PartialEq, Eq, Structural, Debug)]
pub enum DisplayBox {
    Chats,
    Messages,
    Help,
    ComposeAddress,
    ComposeBody,
}

/// One outside-facing step the engine asks its runner to perform.
/// The engine never performs I/O itself; it hands these out and takes
/// results back through the state slots and the `loaded_in` methods.
pub enum AppAction {
    /// Fetch conversations, from `offset` onward (None: from the top).
    FetchChats { offset: Option<usize> },
    /// Fetch messages of a conversation, from `offset` onward.
    FetchMessages { chat: String, offset: Option<usize> },
    /// Send a message, with optional body and attachment paths.
    SendText { chat: String, body: Option<String>, files: Option<Vec<String>> },
    /// Send a tapback for a message.
    SendTapback { guid: String, kind: usize },
    /// Delete a conversation.
    DeleteChat { chat: String },
    /// Delete a message.
    DeleteText { guid: String },
    /// Show an OS notification.
    Notify { title: String, body: String },
    /// Put text on the system clipboard.
    CopyToClipboard { text: String },
    /// Download and open an attachment.
    OpenAttachment { path: String },
    /// Complete a partially typed file path against the file system.
    CompleteFilePath,
    /// Tell the gateway whether the local user is typing.
    SendTyping { chat: String, active: bool },
    /// Change a runtime setting (settings live outside this engine).
    UpdateSetting { ops: Vec<String> },
}

/// The notification title for an inbound message: its sender, else
/// the looked-up name, else the chat id.
pub open spec fn notify_title(m: MessageModel, looked_up: Option<Seq<char>>) -> Seq<char> {
    match m.sender {
        Some(s) => s,
        None => match looked_up {
            Some(n) => n,
            None => match m.chat_identifier {
                Some(id) => id,
                None => Seq::empty(),
            },
        },
    }
}

pub open spec fn is_notify(a: AppAction, title: Seq<char>, body: Seq<char>) -> bool {
    a matches AppAction::Notify { title: t, body: b } && t@ == title && b@ == body
}

pub open spec fn is_send_typing(a: AppAction, chat: Seq<char>, active: bool) -> bool {
    a matches AppAction::SendTyping { chat: c, active: act } && c@ == chat && act == active
}

pub open spec fn is_send_text(
    a: AppAction,
    chat: Seq<char>,
    body: Option<Seq<char>>,
    files: Option<Seq<Seq<char>>>,
) -> bool {
    a matches AppAction::SendText { chat: c, body: b, files: f } && c@ == chat && b.deep_view()
        == body && (match files {
        Some(fv) => f matches Some(v) && string_views(v@) == fv,
        None => f is None,
    })
}

pub open spec fn is_fetch_chats(a: AppAction, offset: Option<int>) -> bool {
    a matches AppAction::FetchChats { offset: o } && (match offset {
        Some(e) => o matches Some(v) && v as int == e,
        None => o is None,
    })
}

pub open spec fn is_fetch_messages(a: AppAction, chat: Seq<char>, offset: Option<int>) -> bool {
    a matches AppAction::FetchMessages { chat: c, offset: o } && c@ == chat && (match offset {
        Some(e) => o matches Some(v) && v as int == e,
        None => o is None,
    })
}

pub open spec fn is_send_tapback(a: AppAction, guid: Seq<char>, kind: int) -> bool {
    a matches AppAction::SendTapback { guid: g, kind: k } && g@ == guid && k as int == kind
}

pub open spec fn is_delete_chat(a: AppAction, chat: Seq<char>) -> bool {
    a matches AppAction::DeleteChat { chat: c } && c@ == chat
}

pub open spec fn is_delete_text(a: AppAction, guid: Seq<char>) -> bool {
    a matches AppAction::DeleteText { guid: g } && g@ == guid
}

pub open spec fn is_copy_to_clipboard(a: AppAction, text: Seq<char>) -> bool {
    a matches AppAction::CopyToClipboard { text: t } && t@ == text
}

pub open spec fn is_open_attachment(a: AppAction, path: Seq<char>) -> bool {
    a matches AppAction::OpenAttachment { path: p } && p@ == path
}

pub open spec fn is_update_setting(a: AppAction, ops: Seq<Seq<char>>) -> bool {
    a matches AppAction::UpdateSetting { ops: o } && string_views(o@) == ops
}

/// `b` is `a` after one backspace: the character before the cursor
/// removed, everything else kept.
pub open spec fn backspaced(a: InputView, b: InputView) -> bool {
    &&& b.input@ == if a.input@.len() > a.right_offset {
        a.input@.remove(a.input@.len() - a.right_offset - 1)
    } else {
        a.input@
    }
    &&& b.right_offset == a.right_offset
    &&& b.last_commands@ == a.last_commands@
    &&& b.tabbed_up == a.tabbed_up
    &&& b.custom_title == a.custom_title
    &&& b.last_width == a.last_width
}

/// The tab key on this text asks for file-path completion rather than
/// inserting a tab.
pub open spec fn wants_completion(s: Seq<char>) -> bool {
    s.len() > 2 && s[0] == ':' && (s[1] == 'f' || s[1] == 'F') && s[2] == ' '
}

pub struct MainApp {
    /// Position of the open conversation in the chats view.
    pub selected_chat: Option<usize>,
    /// Which box has the focus.
    pub selected_box: DisplayBox,
    /// Set when the loop must exit.
    pub quit_app: bool,
    /// Set when everything must be redrawn from scratch.
    pub redraw_all: bool,
    /// How far the help display is scrolled down.
    pub help_scroll: usize,
    pub chats_view: ChatsView,
    pub msgs_view: MessagesView,
    pub input_view: InputView,
    pub address_view: InputView,
    pub compose_body_view: InputView,
}

impl MainApp {
    pub open spec fn wf(&self) -> bool {
        &&& self.chats_view.wf()
        &&& self.msgs_view.wf()
        &&& self.input_view.wf()
        &&& self.address_view.wf()
        &&& self.compose_body_view.wf()
        &&& self.selected_chat matches Some(l) ==> (l as int) < self.chats_view.chats@.len()
    }

    pub fn new() -> (r: MainApp)
        ensures
            r.wf(),
            r.selected_chat is None,
            r.selected_box is Chats,
            !r.quit_app,
            !r.redraw_all,
            r.help_scroll == 0,
    {
        MainApp {
            selected_chat: None,
            selected_box: DisplayBox::Chats,
            quit_app: false,
            redraw_all: false,
            help_scroll: 0,
            chats_view: ChatsView::new(),
            msgs_view: MessagesView::new(),
            input_view: InputView::new(),
            address_view: InputView::new(),
            compose_body_view: InputView::new(),
        }
    }

    /// Moves the focus between the chats box and the messages box.
    pub fn switch_selected_box(&mut self)
        ensures
            *final(self) == (MainApp { selected_box: final(self).selected_box, ..*old(self) }),
            old(self).selected_box is Chats ==> final(self).selected_box is Messages,
            old(self).selected_box is Messages ==> final(self).selected_box is Chats,
            !(old(self).selected_box is Chats) && !(old(self).selected_box is Messages)
                ==> final(self).selected_box == old(self).selected_box,
    {
        if self.selected_box == DisplayBox::Chats {
            self.selected_box = DisplayBox::Messages;
        } else if self.selected_box == DisplayBox::Messages {
            self.selected_box = DisplayBox::Chats;
        }
    }

    /// Scrolls the focused box; a scroll that hits a fetch boundary
    /// returns the fetch to run.
    pub fn scroll(&mut self, up: bool, distance: usize, state: &GlobalState) -> (r: Option<
        AppAction,
    >)
        requires
            old(self).wf(),
        ensures
            final(self).wf(),
            final(self).selected_chat == old(self).selected_chat,
            final(self).selected_box == old(self).selected_box,
            final(self).quit_app == old(self).quit_app,
            final(self).redraw_all == old(self).redraw_all,
            final(self).input_view == old(self).input_view,
            final(self).address_view == old(self).address_view,
            final(self).compose_body_view == old(self).compose_body_view,
            final(self).chats_view.chats@ == old(self).chats_view.chats@,
            final(self).chats_view.last_selected == old(self).chats_view.last_selected,
            final(self).msgs_view.messages@ == old(self).msgs_view.messages@,
            final(self).msgs_view.line_list@ == old(self).msgs_view.line_list@,
            final(self).msgs_view.attachments@ == old(self).msgs_view.attachments@,
            old(self).selected_box is Help ==> final(self).help_scroll as int == if up {
                crate::msgs_view::up_sel(old(self).help_scroll as int, distance as int)
            } else {
                crate::msgs_view::min2(
                    HELP_LINES as int,
                    old(self).help_scroll as int + distance as int,
                )
            },
            !(old(self).selected_box is Help) ==> final(self).help_scroll == old(self).help_scroll,
            old(self).selected_box is Chats ==> {
                &&& ((r is Some) <==> (old(self).chats_view.await_state is Not
                    && final(self).chats_view.await_state is More))
                &&& (r matches Some(a) ==> a matches AppAction::FetchChats { offset } && offset
                    == Some(old(self).chats_view.chats.len()))
                &&& (up ==> final(self).chats_view.scroll as int == crate::msgs_view::up_sel(
                    old(self).chats_view.scroll as int,
                    distance as int,
                ))
                &&& (!up ==> final(self).chats_view.scroll as int == crate::msgs_view::min2(
                    old(self).chats_view.scroll as int + distance as int,
                    crate::chats_view::chats_scroll_limit(
                        old(self).chats_view.chats_list@.len() as int,
                        old(self).chats_view.last_height as int,
                    ),
                ))
            },
            old(self).selected_box is Messages ==> {
                &&& ((r is Some) <==> (old(self).msgs_view.await_state is Not
                    && final(self).msgs_view.await_state is More))
                &&& (r matches Some(a) ==> a matches AppAction::FetchMessages { chat, offset }
                    && (state.current_chat matches Some(c) && chat@ == c@) && offset == Some(
                    old(self).msgs_view.messages.len(),
                ))
                &&& (old(self).msgs_view.messages@.len() == 0 ==> final(self).msgs_view == old(
                    self,
                ).msgs_view)
                &&& (old(self).msgs_view.messages@.len() > 0 && !up
                    ==> final(self).msgs_view.selected_msg as int == crate::msgs_view::down_sel(
                    old(self).msgs_view.selected_msg as int,
                    distance as int,
                    old(self).msgs_view.messages@.len() as int,
                ))
                &&& (old(self).msgs_view.messages@.len() > 0 && up
                    ==> final(self).msgs_view.selected_msg as int == crate::msgs_view::up_sel(
                    old(self).msgs_view.selected_msg as int,
                    distance as int,
                ))
            },
    {
        match self.selected_box {
            DisplayBox::Chats => {
                match self.chats_view.scroll(up, distance) {
                    Some(offset) => Some(AppAction::FetchChats { offset: Some(offset) }),
                    None => None,
                }
            },
            DisplayBox::Messages => {
                match self.msgs_view.scroll(up, distance) {
                    Some(offset) => {
                        match &state.current_chat {
                            Some(chat) => Some(
                                AppAction::FetchMessages {
                                    chat: chat.clone(),
                                    offset: Some(offset),
                                },
                            ),
                            None => {
                                // no conversation is open: the request
                                // resolves immediately with nothing
                                self.msgs_view.await_state = AwaitState::Not;
                                None
                            },
                        }
                    },
                    None => None,
                }
            },
            DisplayBox::Help => {
                if up {
                    self.help_scroll = if self.help_scroll >= distance {
                        self.help_scroll - distance
                    } else {
                        0
                    };
                } else {
                    self.help_scroll = if self.help_scroll >= HELP_LINES || HELP_LINES
                        - self.help_scroll < distance {
                        HELP_LINES
                    } else {
                        self.help_scroll + distance
                    };
                }
                None
            },
            _ => None,
        }
    }

    /// Opens the conversation at `idx`: marks it in the list, clears
    /// the viewport fetch state to a full load, and returns the
    /// message fetch to run.  An out-of-range index is rejected with
    /// a status hint and no state change beyond the hint.
    pub fn load_in_conversation(&mut self, idx: usize, state: &mut GlobalState) -> (r: Option<
        AppAction,
    >)
        requires
            old(self).wf(),
        ensures
            final(self).wf(),
            idx < old(self).chats_view.chats@.len() ==> {
                &&& final(self).selected_chat == Some(idx)
                &&& final(self).msgs_view.await_state is Replace
                &&& final(self).chats_view.last_selected == Some(idx)
                &&& (r matches Some(a) && a matches AppAction::FetchMessages { chat, offset }
                    && chat@ == old(self).chats_view.chats@[idx as int]@.chat_identifier
                    && offset is None)
            },
            idx < old(self).chats_view.chats@.len() ==> {
                &&& final(self).chats_view.chats@.len() == old(self).chats_view.chats@.len()
                &&& final(state).hint_msg@ == "loading in messages..."@
                &&& (final(state).current_chat matches Some(c) && c@ == old(
                    self,
                ).chats_view.chats@[idx as int]@.chat_identifier)
            },
            final(self).input_view == old(self).input_view,
            final(self).address_view == old(self).address_view,
            final(self).compose_body_view == old(self).compose_body_view,
            final(self).selected_box == old(self).selected_box,
            final(self).quit_app == old(self).quit_app,
            final(self).redraw_all == old(self).redraw_all,
            final(self).help_scroll == old(self).help_scroll,
            idx >= old(self).chats_view.chats@.len() ==> {
                &&& *final(self) == *old(self)
                &&& r is None
                &&& final(state).hint_msg@ == crate::text::dec_spec(idx as nat)
                    + " is out of range for the chats"@
                &&& *final(state) == (GlobalState { hint_msg: final(state).hint_msg, ..*old(state) })
            },
    {
        if idx < self.chats_view.chats.len() {
            let id = self.chats_view.chats[idx].chat_identifier.clone();
            self.chats_view.load_in_conversation(idx);
            proof {
                assert(conv_models(self.chats_view.chats@).len() == self.chats_view.chats@.len());
                assert(conv_models(old(self).chats_view.chats@).len() == old(
                    self,
                ).chats_view.chats@.len());
            }
            self.msgs_view.await_state = AwaitState::Replace;
            state.current_chat = Some(id.clone());
            state.hint_msg = String::from_str("loading in messages...");
            self.selected_chat = Some(idx);
            Some(AppAction::FetchMessages { chat: id, offset: None })
        } else {
            let mut hint = dec_digits(idx);
            let tail = str_to_chars(" is out of range for the chats");
            push_chars(&mut hint, &tail);
            state.hint_msg = chars_to_string(&hint);
            None
        }
    }

    /// Applies one inbound event to the views: a real message runs the
    /// reconciliation and, when its conversation is the open one,
    /// extends the viewport; typing and idle events toggle the
    /// ephemeral indicator.  Returns the notifications and fetches to
    /// run.
    #[verifier::rlimit(80)]
    #[verifier::spinoff_prover]
    pub fn load_in_text(
        &mut self,
        text: Message,
        looked_up_name: Option<String>,
        notifications_on: bool,
        state: &mut GlobalState,
    ) -> (r: Vec<AppAction>)
        requires
            old(self).wf(),
            3 <= old(self).msgs_view.last_width <= 65535,
            old(self).msgs_view.attachments@.len() + text.attachments@.len() <= usize::MAX,
        ensures
            final(self).wf(),
            // the single-event selection rule, §8: with no composition
            // pending, an existing conversation's move shifts the
            // selection exactly as the reconciliation specifies
            ({
                let id_opt = text@.chat_identifier;
                text@.message_type is Normal && !old(state).awaiting_new_convo ==> match id_opt {
                    Some(id) => match find_chat(conv_models(old(self).chats_view.chats@), id, 0) {
                        Some(i) => match old(self).selected_chat {
                            Some(ls) => if i == ls as int {
                                final(self).selected_chat == Some(0usize)
                            } else if i > ls as int {
                                (final(self).selected_chat matches Some(v) && v as int == ls as int
                                    + 1)
                            } else {
                                final(self).selected_chat == Some(ls)
                            },
                            None => final(self).selected_chat is None,
                        },
                        None => final(self).selected_chat == old(self).selected_chat,
                    },
                    None => final(self).selected_chat == old(self).selected_chat,
                }
            }),
            !(text@.message_type is Normal) ==> final(self).selected_chat == old(
                self,
            ).selected_chat,
            // the reconciliation outcome on the conversation list
            ({
                let m0 = conv_models(old(self).chats_view.chats@);
                text@.message_type is Normal && !old(state).awaiting_new_convo ==> match text@
                    .chat_identifier {
                    Some(id) => match find_chat(m0, id, 0) {
                        Some(i) => {
                            &&& conv_models(final(self).chats_view.chats@) == m0.remove(i).insert(
                                0,
                                crate::models::ConversationModel {
                                    has_unread: crate::chats_view::moved_unread(
                                        m0[i].has_unread,
                                        text@.is_from_me,
                                        old(self).chats_view.last_selected,
                                        i,
                                    ),
                                    ..m0[i]
                                },
                            )
                            &&& final(self).chats_view.last_selected
                                == crate::chats_view::shifted_selection(
                                old(self).chats_view.last_selected,
                                i,
                            )
                        },
                        None => {
                            &&& conv_models(final(self).chats_view.chats@) == m0.insert(
                                0,
                                crate::chats_view::new_conv_model(
                                    id,
                                    match looked_up_name {
                                        Some(n) => n@,
                                        None => id,
                                    },
                                    text@.text,
                                ),
                            )
                            &&& final(self).chats_view.last_selected == (match old(
                                self,
                            ).chats_view.last_selected {
                                Some(l) => Some((l + 1) as usize),
                                None => None::<usize>,
                            })
                        },
                    },
                    None => final(self).chats_view.chats@ == old(self).chats_view.chats@,
                }
            }),
            // the open conversation's viewport is extended with the
            // message, exactly as the incremental layout specifies;
            // any other inbound message leaves the viewport alone
            ({
                let m0 = conv_models(old(self).chats_view.chats@);
                let mv = old(self).msgs_view;
                text@.message_type is Normal && !old(state).awaiting_new_convo ==> match text@
                    .chat_identifier {
                    Some(id) => match find_chat(m0, id, 0) {
                        Some(i) => match old(self).selected_chat {
                            Some(ls) => if i == ls as int {
                                let had_typing = mv.typing_idx is Some;
                                let retype = had_typing && text.is_from_me && old(
                                    state,
                                ).current_chat is Some;
                                let msgs1 = if had_typing {
                                    msg_models(mv.messages@).drop_last()
                                } else {
                                    msg_models(mv.messages@)
                                };
                                let lines1 = match mv.typing_idx {
                                    Some(ti) => crate::layout::line_models(mv.line_list@).remove(
                                        ti as int,
                                    ),
                                    None => crate::layout::line_models(mv.line_list@),
                                };
                                let ctx = crate::layout::LayoutCtx {
                                    idx: msgs1.len() as int,
                                    last_date: crate::layout::last_date_of(msgs1),
                                    last_sender: crate::layout::last_sender_of(msgs1),
                                    att_count: mv.attachments@.len() as int,
                                };
                                let ext = crate::layout::message_lines(
                                    text@,
                                    ctx,
                                    mv.last_width as int,
                                    mv.underline_char,
                                );
                                &&& msg_models(final(self).msgs_view.messages@) == (if retype {
                                    msgs1.push(text@).push(
                                        crate::models::typing_message_model(
                                            match old(state).current_chat {
                                                Some(c) => c@,
                                                None => Seq::empty(),
                                            },
                                        ),
                                    )
                                } else {
                                    msgs1.push(text@)
                                })
                                &&& crate::layout::line_models(final(self).msgs_view.line_list@)
                                    == (if retype {
                                    lines1 + ext + seq![
                                        crate::layout::typing_line_model(msgs1.len() as int + 1),
                                    ]
                                } else {
                                    lines1 + ext
                                })
                                &&& crate::layout::string_views(final(self).msgs_view.attachments@)
                                    == crate::layout::string_views(mv.attachments@)
                                    + crate::layout::att_paths(text@.attachments)
                                &&& final(self).msgs_view.selected_msg as int == msg_models(
                                    final(self).msgs_view.messages@,
                                ).len() - 1
                            } else {
                                final(self).msgs_view == old(self).msgs_view
                            },
                            None => final(self).msgs_view == old(self).msgs_view,
                        },
                        None => final(self).msgs_view == old(self).msgs_view,
                    },
                    None => final(self).msgs_view == old(self).msgs_view,
                }
            }),
            // one notification action, exactly when notifications are
            // on and the message is from the other party
            text@.message_type is Normal ==> ({
                let notif = notifications_on && !text@.is_from_me;
                &&& (!old(state).awaiting_new_convo ==> r@.len() == (if notif {
                    1int
                } else {
                    0
                }))
                &&& (notif ==> r@.len() >= 1 && is_notify(
                    r@[r@.len() - 1],
                    notify_title(
                        text@,
                        match looked_up_name {
                            Some(n) => Some(n@),
                            None => None,
                        },
                    ),
                    text@.text,
                ))
            }),
            // typing and idle events toggle the indicator exactly when
            // their conversation is the open one
            !(text@.message_type is Normal) ==> ({
                let is_open = old(self).selected_chat matches Some(ls) && text@
                    .chat_identifier matches Some(id) && conv_models(old(self).chats_view.chats@)[
                    ls as int].chat_identifier == id;
                &&& final(self).chats_view == old(self).chats_view
                &&& (text@.message_type is Typing ==> {
                    &&& (is_open ==> (if old(self).msgs_view.typing_idx is None {
                        &&& final(self).msgs_view.messages@ == old(
                            self,
                        ).msgs_view.messages@.push(text)
                        &&& crate::layout::line_models(final(self).msgs_view.line_list@)
                            == crate::layout::line_models(old(self).msgs_view.line_list@) + seq![
                            crate::layout::typing_line_model(
                                old(self).msgs_view.messages@.len() as int,
                            ),
                        ]
                        &&& final(self).msgs_view.typing_idx == Some(
                            old(self).msgs_view.line_list.len(),
                        )
                    } else {
                        final(self).msgs_view == old(self).msgs_view
                    }))
                    &&& (!is_open ==> final(self).msgs_view == old(self).msgs_view)
                    &&& (text@.chat_identifier matches Some(id2) ==> r@.len() == 1 && is_notify(
                        r@[0],
                        match text@.sender {
                            Some(sn) => sn,
                            None => id2,
                        },
                        (match text@.sender {
                            Some(sn) => sn,
                            None => id2,
                        }) + " is typing..."@,
                    ))
                    &&& (text@.chat_identifier is None ==> r@.len() == 0)
                })
                &&& (text@.message_type is Idle ==> {
                    &&& r@.len() == 0
                    &&& (is_open ==> match old(self).msgs_view.typing_idx {
                        Some(ti) => {
                            &&& final(self).msgs_view.messages@ == old(
                                self,
                            ).msgs_view.messages@.drop_last()
                            &&& crate::layout::line_models(final(self).msgs_view.line_list@)
                                == crate::layout::line_models(old(self).msgs_view.line_list@)
                                .remove(ti as int)
                            &&& final(self).msgs_view.typing_idx is None
                        },
                        None => final(self).msgs_view == old(self).msgs_view,
                    })
                    &&& (!is_open ==> final(self).msgs_view == old(self).msgs_view)
                })
            }),
    {
        proof {
            match &text.chat_identifier {
                Some(cid) => {
                    assert(text@.chat_identifier == Some(cid@));
                },
                None => {
                    assert(text@.chat_identifier is None);
                },
            }
        }
        let mut actions: Vec<AppAction> = Vec::new();
        match text.message_type {
            MessageType::Normal => {
                let name: String = match &text.sender {
                    Some(s) => s.clone(),
                    None => match &looked_up_name {
                        Some(n) => n.clone(),
                        None => match &text.chat_identifier {
                            Some(id) => id.clone(),
                            None => String::new(),
                        },
                    },
                };
                let text_content = text.text.clone();
                let show_notif = notifications_on && !text.is_from_me;
                let load_in = state.awaiting_new_convo;

                let n0 = self.chats_view.chats.len();
                proof {
                    assert(old(self).chats_view.chats@.len() == n0 as int);
                }
                let past = self.chats_view.new_text(&text, looked_up_name);
                proof {
                    let m0 = conv_models(old(self).chats_view.chats@);
                    assert(conv_models(self.chats_view.chats@).len()
                        == self.chats_view.chats@.len());
                    assert(m0.len() == old(self).chats_view.chats@.len());
                    match text@.chat_identifier {
                        Some(id) => {
                            match find_chat(m0, id, 0) {
                                Some(i) => {
                                    crate::chats_view::lemma_find_chat_bounds(m0, id, 0);
                                    assert(m0.remove(i).len() == m0.len() - 1);
                                    assert(conv_models(self.chats_view.chats@).len()
                                        == m0.len());
                                },
                                None => {
                                    assert(conv_models(self.chats_view.chats@).len() == m0.len()
                                        + 1);
                                },
                            }
                        },
                        None => {},
                    }
                    assert(self.chats_view.chats@.len() >= old(self).chats_view.chats@.len());
                    match old(self).selected_chat {
                        Some(ls) => {
                            assert((ls as int) < self.chats_view.chats@.len());
                        },
                        None => {},
                    }
                    assert(self.wf());
                }
                if load_in {
                    // a conversation was just composed: open the top one
                    if let Some(act) = self.load_in_conversation(0, state) {
                        actions.push(act);
                    }
                    state.awaiting_new_convo = false;
                }
                if let Some(idx) = past {
                    proof {
                        let m0 = conv_models(old(self).chats_view.chats@);
                        match &text.chat_identifier {
                            Some(cid) => {
                                crate::chats_view::lemma_find_chat_bounds(m0, cid@, 0);
                                assert(text@.chat_identifier == Some(cid@));
                                assert(find_chat(m0, cid@, 0) == Some(idx as int));
                            },
                            None => {
                                assert(false);
                            },
                        }
                        assert((idx as int) < old(self).chats_view.chats@.len());
                    }
                    if let Some(ls) = self.selected_chat {
                        if idx == ls && !load_in {
                            self.selected_chat = Some(0);
                            let chat = state.current_chat.clone();
                            self.msgs_view.new_text(text, chat);
                        } else if idx > ls {
                            proof {
                                assert((ls as int) + 1 <= idx as int);
                                assert((idx as int) < old(self).chats_view.chats@.len());
                                assert(old(self).chats_view.chats@.len()
                                    <= self.chats_view.chats@.len());
                            }
                            self.selected_chat = Some(ls + 1);
                        }
                    }
                }
                if show_notif {
                    actions.push(AppAction::Notify { title: name, body: text_content });
                }
            },
            MessageType::Typing | MessageType::Idle => {
                let is_typing = text.message_type == MessageType::Typing;
                if let Some(id) = &text.chat_identifier {
                    if is_typing {
                        let title: String = match &text.sender {
                            Some(s) => s.clone(),
                            None => id.clone(),
                        };
                        let mut body = str_to_chars(title.as_str());
                        let tail = str_to_chars(" is typing...");
                        push_chars(&mut body, &tail);
                        actions.push(
                            AppAction::Notify { title, body: chars_to_string(&body) },
                        );
                    }
                    if let Some(ls) = self.selected_chat {
                        if self.chats_view.chats[ls].chat_identifier == *id {
                            if is_typing {
                                self.msgs_view.set_typing(text);
                            } else {
                                self.msgs_view.set_idle();
                            }
                        }
                    }
                }
            },
        }
        actions
    }

    /// The recognized tapback kinds, by wire index.
    pub open spec fn tapback_kind(s: Seq<char>) -> Option<int> {
        if s == seq!['l', 'o', 'v', 'e'] {
            Some(0int)
        } else if s == seq!['l', 'i', 'k', 'e'] {
            Some(1int)
        } else if s == seq!['d', 'i', 's', 'l', 'i', 'k', 'e'] {
            Some(2int)
        } else if s == seq!['l', 'a', 'u', 'g', 'h'] {
            Some(3int)
        } else if s == seq!['e', 'm', 'p', 'h', 'a', 's', 'i', 'z', 'e'] {
            Some(4int)
        } else if s == seq!['q', 'u', 'e', 's', 't', 'i', 'o', 'n'] {
            Some(5int)
        } else {
            None
        }
    }

    /// Sends a tapback for the selected message, when the typed kind
    /// is one of the recognized ones and a conversation is open.
    pub fn send_tapback(&mut self, tap: &String, state: &mut GlobalState) -> (r: Option<AppAction>)
        requires
            old(self).wf(),
            old(self).msgs_view.selected_msg < old(self).msgs_view.messages@.len(),
        ensures
            final(self).wf(),
            *final(self) == *old(self),
            match Self::tapback_kind(tap@) {
                Some(k) => if old(self).chats_view.last_selected is Some {
                    (r matches Some(a) && is_send_tapback(
                        a,
                        old(self).msgs_view.messages@[old(self).msgs_view.selected_msg as int]@.guid,
                        k,
                    )) && *final(state) == *old(state)
                } else {
                    r is None && *final(state) == *old(state)
                },
                None => r is None && final(state).hint_msg@ == "Did not recognize tapback option "@
                    + tap@
                    + "; possible options are: love, like, dislike, laugh, emphasize, question"@
                    && *final(state) == (GlobalState {
                    hint_msg: final(state).hint_msg,
                    ..*old(state)
                }),
            },
    {
        let tap_chars = str_to_chars(tap.as_str());
        let kinds: [&str; 6] = ["love", "like", "dislike", "laugh", "emphasize", "question"];
        let mut kind: Option<usize> = None;
        let c0 = str_to_chars(kinds[0]);
        let c1 = str_to_chars(kinds[1]);
        let c2 = str_to_chars(kinds[2]);
        let c3 = str_to_chars(kinds[3]);
        let c4 = str_to_chars(kinds[4]);
        let c5 = str_to_chars(kinds[5]);
        proof {
            reveal_strlit("love");
            reveal_strlit("like");
            reveal_strlit("dislike");
            reveal_strlit("laugh");
            reveal_strlit("emphasize");
            reveal_strlit("question");
            assert(c0@ =~= seq!['l', 'o', 'v', 'e']);
            assert(c1@ =~= seq!['l', 'i', 'k', 'e']);
            assert(c2@ =~= seq!['d', 'i', 's', 'l', 'i', 'k', 'e']);
            assert(c3@ =~= seq!['l', 'a', 'u', 'g', 'h']);
            assert(c4@ =~= seq!['e', 'm', 'p', 'h', 'a', 's', 'i', 'z', 'e']);
            assert(c5@ =~= seq!['q', 'u', 'e', 's', 't', 'i', 'o', 'n']);
        }
        if crate::command::chars_eq(&tap_chars, &c0) {
            kind = Some(0);
        } else if crate::command::chars_eq(&tap_chars, &c1) {
            kind = Some(1);
        } else if crate::command::chars_eq(&tap_chars, &c2) {
            kind = Some(2);
        } else if crate::command::chars_eq(&tap_chars, &c3) {
            kind = Some(3);
        } else if crate::command::chars_eq(&tap_chars, &c4) {
            kind = Some(4);
        } else if crate::command::chars_eq(&tap_chars, &c5) {
            kind = Some(5);
        }
        match kind {
            Some(k) => {
                if self.chats_view.last_selected.is_some() {
                    let guid = self.msgs_view.messages[self.msgs_view.selected_msg].guid.clone();
                    Some(AppAction::SendTapback { guid, kind: k })
                } else {
                    None
                }
            },
            None => {
                let mut hint = str_to_chars("Did not recognize tapback option ");
                push_chars(&mut hint, &tap_chars);
                let tail = str_to_chars(
                    "; possible options are: love, like, dislike, laugh, emphasize, question",
                );
                push_chars(&mut hint, &tail);
                state.hint_msg = chars_to_string(&hint);
                None
            },
        }
    }

    /// Chooses the conversation a send goes to: an explicitly given
    /// chat id wins, otherwise the open conversation.  Asks the
    /// gateway to drop the typing notice, then to send.
    fn send_text_to(
        &mut self,
        chat_id: Option<String>,
        body: Option<String>,
        files: Option<Vec<String>>,
        state: &mut GlobalState,
        actions: &mut Vec<AppAction>,
    )
        requires
            old(self).wf(),
        ensures
            final(self).wf(),
            *final(self) == *old(self),
            ({
                let target: Option<Seq<char>> = match chat_id {
                    Some(c) => Some(c@),
                    None => match old(self).selected_chat {
                        Some(sel) => Some(
                            conv_models(old(self).chats_view.chats@)[sel as int].chat_identifier,
                        ),
                        None => None,
                    },
                };
                let typing: int = if old(state).current_chat is Some {
                    1
                } else {
                    0
                };
                let sending: int = if target is Some {
                    1
                } else {
                    0
                };
                &&& final(actions)@.len() == old(actions)@.len() + typing + sending
                &&& final(actions)@.subrange(0, old(actions)@.len() as int) == old(actions)@
                &&& (old(state).current_chat matches Some(cur) ==> is_send_typing(
                    final(actions)@[old(actions)@.len() as int],
                    cur@,
                    false,
                ))
                &&& (target matches Some(cid) ==> is_send_text(
                    final(actions)@[final(actions)@.len() - 1],
                    cid,
                    body.deep_view(),
                    match files {
                        Some(v) => Some(string_views(v@)),
                        None => None,
                    },
                ))
                &&& (target is Some ==> final(state).hint_msg@ == "sending text..."@
                    && *final(state) == (GlobalState {
                    hint_msg: final(state).hint_msg,
                    ..*old(state)
                }))
                &&& (target is None ==> *final(state) == *old(state))
            }),
    {
        let ghost actions0 = actions@;
        let chat_option: Option<String> = match chat_id {
            Some(ch) => Some(ch),
            None => match self.selected_chat {
                Some(sel) => Some(self.chats_view.chats[sel].chat_identifier.clone()),
                None => None,
            },
        };
        if let Some(cur) = &state.current_chat {
            actions.push(AppAction::SendTyping { chat: cur.clone(), active: false });
        }
        if let Some(id) = chat_option {
            actions.push(AppAction::SendText { chat: id, body, files });
            state.hint_msg = String::from_str("sending text...");
        }
        proof {
            assert(actions@.subrange(0, actions0.len() as int) =~= actions0);
        }
    }

    /// Applies one full typed command: mutates the engine as the
    /// command asks and returns the outside-facing steps to run.  The
    /// command is remembered at the front of the history and the input
    /// field is cleared.
    pub fn handle_full_input(&mut self, state: &mut GlobalState) -> (r: Vec<AppAction>)
        requires
            old(self).wf(),
        ensures
            final(self).wf(),
            final(self).input_view.input@.len() == 0,
            final(self).input_view.last_commands@ == old(self).input_view.last_commands@.insert(
                0,
                final(self).input_view.last_commands[0],
            ),
            final(self).input_view.last_commands@[0]@ == old(self).input_view.input@,
            ({
                let toks = tokens(old(self).input_view.input@);
                let cmd = lower_seq(toks[0]);
                let args = toks.drop_first();
                (cmd == seq![':', 'q'] ==> final(self).quit_app && r@.len() == 0)
            }),
            ({
                let toks = tokens(old(self).input_view.input@);
                let cmd = lower_seq(toks[0]);
                let args = toks.drop_first();
                (cmd == seq![':', 'h'] ==> final(self).selected_box is Help && r@.len() == 0)
            }),
            ({
                let toks = tokens(old(self).input_view.input@);
                let cmd = lower_seq(toks[0]);
                let args = toks.drop_first();
                (cmd == seq![':', 'r'] ==> final(self).redraw_all && (if old(
                    self,
                ).chats_view.await_state is Not {
                    final(self).chats_view.await_state is Replace && r@.len() == 1
                        && is_fetch_chats(r@[0], None)
                } else {
                    final(self).chats_view.await_state == old(self).chats_view.await_state
                        && r@.len() == 0
                }))
            }),
            ({
                let toks = tokens(old(self).input_view.input@);
                let cmd = lower_seq(toks[0]);
                let args = toks.drop_first();
                (cmd == seq![':', 'n'] ==> {
                    &&& final(self).selected_box is ComposeAddress
                    &&& final(self).selected_chat is None
                    &&& final(self).address_view.input@.len() == 0
                    &&& final(self).compose_body_view.input@.len() == 0
                    &&& final(self).msgs_view.messages@.len() == 0
                    &&& final(self).msgs_view.line_list@.len() == 0
                    &&& r@.len() == 0
                })
            }),
            ({
                let toks = tokens(old(self).input_view.input@);
                let cmd = lower_seq(toks[0]);
                let args = toks.drop_first();
                (cmd == seq![':', 'c'] && args.len() > 0 && args[0].len() > 0 ==> match crate::command::parsed_index(args[0]) {
                    Some(v) => if v < old(self).chats_view.chats@.len() {
                        &&& final(self).selected_chat matches Some(l) && l as int == v
                        &&& final(self).chats_view.last_selected matches Some(l2) && l2 as int
                            == v
                        &&& final(self).msgs_view.await_state is Replace
                    } else {
                        &&& final(self).selected_chat == old(self).selected_chat
                        &&& r@.len() == 0
                    },
                    None => r@.len() == 0,
                })
            }),
            ({
                let toks = tokens(old(self).input_view.input@);
                let cmd = lower_seq(toks[0]);
                let args = toks.drop_first();
                (cmd == seq![':', 'c'] && args.len() > 0 && args[0].len() > 0 ==> match crate::command::parsed_index(args[0]) {
                    Some(v) => if v < old(self).chats_view.chats@.len() {
                        r@.len() == 1 && is_fetch_messages(
                            r@[0],
                            conv_models(old(self).chats_view.chats@)[v].chat_identifier,
                            None,
                        )
                    } else {
                        true
                    },
                    None => true,
                })
            }),
            ({
                let toks = tokens(old(self).input_view.input@);
                let cmd = lower_seq(toks[0]);
                let args = toks.drop_first();
                (cmd == seq![':', 'c'] && args.len() > 0 && args[0].len() > 0 ==> match crate::command::parsed_index(args[0]) {
                    Some(v) => if v < old(self).chats_view.chats@.len() {
                        final(state).hint_msg@ == "loading in messages..."@
                    } else {
                        final(state).hint_msg@ == crate::text::dec_spec(v as nat)
                            + " is out of range for the chats"@
                    },
                    None => final(state).hint_msg@ == "Cannot convert '"@ + args[0]
                        + "' to an int"@,
                })
            }),
            ({
                let toks = tokens(old(self).input_view.input@);
                let cmd = lower_seq(toks[0]);
                let args = toks.drop_first();
                (cmd == seq![':', 'c'] && !(args.len() > 0 && args[0].len() > 0) ==> r@.len() == 0
                    && final(state).hint_msg@ == "Please insert an index"@)
            }),
            ({
                let toks = tokens(old(self).input_view.input@);
                let cmd = lower_seq(toks[0]);
                let args = toks.drop_first();
                (cmd == seq![':', 'a'] ==> {
                    let a_ok = args.len() > 0;
                    let pidx = crate::command::parsed_index(args[0]);
                    &&& (a_ok ==> match pidx {
                        Some(v) => if v < old(self).msgs_view.attachments@.len() {
                            r@.len() == 1 && is_open_attachment(
                                r@[0],
                                old(self).msgs_view.attachments@[v]@,
                            )
                        } else {
                            r@.len() == 0 && final(state).hint_msg@ == "cannot get attachment "@
                                + crate::text::dec_spec(v as nat) + " (there are only "@
                                + crate::text::dec_spec(old(self).msgs_view.attachments@.len())
                                + ")"@
                        },
                        None => r@.len() == 0 && final(state).hint_msg@ == "Cannot convert '"@
                            + args[0] + "' to an int"@,
                    })
                    &&& (!a_ok ==> r@.len() == 0 && final(state).hint_msg@
                        == "Please insert an index"@)
                })
            }),
            ({
                let toks = tokens(old(self).input_view.input@);
                let cmd = lower_seq(toks[0]);
                let args = toks.drop_first();
                (cmd == seq![':', 's'] || cmd == seq![':', 'f'] ==> {
                    let target: Option<Seq<char>> = match old(self).selected_chat {
                        Some(sel) => Some(
                            conv_models(old(self).chats_view.chats@)[sel as int].chat_identifier,
                        ),
                        None => None,
                    };
                    let typing: int = if old(state).current_chat is Some {
                        1
                    } else {
                        0
                    };
                    let sending: int = if target is Some {
                        1
                    } else {
                        0
                    };
                    &&& r@.len() == typing + sending
                    &&& (old(state).current_chat matches Some(cur) ==> is_send_typing(
                        r@[0],
                        cur@,
                        false,
                    ))
                    &&& (target matches Some(cid) ==> (if cmd == seq![':', 's'] {
                        is_send_text(r@[r@.len() - 1], cid, Some(join_spaces(args)), None)
                    } else {
                        is_send_text(
                            r@[r@.len() - 1],
                            cid,
                            None,
                            Some(
                                crate::input_view::typed_atts(
                                    join_spaces(args),
                                    false,
                                    false,
                                    Seq::empty(),
                                    Seq::empty(),
                                ),
                            ),
                        )
                    }))
                })
            }),
            ({
                let toks = tokens(old(self).input_view.input@);
                let cmd = lower_seq(toks[0]);
                let args = toks.drop_first();
                (cmd == seq![':', 't'] ==> {
                    let tap = concat_args(args);
                    &&& (old(self).msgs_view.selected_msg >= old(self).msgs_view.messages@.len()
                        ==> r@.len() == 0 && final(state).hint_msg@ == "no message is selected"@)
                    &&& (old(self).msgs_view.selected_msg < old(self).msgs_view.messages@.len()
                        ==> match Self::tapback_kind(tap) {
                        Some(k) => if old(self).chats_view.last_selected is Some {
                            r@.len() == 1 && is_send_tapback(
                                r@[0],
                                old(self).msgs_view.messages@[
                                    old(self).msgs_view.selected_msg as int]@.guid,
                                k,
                            )
                        } else {
                            r@.len() == 0
                        },
                        None => r@.len() == 0 && final(state).hint_msg@
                            == "Did not recognize tapback option "@ + tap
                            + "; possible options are: love, like, dislike, laugh, emphasize, question"@,
                    })
                })
            }),
            ({
                let toks = tokens(old(self).input_view.input@);
                let cmd = lower_seq(toks[0]);
                let args = toks.drop_first();
                (cmd == seq![':', 'd', 't'] ==> {
                    &&& (old(self).selected_chat is Some && old(self).msgs_view.selected_msg < old(
                        self,
                    ).msgs_view.messages@.len() ==> r@.len() == 1 && is_delete_text(
                        r@[0],
                        old(self).msgs_view.messages@[
                            old(self).msgs_view.selected_msg as int]@.guid,
                    ))
                    &&& (old(self).selected_chat is Some && old(self).msgs_view.selected_msg >= old(
                        self,
                    ).msgs_view.messages@.len() ==> r@.len() == 0 && final(state).hint_msg@
                        == "Failed to delete message (not enough messages)"@)
                    &&& (old(self).selected_chat is None ==> r@.len() == 0)
                })
            }),
            ({
                let toks = tokens(old(self).input_view.input@);
                let cmd = lower_seq(toks[0]);
                let args = toks.drop_first();
                (cmd == seq![':', 'd', 'c'] ==> {
                    &&& (args.len() > 0 ==> r@.len() == 1 && is_delete_chat(r@[0], args[0]))
                    &&& (args.len() == 0 ==> match old(self).selected_chat {
                        Some(ls) => r@.len() == 0 && final(state).hint_msg@ == "Please enter ':dc "@
                            + conv_models(old(self).chats_view.chats@)[ls as int].chat_identifier
                            + "' if you'd like to delete this conversation"@,
                        None => r@.len() == 0,
                    })
                })
            }),
            ({
                let toks = tokens(old(self).input_view.input@);
                let cmd = lower_seq(toks[0]);
                let args = toks.drop_first();
                (cmd == seq![':', 'y'] ==> {
                    &&& (old(self).msgs_view.selected_msg < old(self).msgs_view.messages@.len()
                        ==> r@.len() == 1 && is_copy_to_clipboard(
                        r@[0],
                        old(self).msgs_view.messages@[
                            old(self).msgs_view.selected_msg as int]@.text,
                    ))
                    &&& (old(self).msgs_view.selected_msg >= old(self).msgs_view.messages@.len()
                        ==> r@.len() == 0)
                })
            }),
            ({
                let toks = tokens(old(self).input_view.input@);
                let cmd = lower_seq(toks[0]);
                let args = toks.drop_first();
                (cmd == seq![':', 'b'] ==> {
                    &&& (args.len() < 2 ==> r@.len() == 0 && final(state).hint_msg@
                        == "Please enter at least a variable name and value"@)
                    &&& (args.len() >= 2 ==> r@.len() == 1 && is_update_setting(
                        r@[0],
                        seq![args[0], join_spaces(args.drop_first())],
                    ))
                })
            }),
            ({
                let toks = tokens(old(self).input_view.input@);
                let cmd = lower_seq(toks[0]);
                let args = toks.drop_first();
                (!(cmd == seq![':', 'q']) && !(cmd == seq![':', 'h']) && !(cmd == seq![
                    ':',
                    'r',
                ]) && !(cmd == seq![':', 'n']) && !(cmd == seq![':', 'y']) && !(cmd == seq![
                    ':',
                    'd',
                    't',
                ]) && !(cmd == seq![':', 's']) && !(cmd == seq![':', 'f']) && !(cmd == seq![
                    ':',
                    't',
                ]) && !(cmd == seq![':', 'b']) && !(cmd == seq![':', 'c']) && !(cmd == seq![
                    ':',
                    'a',
                ]) && !(cmd == seq![':', 'd', 'c']) ==> r@.len() == 0 && final(state).hint_msg@
                    == "Command "@ + cmd + " not recognized"@)
            }),
    {
        let input_copy = self.input_view.input.clone();
        self.input_view.push_command(input_copy);
        proof {
            assert(self.input_view.last_commands@.len() == old(
                self,
            ).input_view.last_commands@.len() + 1);
        }
        let cmd = parse_command(&self.input_view.input);
        let mut actions: Vec<AppAction> = Vec::new();
        match cmd {
            Command::Quit => {
                self.quit_app = true;
            },
            Command::SelectChat(idx, raw) => {
                match idx {
                    Some(i) => {
                        proof {
                            if (i as int) < old(self).chats_view.chats@.len() {
                                assert(conv_models(old(self).chats_view.chats@)[i as int] == old(
                                    self,
                                ).chats_view.chats@[i as int]@);
                            }
                        }
                        if let Some(act) = self.load_in_conversation(i, state) {
                            actions.push(act);
                        }
                    },
                    None => {
                        match raw {
                            Some(r) => {
                                let mut hint = str_to_chars("Cannot convert '");
                                let raw_chars = str_to_chars(r.as_str());
                                push_chars(&mut hint, &raw_chars);
                                let tail = str_to_chars("' to an int");
                                push_chars(&mut hint, &tail);
                                state.hint_msg = chars_to_string(&hint);
                            },
                            None => {
                                state.hint_msg = String::from_str("Please insert an index");
                            },
                        }
                    },
                }
            },
            Command::ShowHelp => {
                self.selected_box = DisplayBox::Help;
            },
            Command::SendText(body) => {
                self.send_text_to(None, Some(body), None, state, &mut actions);
            },
            Command::Reload => {
                self.redraw_all = true;
                if self.chats_view.reload_chats() {
                    actions.push(AppAction::FetchChats { offset: None });
                }
            },
            Command::Bind(ops) => {
                if ops.len() < 2 {
                    state.hint_msg = String::from_str(
                        "Please enter at least a variable name and value",
                    );
                } else {
                    // the first word names the setting; the rest, joined
                    // back with spaces, is the value
                    let value = crate::command::join_strings(&ops, 1);
                    let mut pair: Vec<String> = Vec::new();
                    pair.push(ops[0].clone());
                    pair.push(value);
                    proof {
                        assert(string_views(pair@) =~= seq![
                            string_views(ops@)[0],
                            join_spaces(string_views(ops@).drop_first()),
                        ]);
                        assert(string_views(ops@).subrange(1, ops@.len() as int) =~= string_views(
                            ops@,
                        ).drop_first());
                    }
                    actions.push(AppAction::UpdateSetting { ops: pair });
                }
            },
            Command::OpenAttachment(idx, raw) => {
                match idx {
                    Some(i) => {
                        match self.msgs_view.attachment_path(i) {
                            Some(path) => {
                                actions.push(AppAction::OpenAttachment { path });
                            },
                            None => {
                                let mut hint = str_to_chars("cannot get attachment ");
                                let digits = dec_digits(i);
                                push_chars(&mut hint, &digits);
                                let mid = str_to_chars(" (there are only ");
                                push_chars(&mut hint, &mid);
                                let count = dec_digits(self.msgs_view.attachments.len());
                                push_chars(&mut hint, &count);
                                let tail = str_to_chars(")");
                                push_chars(&mut hint, &tail);
                                state.hint_msg = chars_to_string(&hint);
                            },
                        }
                    },
                    None => {
                        match raw {
                            Some(r) => {
                                let mut hint = str_to_chars("Cannot convert '");
                                let raw_chars = str_to_chars(r.as_str());
                                push_chars(&mut hint, &raw_chars);
                                let tail = str_to_chars("' to an int");
                                push_chars(&mut hint, &tail);
                                state.hint_msg = chars_to_string(&hint);
                            },
                            None => {
                                state.hint_msg = String::from_str("Please insert an index");
                            },
                        }
                    },
                }
            },
            Command::SendFiles(typed) => {
                let files = self.input_view.get_typed_attachments(typed);
                self.send_text_to(None, None, Some(files), state, &mut actions);
            },
            Command::Tapback(tap) => {
                if self.msgs_view.selected_msg < self.msgs_view.messages.len() {
                    if let Some(act) = self.send_tapback(&tap, state) {
                        actions.push(act);
                    }
                } else {
                    state.hint_msg = String::from_str("no message is selected");
                }
            },
            Command::Compose => {
                self.selected_box = DisplayBox::ComposeAddress;
                self.compose_body_view.handle_escape();
                self.address_view.handle_escape();
                self.msgs_view.clear();
                if let Some(ls) = self.selected_chat {
                    let kept_unread = self.chats_view.chats[ls].has_unread;
                    let deselected = crate::chats_view::ChatsView::with_flags(
                        &self.chats_view.chats[ls],
                        kept_unread,
                        false,
                    );
                    self.chats_view.chats[ls] = deselected;
                    self.selected_chat = None;
                }
                self.chats_view.last_height = 0;
            },
            Command::DeleteText => {
                if self.selected_chat.is_some() {
                    if let Some(guid) = self.msgs_view.current_guid() {
                        actions.push(AppAction::DeleteText { guid });
                    } else {
                        state.hint_msg = String::from_str(
                            "Failed to delete message (not enough messages)",
                        );
                    }
                }
            },
            Command::DeleteChat(arg) => {
                match arg {
                    Some(chat) => {
                        actions.push(AppAction::DeleteChat { chat });
                    },
                    None => {
                        match self.selected_chat {
                            Some(ls) => {
                                let mut hint = str_to_chars("Please enter ':dc ");
                                let id_chars = str_to_chars(
                                    self.chats_view.chats[ls].chat_identifier.as_str(),
                                );
                                push_chars(&mut hint, &id_chars);
                                let tail = str_to_chars(
                                    "' if you'd like to delete this conversation",
                                );
                                push_chars(&mut hint, &tail);
                                state.hint_msg = chars_to_string(&hint);
                            },
                            None => {},
                        }
                    },
                }
            },
            Command::CopyText => {
                if let Some(text) = self.msgs_view.current_text() {
                    actions.push(AppAction::CopyToClipboard { text });
                }
            },
            Command::Unknown(x) => {
                let mut hint = str_to_chars("Command ");
                let x_chars = str_to_chars(x.as_str());
                push_chars(&mut hint, &x_chars);
                let tail = str_to_chars(" not recognized");
                push_chars(&mut hint, &tail);
                state.hint_msg = chars_to_string(&hint);
            },
        }
        self.input_view.handle_escape();
        actions
    }

    /// Routes one plain typed character: builds up a command (telling
    /// the gateway when a send is being typed), or treats it as a
    /// one-key motion when no command is open.
    pub fn handle_input_char(&mut self, ch: char, distance: usize, state: &GlobalState) -> (r:
        Option<AppAction>)
        requires
            old(self).wf(),
        ensures
            final(self).wf(),
            final(self).quit_app == old(self).quit_app,
            old(self).input_view.input@.len() > 0 || ch == ':' ==> final(self).input_view.input@
                == old(self).input_view.input@.insert(
                old(self).input_view.input@.len() - old(self).input_view.right_offset,
                ch,
            ),
            old(self).input_view.input@.len() == 0 && ch != ':' ==> final(self).input_view.input@
                == old(self).input_view.input@,
            old(self).input_view.input@.len() == 0 && (ch == 'h' || ch == 'l') ==> r is None && (
            old(self).selected_box is Chats ==> final(self).selected_box is Messages) && (old(
                self,
            ).selected_box is Messages ==> final(self).selected_box is Chats),
            old(self).input_view.input@.len() == 0 && (ch == 'q' || ch == 'Q') && old(
                self,
            ).selected_box is Help ==> final(self).selected_box is Chats && r is None,
            // while a command is being typed, a send-command prefix
            // tells the gateway the local user is typing
            old(self).input_view.input@.len() > 0 || ch == ':' ==> ({
                let grown = old(self).input_view.input@.insert(
                    old(self).input_view.input@.len() - old(self).input_view.right_offset,
                    ch,
                );
                let wants = grown.len() > 3 && grown[0] == ':' && (grown[1] == 's' || grown[1]
                    == 'S') && grown[2] == ' ';
                &&& ((r is Some) <==> (wants && state.current_chat is Some))
                &&& (r matches Some(a) ==> (state.current_chat matches Some(c) && is_send_typing(
                    a,
                    c@,
                    true,
                )))
            }),
            // one-key motions scroll the focused box like the scroll
            // command does
            old(self).input_view.input@.len() == 0 && ch != ':' && (ch == 'k' || ch == 'j') ==> ({
                let up = ch == 'k';
                &&& (old(self).selected_box is Help ==> final(self).help_scroll as int == if up {
                    crate::msgs_view::up_sel(old(self).help_scroll as int, distance as int)
                } else {
                    crate::msgs_view::min2(
                        HELP_LINES as int,
                        old(self).help_scroll as int + distance as int,
                    )
                })
                &&& (old(self).selected_box is Chats ==> ((r is Some) <==> (old(
                    self,
                ).chats_view.await_state is Not && final(self).chats_view.await_state is More)) && (
                r matches Some(a) ==> a matches AppAction::FetchChats { offset } && offset == Some(
                    old(self).chats_view.chats.len(),
                )))
                &&& (old(self).selected_box is Messages ==> ((r is Some) <==> (old(
                    self,
                ).msgs_view.await_state is Not && final(self).msgs_view.await_state is More)) && (
                r matches Some(a) ==> a matches AppAction::FetchMessages { chat, offset } && (
                state.current_chat matches Some(c) && chat@ == c@) && offset == Some(
                    old(self).msgs_view.messages.len(),
                )))
                &&& (old(self).selected_box is Chats ==> (if up {
                    final(self).chats_view.scroll as int == crate::msgs_view::up_sel(
                        old(self).chats_view.scroll as int,
                        distance as int,
                    )
                } else {
                    final(self).chats_view.scroll as int == crate::msgs_view::min2(
                        old(self).chats_view.scroll as int + distance as int,
                        crate::chats_view::chats_scroll_limit(
                            old(self).chats_view.chats_list@.len() as int,
                            old(self).chats_view.last_height as int,
                        ),
                    )
                }))
                &&& (old(self).selected_box is Messages && old(self).msgs_view.messages@.len() > 0
                    ==> (if up {
                    final(self).msgs_view.selected_msg as int == crate::msgs_view::up_sel(
                        old(self).msgs_view.selected_msg as int,
                        distance as int,
                    )
                } else {
                    final(self).msgs_view.selected_msg as int == crate::msgs_view::down_sel(
                        old(self).msgs_view.selected_msg as int,
                        distance as int,
                        old(self).msgs_view.messages@.len() as int,
                    )
                }))
            }),
    {
        if self.input_view.input.as_str().unicode_len() > 0 || ch == ':' {
            self.input_view.append_char(ch);
            let chars = str_to_chars(self.input_view.input.as_str());
            if chars.len() > 3 && chars[0] == ':' && (chars[1] == 's' || chars[1] == 'S')
                && chars[2] == ' ' {
                if let Some(chat) = &state.current_chat {
                    return Some(AppAction::SendTyping { chat: chat.clone(), active: true });
                }
            }
            None
        } else {
            match ch {
                'h' | 'l' => {
                    self.switch_selected_box();
                    None
                },
                'q' | 'Q' => {
                    if self.selected_box == DisplayBox::Help {
                        self.selected_box = DisplayBox::Chats;
                    }
                    None
                },
                'k' | 'j' => self.scroll(ch == 'k', distance, state),
                _ => None,
            }
        }
    }

    /// Takes delivery of a conversation fetch outcome.  A list is
    /// applied per the fetch state (appended for pagination, wholesale
    /// for a reload, dropped when no fetch was in flight); a failure
    /// becomes a status hint and clears the fetch state, the list
    /// untouched.
    pub fn loaded_in_chats(
        &mut self,
        res: Result<Vec<Conversation>, String>,
        state: &mut GlobalState,
    )
        requires
            old(self).wf(),
        ensures
            final(self).wf(),
            final(self).msgs_view == old(self).msgs_view,
            final(self).input_view == old(self).input_view,
            final(self).selected_box == old(self).selected_box,
            final(self).quit_app == old(self).quit_app,
            res matches Ok(chs) ==> match old(self).chats_view.await_state {
                AwaitState::Not => *final(self) == *old(self) && *final(state) == *old(state),
                AwaitState::More => {
                    &&& final(self).chats_view.chats@ == old(self).chats_view.chats@ + chs@
                    &&& final(self).chats_view.last_selected == old(self).chats_view.last_selected
                    &&& final(self).selected_chat == old(self).selected_chat
                    &&& final(self).chats_view.await_state is Not
                    &&& final(state).hint_msg@ == "loaded in chats :)"@
                    &&& *final(state) == (GlobalState {
                        hint_msg: final(state).hint_msg,
                        ..*old(state)
                    })
                },
                AwaitState::Replace => {
                    &&& final(self).chats_view.chats@ == chs@
                    &&& final(self).chats_view.last_selected == (match old(
                        self,
                    ).chats_view.last_selected {
                        Some(l) => if (l as int) < chs@.len() {
                            Some(l)
                        } else {
                            None::<usize>
                        },
                        None => None::<usize>,
                    })
                    &&& final(self).selected_chat == (match old(self).selected_chat {
                        Some(l) => if (l as int) < chs@.len() {
                            Some(l)
                        } else {
                            None::<usize>
                        },
                        None => None::<usize>,
                    })
                    &&& final(self).chats_view.await_state is Not
                    &&& final(state).hint_msg@ == "loaded in chats :)"@
                    &&& *final(state) == (GlobalState {
                        hint_msg: final(state).hint_msg,
                        ..*old(state)
                    })
                },
            },
            res matches Err(e) ==> {
                &&& final(self).chats_view.chats@ == old(self).chats_view.chats@
                &&& final(self).chats_view.last_selected == old(self).chats_view.last_selected
                &&& final(self).selected_chat == old(self).selected_chat
                &&& final(self).chats_view.await_state is Not
                &&& final(state).hint_msg@ == "failed to load in chats: "@ + e@
                &&& *final(state) == (GlobalState { hint_msg: final(state).hint_msg, ..*old(state) })
            },
    {
        match res {
            Ok(chs) => {
                if self.chats_view.await_state == AwaitState::Not {
                    return ;
                }
                self.chats_view.loaded_in_chats(chs);
                // a reload may have shrunk the list under the selection
                if let Some(ls) = self.selected_chat {
                    if ls >= self.chats_view.chats.len() {
                        self.selected_chat = None;
                    }
                }
                state.hint_msg = String::from_str("loaded in chats :)");
            },
            Err(e) => {
                let mut hint = str_to_chars("failed to load in chats: ");
                let e_chars = str_to_chars(e.as_str());
                push_chars(&mut hint, &e_chars);
                state.hint_msg = chars_to_string(&hint);
                self.chats_view.await_state = AwaitState::Not;
            },
        }
    }

    /// Takes delivery of a message fetch outcome.  A non-empty page is
    /// applied per the fetch state (older messages prepended for
    /// pagination, wholesale for a full load, dropped when no fetch
    /// was in flight); an empty page or a failure leaves the view's
    /// data unchanged and becomes a status hint.
    pub fn loaded_in_messages(
        &mut self,
        res: Result<Vec<Message>, String>,
        state: &mut GlobalState,
    )
        requires
            old(self).wf(),
            res matches Ok(ms) ==> crate::layout::all_normal(msg_models(ms@)),
        ensures
            final(self).wf(),
            final(self).chats_view == old(self).chats_view,
            final(self).input_view == old(self).input_view,
            final(self).selected_chat == old(self).selected_chat,
            final(self).selected_box == old(self).selected_box,
            final(self).quit_app == old(self).quit_app,
            res matches Ok(ms) ==> {
                &&& (ms@.len() == 0 ==> {
                    &&& final(self).msgs_view.messages@ == old(self).msgs_view.messages@
                    &&& final(self).msgs_view.line_list@ == old(self).msgs_view.line_list@
                    &&& final(self).msgs_view.attachments@ == old(self).msgs_view.attachments@
                    &&& final(self).msgs_view.selected_msg == old(self).msgs_view.selected_msg
                    &&& final(self).msgs_view.typing_idx == old(self).msgs_view.typing_idx
                    &&& final(self).msgs_view.await_state is Not
                    &&& final(state).hint_msg@
                        == "you have loaded in all the messages for this conversation"@
                    &&& *final(state) == (GlobalState {
                        hint_msg: final(state).hint_msg,
                        ..*old(state)
                    })
                })
                &&& (ms@.len() > 0 ==> match old(self).msgs_view.await_state {
                    AwaitState::Not => *final(self) == *old(self) && *final(state) == *old(state),
                    AwaitState::More => {
                        &&& msg_models(final(self).msgs_view.messages@) == msg_models(
                            ms@,
                        ).reverse() + msg_models(old(self).msgs_view.messages@)
                        &&& final(self).msgs_view.selected_msg == old(self).msgs_view.messages.len()
                        &&& final(self).msgs_view.line_list@ == old(self).msgs_view.line_list@
                        &&& final(self).msgs_view.typing_idx == old(self).msgs_view.typing_idx
                        &&& final(self).msgs_view.await_state is Not
                        &&& final(state).hint_msg@ == "loaded in messages :)"@
                        &&& *final(state) == (GlobalState {
                            hint_msg: final(state).hint_msg,
                            ..*old(state)
                        })
                    },
                    AwaitState::Replace => {
                        &&& msg_models(final(self).msgs_view.messages@) == msg_models(ms@).reverse()
                        &&& final(self).msgs_view.selected_msg as int == ms@.len() - 1
                        &&& final(self).msgs_view.line_list@ == old(self).msgs_view.line_list@
                        &&& final(self).msgs_view.typing_idx is None
                        &&& final(self).msgs_view.await_state is Not
                        &&& final(state).hint_msg@ == "loaded in messages :)"@
                        &&& *final(state) == (GlobalState {
                            hint_msg: final(state).hint_msg,
                            ..*old(state)
                        })
                    },
                })
            },
            res matches Err(e) ==> {
                &&& final(self).msgs_view.messages@ == old(self).msgs_view.messages@
                &&& final(self).msgs_view.line_list@ == old(self).msgs_view.line_list@
                &&& final(self).msgs_view.attachments@ == old(self).msgs_view.attachments@
                &&& final(self).msgs_view.selected_msg == old(self).msgs_view.selected_msg
                &&& final(self).msgs_view.typing_idx == old(self).msgs_view.typing_idx
                &&& final(self).msgs_view.await_state is Not
                &&& final(state).hint_msg@ == "failed to load in messages: "@ + e@
                &&& *final(state) == (GlobalState { hint_msg: final(state).hint_msg, ..*old(state) })
            },
    {
        match res {
            Ok(ms) => {
                if ms.len() == 0 {
                    state.hint_msg = String::from_str(
                        "you have loaded in all the messages for this conversation",
                    );
                    self.msgs_view.await_state = AwaitState::Not;
                } else if self.msgs_view.await_state == AwaitState::Not {
                    // no fetch was in flight: nothing to deliver
                } else {
                    self.msgs_view.loaded_in_messages(ms);
                    state.hint_msg = String::from_str("loaded in messages :)");
                }
            },
            Err(e) => {
                let mut hint = str_to_chars("failed to load in messages: ");
                let e_chars = str_to_chars(e.as_str());
                push_chars(&mut hint, &e_chars);
                state.hint_msg = chars_to_string(&hint);
                self.msgs_view.await_state = AwaitState::Not;
            },
        }
    }

    /// Applies the Enter key: in the compose address box the focus
    /// moves to the body and the typed conversation is fetched; in the
    /// compose body box the composed text is sent and the engine
    /// waits for the new conversation to come back; anywhere else a
    /// non-empty typed command runs.
    pub fn handle_enter(&mut self, state: &mut GlobalState) -> (r: Vec<AppAction>)
        requires
            old(self).wf(),
        ensures
            final(self).wf(),
            old(self).selected_box is ComposeAddress ==> {
                &&& final(self).selected_box is ComposeBody
                &&& final(self).msgs_view.await_state is Replace
                &&& r@.len() == 1 && is_fetch_messages(
                    r@[0],
                    old(self).address_view.input@,
                    None,
                )
                &&& final(self).address_view == old(self).address_view
                &&& final(self).input_view == old(self).input_view
                &&& final(self).chats_view == old(self).chats_view
            },
            old(self).selected_box is ComposeBody ==> {
                &&& final(self).selected_box is Messages
                &&& final(state).awaiting_new_convo
                &&& ({
                    let typing: int = if old(state).current_chat is Some {
                        1
                    } else {
                        0
                    };
                    &&& r@.len() == typing + 1
                    &&& (old(state).current_chat matches Some(cur) ==> is_send_typing(
                        r@[0],
                        cur@,
                        false,
                    ))
                    &&& is_send_text(
                        r@[typing],
                        old(self).address_view.input@,
                        Some(old(self).compose_body_view.input@),
                        None,
                    )
                })
                &&& final(state).hint_msg@ == "sending text..."@
            },
            !(old(self).selected_box is ComposeAddress) && !(old(self).selected_box is ComposeBody)
                ==> {
                &&& (old(self).input_view.input@.len() == 0 ==> *final(self) == *old(self)
                    && *final(state) == *old(state) && r@.len() == 0)
                &&& (old(self).input_view.input@.len() > 0 ==> final(self).input_view.input@.len()
                    == 0 && final(self).input_view.last_commands@
                    == old(self).input_view.last_commands@.insert(
                    0,
                    final(self).input_view.last_commands[0],
                ) && final(self).input_view.last_commands@[0]@ == old(self).input_view.input@)
            },
    {
        let mut actions: Vec<AppAction> = Vec::new();
        match self.selected_box {
            DisplayBox::ComposeAddress => {
                self.selected_box = DisplayBox::ComposeBody;
                self.msgs_view.await_state = AwaitState::Replace;
                actions.push(
                    AppAction::FetchMessages { chat: self.address_view.input.clone(), offset: None },
                );
            },
            DisplayBox::ComposeBody => {
                let chat = self.address_view.input.clone();
                let body = self.compose_body_view.input.clone();
                self.send_text_to(Some(chat), Some(body), None, state, &mut actions);
                self.selected_box = DisplayBox::Messages;
                // the next inbound message loads the new conversation
                // in instead of duplicating its text
                state.awaiting_new_convo = true;
            },
            _ => {
                if self.input_view.input.as_str().unicode_len() > 0 {
                    let mut cmds = self.handle_full_input(state);
                    actions.append(&mut cmds);
                }
            },
        }
        actions
    }

    /// Applies the Backspace key to the focused field; erasing the
    /// last character of an open command tells the gateway the local
    /// user stopped typing.
    pub fn handle_backspace_key(&mut self, state: &GlobalState) -> (r: Option<AppAction>)
        requires
            old(self).wf(),
        ensures
            final(self).wf(),
            old(self).selected_box is ComposeAddress ==> backspaced(
                old(self).address_view,
                final(self).address_view,
            ) && final(self).input_view == old(self).input_view && final(self).compose_body_view
                == old(self).compose_body_view && r is None,
            old(self).selected_box is ComposeBody ==> backspaced(
                old(self).compose_body_view,
                final(self).compose_body_view,
            ) && final(self).input_view == old(self).input_view && final(self).address_view == old(
                self,
            ).address_view && r is None,
            !(old(self).selected_box is ComposeAddress) && !(old(self).selected_box is ComposeBody)
                ==> {
                &&& backspaced(old(self).input_view, final(self).input_view)
                &&& final(self).address_view == old(self).address_view
                &&& final(self).compose_body_view == old(self).compose_body_view
                &&& ((r is Some) <==> (final(self).input_view.input@.len() == 0
                    && state.current_chat is Some))
                &&& (r matches Some(a) ==> (state.current_chat matches Some(c) && is_send_typing(
                    a,
                    c@,
                    false,
                )))
            },
            final(self).selected_box == old(self).selected_box,
            final(self).selected_chat == old(self).selected_chat,
            final(self).chats_view == old(self).chats_view,
            final(self).msgs_view == old(self).msgs_view,
            final(self).quit_app == old(self).quit_app,
    {
        match self.selected_box {
            DisplayBox::ComposeAddress => {
                self.address_view.handle_backspace();
                None
            },
            DisplayBox::ComposeBody => {
                self.compose_body_view.handle_backspace();
                None
            },
            _ => {
                self.input_view.handle_backspace();
                if self.input_view.input.as_str().is_empty() {
                    match &state.current_chat {
                        Some(chat) => Some(
                            AppAction::SendTyping { chat: chat.clone(), active: false },
                        ),
                        None => None,
                    }
                } else {
                    None
                }
            },
        }
    }

    /// Applies the Tab key to the focused field; on a file-send
    /// command it asks for path completion instead of inserting a
    /// tab.
    pub fn handle_tab_key(&mut self) -> (r: Option<AppAction>)
        requires
            old(self).wf(),
        ensures
            final(self).wf(),
            ({
                let focused = match old(self).selected_box {
                    DisplayBox::ComposeAddress => old(self).address_view,
                    DisplayBox::ComposeBody => old(self).compose_body_view,
                    _ => old(self).input_view,
                };
                let edited = match old(self).selected_box {
                    DisplayBox::ComposeAddress => final(self).address_view,
                    DisplayBox::ComposeBody => final(self).compose_body_view,
                    _ => final(self).input_view,
                };
                &&& ((r is Some) <==> wants_completion(focused.input@))
                &&& (r matches Some(a) ==> a is CompleteFilePath && edited == focused)
                &&& (r is None ==> edited.input@ == focused.input@.push('\t'))
            }),
            final(self).selected_box == old(self).selected_box,
            final(self).selected_chat == old(self).selected_chat,
            final(self).chats_view == old(self).chats_view,
            final(self).msgs_view == old(self).msgs_view,
            final(self).quit_app == old(self).quit_app,
    {
        match self.selected_box {
            DisplayBox::ComposeAddress => {
                if self.address_view.handle_tab() {
                    Some(AppAction::CompleteFilePath)
                } else {
                    None
                }
            },
            DisplayBox::ComposeBody => {
                if self.compose_body_view.handle_tab() {
                    Some(AppAction::CompleteFilePath)
                } else {
                    None
                }
            },
            _ => {
                if self.input_view.handle_tab() {
                    Some(AppAction::CompleteFilePath)
                } else {
                    None
                }
            },
        }
    }
}

} // verus!
