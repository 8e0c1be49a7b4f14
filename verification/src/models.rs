//! The data model: messages, attachments, conversations, and the
//! rendered lines that the viewport produces from them.  Each exec type
//! has a ghost model over `Seq<char>` so that contracts can speak of
//! the text itself.

use vstd::prelude::*;

verus! {

/// Per-view fetch state: at most one fetch is in flight per view, and
/// while one is (`More` for pagination, `Replace` for a reload), any
/// further request for that view is refused.
#[derive(Clone, Copy, PartialEq, Eq, Structural, Debug)]
pub enum AwaitState {
    More,
    Replace,
    Not,
}

#[derive(Clone, Copy, PartialEq, Eq, Structural, Debug)]
pub enum MessageType {
    Normal,
    Typing,
    Idle,
}

#[derive(Clone)]
pub struct Attachment {
    pub mime_type: String,
    pub path: String,
}

#[verifier::ext_equal]
pub ghost struct AttachmentModel {
    pub mime_type: Seq<char>,
    pub path: Seq<char>,
}

impl View for Attachment {
    type V = AttachmentModel;

    open spec fn view(&self) -> AttachmentModel {
        AttachmentModel { mime_type: self.mime_type@, path: self.path@ }
    }
}

impl DeepView for Attachment {
    type V = AttachmentModel;

    open spec fn deep_view(&self) -> AttachmentModel {
        self.view()
    }
}

impl Attachment {
    pub fn new(mime_type: String, path: String) -> (r: Attachment)
        ensures
            r@ == (AttachmentModel { mime_type: mime_type@, path: path@ }),
    {
        Attachment { mime_type, path }
    }
}

#[derive(Clone)]
pub struct Message {
    pub guid: String,
    pub date: i64,
    pub sender: Option<String>,
    pub text: String,
    pub attachments: Vec<Attachment>,
    pub is_from_me: bool,
    pub message_type: MessageType,
    pub chat_identifier: Option<String>,
}

#[verifier::ext_equal]
pub ghost struct MessageModel {
    pub guid: Seq<char>,
    pub date: int,
    pub sender: Option<Seq<char>>,
    pub text: Seq<char>,
    pub attachments: Seq<AttachmentModel>,
    pub is_from_me: bool,
    pub message_type: MessageType,
    pub chat_identifier: Option<Seq<char>>,
}

impl View for Message {
    type V = MessageModel;

    open spec fn view(&self) -> MessageModel {
        MessageModel {
            guid: self.guid@,
            date: self.date as int,
            sender: self.sender.deep_view(),
            text: self.text@,
            attachments: self.attachments.deep_view(),
            is_from_me: self.is_from_me,
            message_type: self.message_type,
            chat_identifier: self.chat_identifier.deep_view(),
        }
    }
}

impl DeepView for Message {
    type V = MessageModel;

    open spec fn deep_view(&self) -> MessageModel {
        self.view()
    }
}

impl Message {
    /// The synthetic message standing for "the other party is typing"
    /// in the given conversation.
    pub fn typing(chat: &str) -> (r: Message)
        ensures
            r@ == typing_message_model(chat@),
    {
        let r = Message {
            guid: String::new(),
            date: 0,
            sender: None,
            text: String::new(),
            attachments: Vec::new(),
            is_from_me: false,
            message_type: MessageType::Typing,
            chat_identifier: Some(chat.to_owned()),
        };
        proof {
            assert(r.attachments.deep_view() =~= Seq::<AttachmentModel>::empty());
            assert(r@ =~= typing_message_model(chat@));
        }
        r
    }

    /// The synthetic message standing for "the other party went idle"
    /// in the given conversation.
    pub fn idle(chat: &str) -> (r: Message)
        ensures
            r@ == (MessageModel { message_type: MessageType::Idle, ..typing_message_model(chat@) }),
    {
        let r = Message {
            guid: String::new(),
            date: 0,
            sender: None,
            text: String::new(),
            attachments: Vec::new(),
            is_from_me: false,
            message_type: MessageType::Idle,
            chat_identifier: Some(chat.to_owned()),
        };
        proof {
            assert(r.attachments.deep_view() =~= Seq::<AttachmentModel>::empty());
            assert(r@ =~= (MessageModel {
                message_type: MessageType::Idle,
                ..typing_message_model(chat@)
            }));
        }
        r
    }
}

/// Model of the synthetic typing message for a conversation.
pub open spec fn typing_message_model(chat: Seq<char>) -> MessageModel {
    MessageModel {
        guid: Seq::empty(),
        date: 0,
        sender: None,
        text: Seq::empty(),
        attachments: Seq::empty(),
        is_from_me: false,
        message_type: MessageType::Typing,
        chat_identifier: Some(chat),
    }
}

#[derive(Clone, Copy, PartialEq, Eq, Structural, Debug)]
pub enum MessageLineType {
    Blank,
    TimeDisplay,
    Text,
    Sender,
    Underline,
    Typing,
}

pub struct MessageLine {
    pub text: String,
    pub message_type: MessageLineType,
    pub relative_index: usize,
    pub from_me: bool,
}

#[verifier::ext_equal]
pub ghost struct LineModel {
    pub text: Seq<char>,
    pub message_type: MessageLineType,
    pub relative_index: int,
    pub from_me: bool,
}

impl View for MessageLine {
    type V = LineModel;

    open spec fn view(&self) -> LineModel {
        LineModel {
            text: self.text@,
            message_type: self.message_type,
            relative_index: self.relative_index as int,
            from_me: self.from_me,
        }
    }
}

impl DeepView for MessageLine {
    type V = LineModel;

    open spec fn deep_view(&self) -> LineModel {
        self.view()
    }
}

impl MessageLine {
    pub fn new(text: String, message_type: MessageLineType, relative_index: usize, from_me: bool) -> (r: MessageLine)
        ensures
            r@ == (LineModel {
                text: text@,
                message_type,
                relative_index: relative_index as int,
                from_me,
            }),
    {
        MessageLine { text, message_type, relative_index, from_me }
    }

    pub fn blank(ri: usize) -> (r: MessageLine)
        ensures
            r@ == blank_line_model(ri as int),
    {
        MessageLine {
            text: String::new(),
            message_type: MessageLineType::Blank,
            relative_index: ri,
            from_me: true,
        }
    }
}

/// Model of an empty separator line belonging to message `ri`.
pub open spec fn blank_line_model(ri: int) -> LineModel {
    LineModel {
        text: Seq::empty(),
        message_type: MessageLineType::Blank,
        relative_index: ri,
        from_me: true,
    }
}

#[derive(Clone)]
pub struct Conversation {
    pub display_name: String,
    pub chat_identifier: String,
    pub latest_text: String,
    pub has_unread: bool,
    pub addresses: String,
    pub is_selected: bool,
    pub pinned: bool,
    pub relative_time: String,
}

#[verifier::ext_equal]
pub ghost struct ConversationModel {
    pub display_name: Seq<char>,
    pub chat_identifier: Seq<char>,
    pub latest_text: Seq<char>,
    pub has_unread: bool,
    pub addresses: Seq<char>,
    pub is_selected: bool,
    pub pinned: bool,
    pub relative_time: Seq<char>,
}

impl View for Conversation {
    type V = ConversationModel;

    open spec fn view(&self) -> ConversationModel {
        ConversationModel {
            display_name: self.display_name@,
            chat_identifier: self.chat_identifier@,
            latest_text: self.latest_text@,
            has_unread: self.has_unread,
            addresses: self.addresses@,
            is_selected: self.is_selected,
            pinned: self.pinned,
            relative_time: self.relative_time@,
        }
    }
}

impl DeepView for Conversation {
    type V = ConversationModel;

    open spec fn deep_view(&self) -> ConversationModel {
        self.view()
    }
}

} // verus!
