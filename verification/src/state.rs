//! The shared state the background tasks and the dispatcher exchange:
//! one pending slot per event category, each consumed exactly once by
//! taking it, plus connectivity and the transient status line.

use vstd::prelude::*;
use vstd::string::StringExecFns;
use crate::models::{Conversation, Message};
use crate::text::{chars_to_string, dec_digits, dec_spec, push_chars, str_to_chars};

verus! {

#[derive(Clone, Copy, PartialEq, Eq, Structural, Debug)]
pub enum WebSocketState {
    Connected,
    Connecting,
    Disconnected,
}

/// What the task that owns the push-notification connection observed.
#[derive(Clone, Copy, PartialEq, Eq, Structural, Debug)]
pub enum SocketEvent {
    /// The connection (or reconnection) succeeded.
    Opened,
    /// The connection attempt failed.
    ConnectFailed,
    /// A mid-stream read failed.
    ReadError,
}

/// How long the listener waits before retrying a failed connection.
pub const RECONNECT_DELAY_MSECS: u64 = 2000;

#[derive(Clone, Copy, PartialEq, Eq, Structural, Debug)]
pub enum BatteryStatus {
    Full,
    Charging(u8),
    Unplugged(u8),
    Dead,
}

/// The status-line text for a battery state.
pub open spec fn battery_string_spec(b: BatteryStatus) -> Seq<char> {
    match b {
        BatteryStatus::Full => "100%, full"@,
        BatteryStatus::Charging(x) => dec_spec(x as nat) + "%, charging"@,
        BatteryStatus::Unplugged(x) => dec_spec(x as nat) + "%, unplugged"@,
        BatteryStatus::Dead => "0%, dead"@,
    }
}

/// One pending value handed from the async side to the dispatcher.
pub enum PendingEvent {
    /// An inbound message pushed over the event stream.
    NewText(Message),
    /// The outcome of a conversation fetch.
    Chats(Result<Vec<Conversation>, String>),
    /// The outcome of a message fetch.
    Msgs(Result<Vec<Message>, String>),
}

pub struct GlobalState {
    /// At most one pending inbound message.
    pub new_text: Option<Message>,
    /// At most one pending conversation fetch result.
    pub new_chats: Option<Result<Vec<Conversation>, String>>,
    /// At most one pending message fetch result.
    pub new_msgs: Option<Result<Vec<Message>, String>>,
    /// Id of the conversation whose messages are open.
    pub current_chat: Option<String>,
    /// The transient status line.
    pub hint_msg: String,
    /// Set after composing to a new address, so the next inbound
    /// message loads the new conversation in instead of duplicating
    /// its text.
    pub awaiting_new_convo: bool,
    /// A message waiting to go out over the event stream.
    pub outgoing_websocket_msg: Option<String>,
    pub websocket_state: WebSocketState,
    pub battery_status: BatteryStatus,
}

impl GlobalState {
    pub fn new() -> (r: GlobalState)
        ensures
            r.new_text is None,
            r.new_chats is None,
            r.new_msgs is None,
            r.current_chat is None,
            r.hint_msg@ == "type :h to get help :)"@,
            !r.awaiting_new_convo,
            r.outgoing_websocket_msg is None,
            r.websocket_state is Disconnected,
            r.battery_status is Dead,
    {
        GlobalState {
            new_text: None,
            new_chats: None,
            new_msgs: None,
            current_chat: None,
            hint_msg: String::from_str("type :h to get help :)"),
            awaiting_new_convo: false,
            outgoing_websocket_msg: None,
            websocket_state: WebSocketState::Disconnected,
            battery_status: BatteryStatus::Dead,
        }
    }

    /// The battery reading as a status-line string.
    pub fn battery_string(&self) -> (r: String)
        ensures
            r@ == battery_string_spec(self.battery_status),
    {
        match self.battery_status {
            BatteryStatus::Full => String::from_str("100%, full"),
            BatteryStatus::Charging(x) => {
                let mut out = dec_digits(x as usize);
                let tail = str_to_chars("%, charging");
                push_chars(&mut out, &tail);
                let r = chars_to_string(&out);
                proof {
                    assert(r@ =~= battery_string_spec(self.battery_status));
                }
                r
            },
            BatteryStatus::Unplugged(x) => {
                let mut out = dec_digits(x as usize);
                let tail = str_to_chars("%, unplugged");
                push_chars(&mut out, &tail);
                let r = chars_to_string(&out);
                proof {
                    assert(r@ =~= battery_string_spec(self.battery_status));
                }
                r
            },
            BatteryStatus::Dead => String::from_str("0%, dead"),
        }
    }

    /// A writer replaces the pending inbound message: each slot holds
    /// at most one value, the newest.
    pub fn set_new_text(&mut self, msg: Message)
        ensures
            *final(self) == (GlobalState { new_text: Some(msg), ..*old(self) }),
    {
        self.new_text = Some(msg);
    }

    pub fn set_new_chats(&mut self, chats: Result<Vec<Conversation>, String>)
        ensures
            *final(self) == (GlobalState { new_chats: Some(chats), ..*old(self) }),
    {
        self.new_chats = Some(chats);
    }

    pub fn set_new_msgs(&mut self, msgs: Result<Vec<Message>, String>)
        ensures
            *final(self) == (GlobalState { new_msgs: Some(msgs), ..*old(self) }),
    {
        self.new_msgs = Some(msgs);
    }

    /// Replaces the status line.
    pub fn hint(&mut self, msg: String)
        ensures
            *final(self) == (GlobalState { hint_msg: msg, ..*old(self) }),
    {
        self.hint_msg = msg;
    }

    /// The reconnect policy of the event listener: a connect failure
    /// or mid-stream read error enters Disconnected and asks for one
    /// retry after the fixed delay; a successful (re)connection sets
    /// Connected and asks for none.
    pub fn on_socket_event(&mut self, event: SocketEvent) -> (retry: bool)
        ensures
            event is Opened ==> *final(self) == (GlobalState {
                websocket_state: WebSocketState::Connected,
                ..*old(self)
            }) && !retry,
            !(event is Opened) ==> *final(self) == (GlobalState {
                websocket_state: WebSocketState::Disconnected,
                hint_msg: final(self).hint_msg,
                ..*old(self)
            }) && final(self).hint_msg@ == "Websocket disconnected; retrying..."@ && retry,
    {
        match event {
            SocketEvent::Opened => {
                self.websocket_state = WebSocketState::Connected;
                false
            },
            SocketEvent::ConnectFailed | SocketEvent::ReadError => {
                self.websocket_state = WebSocketState::Disconnected;
                self.hint_msg = String::from_str("Websocket disconnected; retrying...");
                true
            },
        }
    }

    /// Records a decoded typing or idle notice as the pending inbound
    /// message (the event listener's translation of the push stream).
    pub fn receive_typing(&mut self, chat: &str, active: bool)
        ensures
            (final(self).new_text matches Some(m) && m@ == (if active {
                crate::models::typing_message_model(chat@)
            } else {
                crate::models::MessageModel {
                    message_type: crate::models::MessageType::Idle,
                    ..crate::models::typing_message_model(chat@)
                }
            })),
            *final(self) == (GlobalState { new_text: final(self).new_text, ..*old(self) }),
    {
        if active {
            self.new_text = Some(Message::typing(chat));
        } else {
            self.new_text = Some(Message::idle(chat));
        }
    }

    /// Records a decoded battery reading: a charging battery at the
    /// extremes reads full or dead, anything else keeps its percentage.
    pub fn receive_battery(&mut self, charging: bool, percentage: u8)
        ensures
            *final(self) == (GlobalState {
                battery_status: final(self).battery_status,
                ..*old(self)
            }),
            final(self).battery_status == (if charging {
                if percentage == 100 {
                    BatteryStatus::Full
                } else if percentage == 0 {
                    BatteryStatus::Dead
                } else {
                    BatteryStatus::Charging(percentage)
                }
            } else {
                BatteryStatus::Unplugged(percentage)
            }),
    {
        self.battery_status = if charging {
            if percentage == 100 {
                BatteryStatus::Full
            } else if percentage == 0 {
                BatteryStatus::Dead
            } else {
                BatteryStatus::Charging(percentage)
            }
        } else {
            BatteryStatus::Unplugged(percentage)
        };
    }

    /// Takes the highest-priority pending value and clears its slot,
    /// so each pending value is delivered exactly once: inbound
    /// message first, then a conversation fetch result, then a
    /// message fetch result.  At most one slot is consumed per call.
    pub fn take_next(&mut self) -> (r: Option<PendingEvent>)
        ensures
            old(self).new_text matches Some(m) ==> *final(self) == (GlobalState {
                new_text: None,
                ..*old(self)
            }) && r == Some(PendingEvent::NewText(m)),
            old(self).new_text is None ==> (old(self).new_chats matches Some(c) ==> *final(self)
                == (GlobalState { new_chats: None, ..*old(self) }) && r == Some(
                PendingEvent::Chats(c),
            )),
            old(self).new_text is None && old(self).new_chats is None ==> (old(
                self,
            ).new_msgs matches Some(m) ==> *final(self) == (GlobalState {
                new_msgs: None,
                ..*old(self)
            }) && r == Some(PendingEvent::Msgs(m))),
            old(self).new_text is None && old(self).new_chats is None && old(self).new_msgs is None
                ==> *final(self) == *old(self) && r is None,
    {
        if self.new_text.is_some() {
            let mut taken: Option<Message> = None;
            core::mem::swap(&mut taken, &mut self.new_text);
            match taken {
                Some(m) => Some(PendingEvent::NewText(m)),
                None => None,
            }
        } else if self.new_chats.is_some() {
            let mut taken: Option<Result<Vec<Conversation>, String>> = None;
            core::mem::swap(&mut taken, &mut self.new_chats);
            match taken {
                Some(c) => Some(PendingEvent::Chats(c)),
                None => None,
            }
        } else if self.new_msgs.is_some() {
            let mut taken: Option<Result<Vec<Message>, String>> = None;
            core::mem::swap(&mut taken, &mut self.new_msgs);
            match taken {
                Some(m) => Some(PendingEvent::Msgs(m)),
                None => None,
            }
        } else {
            None
        }
    }
}

} // verus!
