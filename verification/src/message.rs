//! The conversation model: the messages of a dialogue and the turns they are
//! sent as.

use vstd::prelude::*;

verus! {

/// The speaker a turn is attributed to on the wire.
#[derive(Clone, Copy, Debug, PartialEq, Eq, Structural)]
pub enum Role {
    System,
    User,
    Assistant,
    Tool,
}

impl Role {
    /// The role as it is written on the wire.
    pub open spec fn name(self) -> Seq<char> {
        match self {
            Role::System => "system"@,
            Role::User => "user"@,
            Role::Assistant => "assistant"@,
            Role::Tool => "tool"@,
        }
    }

    /// The role as it is written on the wire.
    pub fn as_str(&self) -> (name: &'static str)
        ensures
            name@ == self.name(),
    {
        match self {
            Role::System => "system",
            Role::User => "user",
            Role::Assistant => "assistant",
            Role::Tool => "tool",
        }
    }
}

/// One message of a conversation.
///
/// `ToolCall` and `Status` both carry what the assistant said and what the
/// tool answered, in that order; the encoder treats the two alike.
#[derive(Clone, Debug, PartialEq, Eq)]
pub enum Message {
    System(String),
    User(String),
    Assistant(String),
    ToolCall(String, String),
    Status(String, String),
}

/// A message with its texts as character sequences.
pub enum MessageView {
    System(Seq<char>),
    User(Seq<char>),
    Assistant(Seq<char>),
    ToolCall(Seq<char>, Seq<char>),
    Status(Seq<char>, Seq<char>),
}

impl View for Message {
    type V = MessageView;

    open spec fn view(&self) -> MessageView {
        match self {
            Message::System(text) => MessageView::System(text@),
            Message::User(text) => MessageView::User(text@),
            Message::Assistant(text) => MessageView::Assistant(text@),
            Message::ToolCall(assistant, tool) => MessageView::ToolCall(assistant@, tool@),
            Message::Status(assistant, tool) => MessageView::Status(assistant@, tool@),
        }
    }
}

impl MessageView {
    /// Whether the message belongs to a merge group: a `ToolCall` or a
    /// `Status`.
    pub open spec fn merges(self) -> bool {
        self is ToolCall || self is Status
    }

    /// What the message adds to the assistant turn of its merge group;
    /// nothing for a plain message.
    pub open spec fn assistant_text(self) -> Seq<char> {
        match self {
            MessageView::ToolCall(assistant, _) => assistant,
            MessageView::Status(assistant, _) => assistant,
            _ => Seq::empty(),
        }
    }

    /// What the message adds to the tool turn of its merge group; nothing
    /// for a plain message.
    pub open spec fn tool_text(self) -> Seq<char> {
        match self {
            MessageView::ToolCall(_, tool) => tool,
            MessageView::Status(_, tool) => tool,
            _ => Seq::empty(),
        }
    }

    /// The turn a plain message is sent as: its own role and its own text.
    /// A message of a merge group is never sent this way.
    pub open spec fn plain_turn(self) -> TurnView
        recommends
            !self.merges(),
    {
        match self {
            MessageView::System(text) => TurnView { role: Role::System, content: text },
            MessageView::User(text) => TurnView { role: Role::User, content: text },
            MessageView::Assistant(text) => TurnView { role: Role::Assistant, content: text },
            MessageView::ToolCall(assistant, _) => TurnView {
                role: Role::Assistant,
                content: assistant,
            },
            MessageView::Status(assistant, _) => TurnView {
                role: Role::Assistant,
                content: assistant,
            },
        }
    }
}

/// The views of the messages of a conversation, in order.
pub open spec fn conversation_view(messages: Seq<Message>) -> Seq<MessageView> {
    messages.map_values(|message: Message| message@)
}

/// One turn as it is sent: a role and a text.
#[derive(Clone, Debug, PartialEq, Eq)]
pub struct WireTurn {
    pub role: Role,
    pub content: String,
}

/// A turn with its text as a character sequence.
pub struct TurnView {
    pub role: Role,
    pub content: Seq<char>,
}

impl View for WireTurn {
    type V = TurnView;

    open spec fn view(&self) -> TurnView {
        TurnView { role: self.role, content: self.content@ }
    }
}

/// The views of a sequence of turns, in order.
pub open spec fn turns_view(turns: Seq<WireTurn>) -> Seq<TurnView> {
    turns.map_values(|turn: WireTurn| turn@)
}

} // verus!
