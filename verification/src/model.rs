//! The event model: the platform's wire shapes as owned tree values.
//!
//! Every type mirrors one JSON object or tagged union of the events API.
//! Optional fields encode "not applicable" by absence, never by a sentinel.
//! `Message` refers to itself through `message` and `previous_message`
//! (the message an edit or deletion speaks of, and its prior state); the
//! values are owned boxes, so every message is a finite tree.

use vstd::prelude::*;

verus! {

/// One reaction attached to a message.
pub struct Reaction {
    pub name: String,
    pub count: u64,
    pub users: Vec<String>,
}

/// The value of a [`Reaction`].
pub struct ReactionV {
    pub name: Seq<char>,
    pub count: u64,
    pub users: Seq<Seq<char>>,
}

/// Edit metadata on a message.
pub struct Edited {
    pub user: String,
    pub ts: String,
}

/// The value of an [`Edited`].
pub struct EditedV {
    pub user: Seq<char>,
    pub ts: Seq<char>,
}

/// A chat message, with its edit and deletion metadata.
pub struct Message {
    pub ts: String,
    pub channel: Option<String>,
    pub channel_type: Option<String>,
    pub client_msg_id: Option<String>,
    pub deleted_ts: Option<String>,
    pub edited: Option<Edited>,
    pub event_ts: Option<String>,
    pub hidden: Option<bool>,
    pub is_starred: Option<bool>,
    pub message: Option<Box<Message>>,
    pub pinned_to: Option<Vec<String>>,
    pub previous_message: Option<Box<Message>>,
    pub reactions: Option<Vec<Reaction>>,
    pub source_team: Option<String>,
    pub subtype: Option<String>,
    pub team: Option<String>,
    pub text: Option<String>,
    pub user: Option<String>,
    pub user_team: Option<String>,
}

/// The value of a [`Message`].
pub struct MessageV {
    pub ts: Seq<char>,
    pub channel: Option<Seq<char>>,
    pub channel_type: Option<Seq<char>>,
    pub client_msg_id: Option<Seq<char>>,
    pub deleted_ts: Option<Seq<char>>,
    pub edited: Option<EditedV>,
    pub event_ts: Option<Seq<char>>,
    pub hidden: Option<bool>,
    pub is_starred: Option<bool>,
    pub message: Option<Box<MessageV>>,
    pub pinned_to: Option<Seq<Seq<char>>>,
    pub previous_message: Option<Box<MessageV>>,
    pub reactions: Option<Seq<ReactionV>>,
    pub source_team: Option<Seq<char>>,
    pub subtype: Option<Seq<char>>,
    pub team: Option<Seq<char>>,
    pub text: Option<Seq<char>>,
    pub user: Option<Seq<char>>,
    pub user_team: Option<Seq<char>>,
}

/// The inner event of an event callback; messages are the one kind the
/// worker acts on.
pub enum InternalEvent {
    Message(Message),
}

/// The value of an [`InternalEvent`].
pub enum InternalEventV {
    Message(MessageV),
}

/// The envelope the platform sends for every subscribed event.
pub struct EventCallback {
    pub token: String,
    pub team_id: String,
    pub api_app_id: String,
    pub event: InternalEvent,
    pub event_id: String,
    pub event_time: u64,
    pub authed_users: Vec<String>,
}

/// The value of an [`EventCallback`].
pub struct EventCallbackV {
    pub token: Seq<char>,
    pub team_id: Seq<char>,
    pub api_app_id: Seq<char>,
    pub event: InternalEventV,
    pub event_id: Seq<char>,
    pub event_time: u64,
    pub authed_users: Seq<Seq<char>>,
}

/// The top-level tagged union of the events API.
pub enum SlackEvent {
    UrlVerification { token: String, challenge: String },
    EventCallback(EventCallback),
}

/// The value of a [`SlackEvent`].
pub enum SlackEventV {
    UrlVerification { token: Seq<char>, challenge: Seq<char> },
    EventCallback(EventCallbackV),
}

/// One element of a rich-text rendering tree.
pub enum BlockElement {
    RichTextSection { elements: Vec<BlockElement> },
    Text { text: String },
}

/// The value of a [`BlockElement`].
pub enum BlockElementV {
    RichTextSection { elements: Seq<BlockElementV> },
    Text { text: Seq<char> },
}

/// A rich-text rendering block attached to a message.
pub struct Block {
    pub block_id: String,
    pub block_type: String,
    pub elements: Vec<BlockElement>,
}

/// The value of a [`Block`].
pub struct BlockV {
    pub block_id: Seq<char>,
    pub block_type: Seq<char>,
    pub elements: Seq<BlockElementV>,
}

/// The outbound reply, constructed fresh for each qualifying message.
pub struct PostMessage {
    pub channel: String,
    pub text: String,
}

/// The value of a [`PostMessage`].
pub struct PostMessageV {
    pub channel: Seq<char>,
    pub text: Seq<char>,
}

/// The values of a sequence of strings, element by element.
pub open spec fn view_strings(s: Seq<String>) -> Seq<Seq<char>>
    decreases s,
{
    if s.len() == 0 {
        Seq::empty()
    } else {
        seq![s[0]@] + view_strings(s.drop_first())
    }
}

/// `view_strings` keeps the length and maps each element to its view.
pub broadcast proof fn lemma_view_strings(s: Seq<String>)
    ensures
        (#[trigger] view_strings(s)).len() == s.len(),
        forall|i: int| 0 <= i < s.len() ==> view_strings(s)[i] == s[i]@,
    decreases s,
{
    if s.len() != 0 {
        lemma_view_strings(s.drop_first());
        assert(view_strings(s) == seq![s[0]@] + view_strings(s.drop_first()));
        assert forall|i: int| 0 <= i < s.len() implies view_strings(s)[i] == s[i]@ by {
            if i > 0 {
                assert(view_strings(s)[i] == view_strings(s.drop_first())[i - 1]);
                assert(s.drop_first()[i - 1] == s[i]);
            }
        }
    }
}

/// The values of a sequence of reactions, element by element.
pub open spec fn view_reactions(s: Seq<Reaction>) -> Seq<ReactionV>
    decreases s,
{
    if s.len() == 0 {
        Seq::empty()
    } else {
        seq![s[0]@] + view_reactions(s.drop_first())
    }
}

/// `view_reactions` keeps the length and maps each element to its view.
pub broadcast proof fn lemma_view_reactions(s: Seq<Reaction>)
    ensures
        (#[trigger] view_reactions(s)).len() == s.len(),
        forall|i: int| 0 <= i < s.len() ==> view_reactions(s)[i] == s[i]@,
    decreases s,
{
    if s.len() != 0 {
        lemma_view_reactions(s.drop_first());
        assert(view_reactions(s) == seq![s[0]@] + view_reactions(s.drop_first()));
        assert forall|i: int| 0 <= i < s.len() implies view_reactions(s)[i] == s[i]@ by {
            if i > 0 {
                assert(view_reactions(s)[i] == view_reactions(s.drop_first())[i - 1]);
                assert(s.drop_first()[i - 1] == s[i]);
            }
        }
    }
}

/// The view of an optional string.
pub open spec fn view_opt_string(o: Option<String>) -> Option<Seq<char>> {
    match o {
        None => None,
        Some(s) => Some(s@),
    }
}

impl View for Reaction {
    type V = ReactionV;

    open spec fn view(&self) -> ReactionV {
        ReactionV { name: self.name@, count: self.count, users: view_strings(self.users@) }
    }
}

impl View for Edited {
    type V = EditedV;

    open spec fn view(&self) -> EditedV {
        EditedV { user: self.user@, ts: self.ts@ }
    }
}

impl View for Message {
    type V = MessageV;

    open spec fn view(&self) -> MessageV
        decreases self,
    {
        MessageV {
            ts: self.ts@,
            channel: view_opt_string(self.channel),
            channel_type: view_opt_string(self.channel_type),
            client_msg_id: view_opt_string(self.client_msg_id),
            deleted_ts: view_opt_string(self.deleted_ts),
            edited: match self.edited {
                None => None,
                Some(e) => Some(e@),
            },
            event_ts: view_opt_string(self.event_ts),
            hidden: self.hidden,
            is_starred: self.is_starred,
            message: match self.message {
                None => None,
                Some(b) => Some(Box::new((*b)@)),
            },
            pinned_to: match self.pinned_to {
                None => None,
                Some(v) => Some(view_strings(v@)),
            },
            previous_message: match self.previous_message {
                None => None,
                Some(b) => Some(Box::new((*b)@)),
            },
            reactions: match self.reactions {
                None => None,
                Some(v) => Some(view_reactions(v@)),
            },
            source_team: view_opt_string(self.source_team),
            subtype: view_opt_string(self.subtype),
            team: view_opt_string(self.team),
            text: view_opt_string(self.text),
            user: view_opt_string(self.user),
            user_team: view_opt_string(self.user_team),
        }
    }
}

impl View for InternalEvent {
    type V = InternalEventV;

    open spec fn view(&self) -> InternalEventV {
        match self {
            InternalEvent::Message(m) => InternalEventV::Message(m@),
        }
    }
}

impl View for EventCallback {
    type V = EventCallbackV;

    open spec fn view(&self) -> EventCallbackV {
        EventCallbackV {
            token: self.token@,
            team_id: self.team_id@,
            api_app_id: self.api_app_id@,
            event: self.event@,
            event_id: self.event_id@,
            event_time: self.event_time,
            authed_users: view_strings(self.authed_users@),
        }
    }
}

impl View for SlackEvent {
    type V = SlackEventV;

    open spec fn view(&self) -> SlackEventV {
        match self {
            SlackEvent::UrlVerification { token, challenge } => SlackEventV::UrlVerification {
                token: token@,
                challenge: challenge@,
            },
            SlackEvent::EventCallback(cb) => SlackEventV::EventCallback(cb@),
        }
    }
}

/// The values of a sequence of rich-text elements, element by element.
pub open spec fn view_elements(s: Seq<BlockElement>) -> Seq<BlockElementV>
    decreases s,
{
    if s.len() == 0 {
        Seq::empty()
    } else {
        seq![s[0]@] + view_elements(s.drop_first())
    }
}

impl View for BlockElement {
    type V = BlockElementV;

    open spec fn view(&self) -> BlockElementV
        decreases self,
    {
        match self {
            BlockElement::RichTextSection { elements } => BlockElementV::RichTextSection {
                elements: view_elements(elements@),
            },
            BlockElement::Text { text } => BlockElementV::Text { text: text@ },
        }
    }
}

impl View for Block {
    type V = BlockV;

    open spec fn view(&self) -> BlockV {
        BlockV {
            block_id: self.block_id@,
            block_type: self.block_type@,
            elements: view_elements(self.elements@),
        }
    }
}

impl View for PostMessage {
    type V = PostMessageV;

    open spec fn view(&self) -> PostMessageV {
        PostMessageV { channel: self.channel@, text: self.text@ }
    }
}

} // verus!
