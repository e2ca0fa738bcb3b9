//! Messages of a channel's log.

use crate::image::FileId;
use crate::ordered::Key;
use vstd::prelude::*;

verus! {

/// The id of a message: the id that the server gave it, or the id under which the
/// client holds it until the server has confirmed it.
#[derive(Debug, Clone, Copy, PartialEq, Eq)]
pub enum MessageId {
    Ack(u64),
    Unack(u64),
}

impl View for MessageId {
    type V = MessageId;

    open spec fn view(&self) -> MessageId {
        *self
    }
}

impl Key for MessageId {
    fn same_key(&self, other: &Self) -> (same: bool) {
        match (self, other) {
            (MessageId::Ack(a), MessageId::Ack(b)) => *a == *b,
            (MessageId::Unack(a), MessageId::Unack(b)) => *a == *b,
            _ => false,
        }
    }
}

impl MessageId {
    /// The id that the server gave, if it has confirmed the message.
    pub open spec fn confirmed(&self) -> Option<u64> {
        match self {
            MessageId::Ack(id) => Some(*id),
            MessageId::Unack(_) => None,
        }
    }

    /// Whether the server has confirmed the message.
    pub fn is_ack(&self) -> (acked: bool)
        ensures
            acked == (self is Ack),
    {
        match self {
            MessageId::Ack(_) => true,
            MessageId::Unack(_) => false,
        }
    }

    /// The id that the server gave, if it has confirmed the message.
    pub fn id(&self) -> (id: Option<u64>)
        ensures
            id == self.confirmed(),
    {
        match self {
            MessageId::Ack(id) => Some(*id),
            MessageId::Unack(_) => None,
        }
    }
}

/// A file sent with a message.
#[derive(Debug, Clone)]
pub struct Attachment {
    pub kind: String,
    pub name: String,
    pub id: FileId,
    pub size: u32,
}

/// A rich embed sent as a message.
#[derive(Debug, Clone)]
pub struct Embed {
    pub title: String,
    pub body: String,
}

/// What a message holds.
#[derive(Debug, Clone)]
pub enum Content {
    Text(String),
    Files(Vec<Attachment>),
    Embeds(Embed),
}

/// A name and picture shown in place of the sender's, as for messages that a
/// bridge or a webhook sent.
#[derive(Debug, Clone)]
pub struct Override {
    pub name: String,
    pub avatar_url: Option<FileId>,
    pub reason: Option<String>,
}

/// A message of a channel's log.
#[derive(Debug, Clone)]
pub struct Message {
    pub id: MessageId,
    /// Seconds since the Unix epoch.
    pub timestamp: i64,
    pub sender: u64,
    pub content: Content,
    pub overrides: Option<Override>,
    /// The text of an edit in progress.
    pub being_edited: Option<String>,
}

impl Message {
    /// The user as whose message this one is shown: the sender of a confirmed
    /// message, and the user at hand for one that is still waiting to be
    /// confirmed.
    pub fn shown_sender(&self, current_user_id: u64) -> (user_id: u64)
        ensures
            user_id == if self.id is Ack {
                self.sender
            } else {
                current_user_id
            },
    {
        if self.id.is_ack() {
            self.sender
        } else {
            current_user_id
        }
    }
}

} // verus!
