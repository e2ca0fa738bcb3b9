//! The main screen: which guild and channel are on show, the message that is
//! being written, and what each event of the screen leads to.

use crate::cache::ThumbnailCache;
use crate::channel::{ChannelAction, ChannelEvent, ScrollDirection};
use crate::client::Client;
use crate::image::FileId;
use crate::ordered::holds_key;
use vstd::prelude::*;

verus! {

/// An event of the main screen.
#[derive(Debug, Clone)]
pub enum Message {
    /// The user wants to send the message that is being written.
    SendMessageComposer { guild_id: u64, channel_id: u64 },
    /// The user wants to send files.
    SendFile { guild_id: u64, channel_id: u64 },
    /// The user changed the message that is being written.
    MessageChanged(String),
    /// The user asked for the newest messages.
    ScrollToBottom,
    /// The user wants to open a piece of content.
    OpenContent { content_url: FileId, is_thumbnail: bool },
    /// The user selected another guild.
    GuildChanged(u64),
    /// The user selected another channel.
    ChannelChanged(u64),
    /// The user scrolled the message history.
    MessageHistoryScrolled { direction: ScrollDirection },
    /// The user selected an entry of the menu.
    SelectedMenuOption(String),
    /// The user selected a member.
    SelectedMember(u64),
}

/// What is to be done after the main screen took an event.
#[derive(Debug, Clone)]
pub enum Action {
    Nothing,
    /// Ask for the messages of a channel before the given one.
    FetchHistory { guild_id: u64, channel_id: u64, before_message: u64 },
    /// Scroll the message history to its bottom.
    FollowBottom,
    /// Show the logout screen.
    PushLogout,
    /// Show the screen on which rooms are found and joined.
    PushRoomDiscovery,
    /// Tell the server that the user is typing.
    NotifyTyping { guild_id: u64, channel_id: u64 },
    /// Open a piece of content, and load it as a thumbnail too where
    /// `load_thumbnail` says so.
    OpenContent { content_url: FileId, load_thumbnail: bool },
    /// Scroll the message history to its bottom and send a text message.
    SendMessage { content: String, sender: u64, guild_id: u64, channel_id: u64 },
    /// Let the user pick files and send them.
    SendFiles { sender: u64, guild_id: u64, channel_id: u64 },
}

/// The menu entry that leads to the logout screen.
pub open spec fn logout_option() -> Seq<char> {
    "Logout"@
}

/// The menu entry that leads to the screen on which rooms are found and joined.
pub open spec fn join_room_option() -> Seq<char> {
    "Join Room"@
}

/// The state of the main screen.
#[derive(Debug)]
pub struct MainScreen {
    pub current_guild_id: Option<u64>,
    pub current_channel_id: Option<u64>,
    /// The message that the user is writing.
    pub message: String,
}

impl Default for MainScreen {
    fn default() -> (screen: Self)
        ensures
            screen.current_guild_id is None,
            screen.current_channel_id is None,
            screen.message@ == Seq::<char>::empty(),
    {
        MainScreen { current_guild_id: None, current_channel_id: None, message: String::new() }
    }
}

impl MainScreen {
    /// The guild and the channel on show, where both are selected.
    pub open spec fn current(&self) -> Option<(u64, u64)> {
        match (self.current_guild_id, self.current_channel_id) {
            (Some(guild_id), Some(channel_id)) => Some((guild_id, channel_id)),
            _ => None,
        }
    }

    /// The event that `msg` means for a channel, and the guild and channel that it
    /// goes to, if it goes to one.
    pub open spec fn channel_event(&self, msg: Message) -> Option<(u64, u64, ChannelEvent)> {
        match msg {
            Message::MessageHistoryScrolled { direction } => match self.current() {
                Some((guild_id, channel_id)) => Some(
                    (guild_id, channel_id, ChannelEvent::Scrolled(direction)),
                ),
                None => None,
            },
            Message::ScrollToBottom => match self.current() {
                Some((guild_id, channel_id)) => Some(
                    (guild_id, channel_id, ChannelEvent::JumpedToBottom),
                ),
                None => None,
            },
            Message::SendMessageComposer { guild_id, channel_id } => if self.message@.len() > 0 {
                Some((guild_id, channel_id, ChannelEvent::JumpedToBottom))
            } else {
                None
            },
            Message::ChannelChanged(channel_id) => match self.current_guild_id {
                Some(guild_id) => Some((guild_id, channel_id, ChannelEvent::Selected)),
                None => None,
            },
            _ => None,
        }
    }

    /// `after` is this screen after it took `msg`.
    pub open spec fn updated(&self, msg: Message, after: &MainScreen) -> bool {
        &&& after.current_guild_id == match msg {
            Message::GuildChanged(guild_id) => Some(guild_id),
            _ => self.current_guild_id,
        }
        &&& after.current_channel_id == match msg {
            Message::ChannelChanged(channel_id) => Some(channel_id),
            _ => self.current_channel_id,
        }
        &&& after.message@ == match msg {
            Message::MessageChanged(text) => text@,
            Message::SendMessageComposer { .. } => Seq::<char>::empty(),
            _ => self.message@,
        }
    }

    /// What is to be done after this screen took `msg`.
    pub open spec fn action_for(
        &self,
        msg: Message,
        client: &Client,
        thumbnail_cache: &ThumbnailCache,
        action: Action,
    ) -> bool {
        match msg {
            Message::MessageHistoryScrolled { direction } => match self.current() {
                Some((guild_id, channel_id)) => match client.channel_action(
                    guild_id,
                    channel_id,
                    ChannelEvent::Scrolled(direction),
                ) {
                    ChannelAction::Fetch(request) => action == (Action::FetchHistory {
                        guild_id,
                        channel_id,
                        before_message: request.before_message,
                    }),
                    _ => action is Nothing,
                },
                None => action is Nothing,
            },
            Message::SelectedMember(_) => action is Nothing,
            Message::SelectedMenuOption(option) => if option@ == logout_option() {
                action is PushLogout
            } else {
                action is PushRoomDiscovery
            },
            Message::MessageChanged(_) => match self.current() {
                Some((guild_id, channel_id)) => action == (Action::NotifyTyping {
                    guild_id,
                    channel_id,
                }),
                None => action is Nothing,
            },
            Message::ScrollToBottom => if self.current() is Some {
                action is FollowBottom
            } else {
                action is Nothing
            },
            Message::OpenContent { content_url, is_thumbnail } => {
                &&& action is OpenContent
                &&& action->content_url == content_url
                &&& action->load_thumbnail == (is_thumbnail && !holds_key(
                    thumbnail_cache@,
                    content_url@,
                ))
            },
            Message::SendMessageComposer { guild_id, channel_id } => if self.message@.len() > 0 {
                &&& action is SendMessage
                &&& action->content@ == self.message@
                &&& Some(action->SendMessage_sender) == client.user_id
                &&& action->SendMessage_guild_id == guild_id
                &&& action->SendMessage_channel_id == channel_id
            } else {
                action is Nothing
            },
            Message::SendFile { guild_id, channel_id } => {
                &&& action is SendFiles
                &&& Some(action->SendFiles_sender) == client.user_id
                &&& action->SendFiles_guild_id == guild_id
                &&& action->SendFiles_channel_id == channel_id
            },
            Message::GuildChanged(_) => action is Nothing,
            Message::ChannelChanged(channel_id) => match self.current_guild_id {
                Some(guild_id) => if client.channel_action(
                    guild_id,
                    channel_id,
                    ChannelEvent::Selected,
                ) is FollowBottom {
                    action is FollowBottom
                } else {
                    action is Nothing
                },
                None => action is Nothing,
            },
        }
    }

    /// Whether `msg` can be taken: sending needs the user's id, and the menu has
    /// the two entries `logout_option` and `join_room_option`.
    pub open spec fn accepts(&self, msg: Message, client: &Client) -> bool {
        match msg {
            Message::SendMessageComposer { .. } => self.message@.len() > 0
                ==> client.user_id is Some,
            Message::SendFile { .. } => client.user_id is Some,
            Message::SelectedMenuOption(option) => option@ == logout_option() || option@
                == join_room_option(),
            _ => true,
        }
    }

    /// Takes `msg`, hands what it means for a channel to that channel, and says
    /// what is to be done.
    pub fn update(
        &mut self,
        msg: Message,
        client: &mut Client,
        thumbnail_cache: &ThumbnailCache,
    ) -> (action: Action)
        requires
            old(self).accepts(msg, old(client)),
        ensures
            old(self).updated(msg, final(self)),
            match old(self).channel_event(msg) {
                Some((guild_id, channel_id, event)) => old(client).channel_handled(
                    guild_id,
                    channel_id,
                    event,
                    final(client),
                ),
                None => final(client).guilds@ == old(client).guilds@ && final(client).user_id
                    == old(client).user_id,
            },
            old(self).action_for(msg, old(client), thumbnail_cache, action),
    {
        match msg {
            Message::MessageHistoryScrolled { direction } => {
                match (self.current_guild_id, self.current_channel_id) {
                    (Some(guild_id), Some(channel_id)) => {
                        match client.handle_channel_event(
                            guild_id,
                            channel_id,
                            ChannelEvent::Scrolled(direction),
                        ) {
                            ChannelAction::Fetch(request) => Action::FetchHistory {
                                guild_id,
                                channel_id,
                                before_message: request.before_message,
                            },
                            _ => Action::Nothing,
                        }
                    },
                    _ => Action::Nothing,
                }
            },
            Message::SelectedMember(_) => Action::Nothing,
            Message::SelectedMenuOption(option) => {
                let logout = "Logout".to_owned();
                if option == logout {
                    Action::PushLogout
                } else {
                    Action::PushRoomDiscovery
                }
            },
            Message::MessageChanged(new_msg) => {
                self.message = new_msg;
                match (self.current_guild_id, self.current_channel_id) {
                    (Some(guild_id), Some(channel_id)) => Action::NotifyTyping {
                        guild_id,
                        channel_id,
                    },
                    _ => Action::Nothing,
                }
            },
            Message::ScrollToBottom => {
                match (self.current_guild_id, self.current_channel_id) {
                    (Some(guild_id), Some(channel_id)) => {
                        client.handle_channel_event(
                            guild_id,
                            channel_id,
                            ChannelEvent::JumpedToBottom,
                        );
                        Action::FollowBottom
                    },
                    _ => Action::Nothing,
                }
            },
            Message::OpenContent { content_url, is_thumbnail } => {
                let thumbnail_exists = thumbnail_cache.has_thumbnail(&content_url);
                Action::OpenContent { content_url, load_thumbnail: is_thumbnail && !thumbnail_exists }
            },
            Message::SendMessageComposer { guild_id, channel_id } => {
                if !self.message.as_str().is_empty() {
                    let mut content = String::new();
                    std::mem::swap(&mut content, &mut self.message);
                    match client.user_id {
                        Some(sender) => {
                            client.handle_channel_event(
                                guild_id,
                                channel_id,
                                ChannelEvent::JumpedToBottom,
                            );
                            Action::SendMessage { content, sender, guild_id, channel_id }
                        },
                        None => Action::Nothing,
                    }
                } else {
                    assert(self.message@ =~= Seq::<char>::empty());
                    Action::Nothing
                }
            },
            Message::SendFile { guild_id, channel_id } => {
                match client.user_id {
                    Some(sender) => Action::SendFiles { sender, guild_id, channel_id },
                    None => Action::Nothing,
                }
            },
            Message::GuildChanged(guild_id) => {
                self.current_guild_id = Some(guild_id);
                Action::Nothing
            },
            Message::ChannelChanged(channel_id) => {
                let action = match self.current_guild_id {
                    Some(guild_id) => {
                        match client.handle_channel_event(
                            guild_id,
                            channel_id,
                            ChannelEvent::Selected,
                        ) {
                            ChannelAction::FollowBottom => Action::FollowBottom,
                            _ => Action::Nothing,
                        }
                    },
                    None => Action::Nothing,
                };
                self.current_channel_id = Some(channel_id);
                action
            },
        }
    }
}

} // verus!
