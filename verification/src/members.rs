//! The members tab of a guild's settings.

use vstd::prelude::*;

verus! {

/// An event of the members tab.
#[derive(Debug, Clone)]
pub enum MembersMessage {
    GoBack,
    BanMember(u64),
    KickMember(u64),
}

/// What is to be done after the members tab took an event.
#[derive(Debug, Clone, Copy, PartialEq, Eq)]
pub enum MembersAction {
    /// Leave the settings screen.
    PopScreen,
    /// Ask the server to ban a user from a guild.
    BanUser { guild_id: u64, user_id: u64 },
    /// Ask the server to kick a user out of a guild.
    KickUser { guild_id: u64, user_id: u64 },
}

/// The state of the members tab.
#[derive(Debug)]
pub struct MembersTab {
    /// The last error, shown above the list; empty where there was none.
    pub error_message: String,
}

impl Default for MembersTab {
    fn default() -> (tab: Self)
        ensures
            tab.error_message@ == Seq::<char>::empty(),
    {
        MembersTab { error_message: String::new() }
    }
}

impl MembersTab {
    /// What `message` asks for in the guild `guild_id`.
    pub open spec fn action_for(message: MembersMessage, guild_id: u64) -> MembersAction {
        match message {
            MembersMessage::GoBack => MembersAction::PopScreen,
            MembersMessage::BanMember(user_id) => MembersAction::BanUser { guild_id, user_id },
            MembersMessage::KickMember(user_id) => MembersAction::KickUser { guild_id, user_id },
        }
    }

    /// Takes `message` and says what is to be done. The tab stays as it is.
    pub fn update(&mut self, message: MembersMessage, guild_id: u64) -> (action: MembersAction)
        ensures
            action == Self::action_for(message, guild_id),
            final(self).error_message == old(self).error_message,
    {
        match message {
            MembersMessage::GoBack => MembersAction::PopScreen,
            MembersMessage::BanMember(user_id) => MembersAction::BanUser { guild_id, user_id },
            MembersMessage::KickMember(user_id) => MembersAction::KickUser { guild_id, user_id },
        }
    }

    /// Takes the text of an error, to be shown above the list.
    pub fn on_error(&mut self, error: String)
        ensures
            final(self).error_message == error,
    {
        self.error_message = error;
    }
}

} // verus!
