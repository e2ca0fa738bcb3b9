//! What the client knows of the guilds that the user is in.

use crate::channel::{Channel, ChannelAction, ChannelEvent};
use crate::guild::Guild;
use crate::ordered::{holds_key, lemma_position, position, same_but_value_at, OrderedCollection};
use vstd::prelude::*;

verus! {

/// The guilds of the user, in display order, and the user's own id once it is
/// known.
#[derive(Debug)]
pub struct Client {
    pub guilds: OrderedCollection<u64, Guild>,
    pub user_id: Option<u64>,
}

impl Client {
    /// Whether there is a guild `guild_id` with a channel `channel_id`.
    pub open spec fn holds_channel(&self, guild_id: u64, channel_id: u64) -> bool {
        &&& holds_key(self.guilds@, guild_id)
        &&& holds_key(self.guilds@[position(self.guilds@, guild_id)].1.channels@, channel_id)
    }

    /// The channel `channel_id` of the guild `guild_id`; meaningful where
    /// `holds_channel(guild_id, channel_id)`.
    pub open spec fn channel(&self, guild_id: u64, channel_id: u64) -> Channel {
        let guild = self.guilds@[position(self.guilds@, guild_id)].1;
        guild.channels@[position(guild.channels@, channel_id)].1
    }

    /// `after` is this client after the channel `channel_id` of the guild
    /// `guild_id` took `event`. Where there is no such guild nothing changes.
    pub open spec fn channel_handled(
        &self,
        guild_id: u64,
        channel_id: u64,
        event: ChannelEvent,
        after: &Client,
    ) -> bool {
        &&& after.user_id == self.user_id
        &&& if holds_key(self.guilds@, guild_id) {
            let p = position(self.guilds@, guild_id);
            &&& same_but_value_at(self.guilds@, after.guilds@, p)
            &&& self.guilds@[p].1.channel_handled(channel_id, event, &after.guilds@[p].1)
        } else {
            after.guilds@ == self.guilds@
        }
    }

    /// What is to be done after the channel `channel_id` of the guild `guild_id`
    /// took `event`: nothing, where there is no such channel.
    pub open spec fn channel_action(
        &self,
        guild_id: u64,
        channel_id: u64,
        event: ChannelEvent,
    ) -> ChannelAction {
        if holds_key(self.guilds@, guild_id) {
            self.guilds@[position(self.guilds@, guild_id)].1.channel_action(channel_id, event)
        } else {
            ChannelAction::Nothing
        }
    }

    /// A client that knows no guild and no user.
    pub fn new() -> (client: Client)
        ensures
            client.guilds@ == Seq::<(u64, Guild)>::empty(),
            client.user_id is None,
    {
        Client { guilds: OrderedCollection::new(), user_id: None }
    }

    /// The channel `channel_id` of the guild `guild_id`.
    pub fn get_channel(&self, guild_id: u64, channel_id: u64) -> (found: Option<&Channel>)
        ensures
            match found {
                Some(channel) => self.holds_channel(guild_id, channel_id) && *channel
                    == self.channel(guild_id, channel_id),
                None => !self.holds_channel(guild_id, channel_id),
            },
    {
        match self.guilds.get(&guild_id) {
            Some(guild) => guild.channels.get(&channel_id),
            None => None,
        }
    }

    /// Hands `event` to the channel `channel_id` of the guild `guild_id`, if there
    /// still is one, and says what is to be done.
    pub fn handle_channel_event(&mut self, guild_id: u64, channel_id: u64, event: ChannelEvent) -> (action:
        ChannelAction)
        ensures
            old(self).channel_handled(guild_id, channel_id, event, final(self)),
            action == old(self).channel_action(guild_id, channel_id, event),
    {
        match self.guilds.get_index_of(&guild_id) {
            Some(index) => {
                proof {
                    lemma_position(self.guilds@, guild_id);
                }
                let mut guild = Guild::default();
                self.guilds.swap_value(index, &mut guild);
                let action = guild.handle_channel_event(channel_id, event);
                self.guilds.swap_value(index, &mut guild);
                action
            },
            None => ChannelAction::Nothing,
        }
    }
}

} // verus!
