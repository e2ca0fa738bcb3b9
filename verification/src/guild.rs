//! A guild: its channels and roles in display order, and the roles that its
//! members hold.

use crate::channel::{Channel, ChannelAction, ChannelEvent};
use crate::image::FileId;
use crate::ordered::{holds_key, lemma_position, position, same_but_value_at, OrderedCollection};
use crate::reorder::{reordered, update_order};
use ahash::AHashMap;
use vstd::prelude::*;

verus! {

/// `ahash::AHashMap`, the hash map of the outside crate `ahash`. Nothing of its
/// inside is known here; what a map holds is named by `held_role_ids`.
#[verifier::external_type_specification]
#[verifier::external_body]
#[verifier::reject_recursive_types(K)]
#[verifier::reject_recursive_types(V)]
#[verifier::reject_recursive_types(S)]
pub struct ExAHashMap<K, V, S>(ahash::AHashMap<K, V, S>);

/// `ahash::RandomState`, the hasher state that an `AHashMap` is built with.
#[verifier::external_type_specification]
#[verifier::external_body]
pub struct ExRandomState(ahash::RandomState);

/// What a map from member ids to role ids holds: for each member id that has an
/// entry, the role ids stored for it.
pub uninterp spec fn held_role_ids(members: AHashMap<u64, Vec<u64>>) -> Map<u64, Seq<u64>>;

/// `AHashMap::new`: makes an empty map.
#[verifier::external_body]
fn no_members() -> (made: AHashMap<u64, Vec<u64>>)
    ensures
        (held_role_ids(made) == Map::<u64, Seq<u64>>::empty()),
{
    AHashMap::new()
}

/// `AHashMap::get`: returns the value stored for the key, or `None` where the map
/// has no entry for it.
#[verifier::external_body]
fn role_ids_of(members: &AHashMap<u64, Vec<u64>>, user_id: u64) -> (found: Option<&Vec<u64>>)
    ensures
        match found {
            Some(ids) => held_role_ids(*members).contains_key(user_id) && ids@ == held_role_ids(
                *members,
            )[user_id],
            None => !held_role_ids(*members).contains_key(user_id),
        },
{
    members.get(&user_id)
}

/// `AHashMap::insert`: stores the value for the key, in place of the value that
/// the key had, if it had one. The other entries stay.
#[verifier::external_body]
fn store_role_ids(members: &mut AHashMap<u64, Vec<u64>>, user_id: u64, role_ids: Vec<u64>)
    ensures
        held_role_ids(*final(members)) == held_role_ids(*old(members)).insert(
            user_id,
            role_ids@,
        ),
{
    members.insert(user_id, role_ids);
}

/// What the user may do in a guild.
#[derive(Debug, Clone)]
pub struct GuildPerms {
    pub change_info: bool,
}

impl Default for GuildPerms {
    fn default() -> (perms: Self)
        ensures
            !perms.change_info,
    {
        GuildPerms { change_info: false }
    }
}

/// A role of a guild.
#[derive(Debug, Clone)]
pub struct Role {
    pub name: String,
    pub hoist: bool,
    pub pingable: bool,
}

/// A guild.
#[derive(Debug)]
pub struct Guild {
    pub name: String,
    pub picture: Option<FileId>,
    /// The channels in display order, by channel id.
    pub channels: OrderedCollection<u64, Channel>,
    /// The roles from the highest to the lowest, by role id.
    pub roles: OrderedCollection<u64, Role>,
    /// The ids of the roles that each member holds, by member id.
    pub members: AHashMap<u64, Vec<u64>>,
    pub homeserver: String,
    pub user_perms: GuildPerms,
    pub init_fetching: bool,
}

/// Whether `id` is among `ids`.
fn holds_id(ids: &Vec<u64>, id: u64) -> (held: bool)
    ensures
        held == ids@.contains(id),
{
    let mut index: usize = 0;
    while index < ids.len()
        invariant
            index <= ids@.len(),
            forall|j: int| 0 <= j < index ==> ids@[j] != id,
        decreases ids@.len() - index,
    {
        if ids[index] == id {
            return true;
        }
        index = index + 1;
    }
    false
}

/// `i` is the position of the first of `roles` whose id is among `held`.
pub open spec fn is_highest_role(roles: Seq<(u64, Role)>, held: Seq<u64>, i: int) -> bool {
    &&& 0 <= i < roles.len()
    &&& held.contains(roles[i].0)
    &&& forall|j: int| 0 <= j < i ==> !held.contains((#[trigger] roles[j]).0)
}

impl Default for Guild {
    fn default() -> (guild: Self)
        ensures
            guild.is_blank(),
    {
        Guild {
            name: String::new(),
            picture: None,
            channels: OrderedCollection::new(),
            roles: OrderedCollection::new(),
            members: no_members(),
            homeserver: String::new(),
            user_perms: GuildPerms::default(),
            init_fetching: false,
        }
    }
}

impl Guild {
    /// The guild has no name, picture, channel, role or member, and no flag set.
    pub open spec fn is_blank(&self) -> bool {
        &&& self.name@ == Seq::<char>::empty()
        &&& self.picture is None
        &&& self.channels@ == Seq::<(u64, Channel)>::empty()
        &&& self.roles@ == Seq::<(u64, Role)>::empty()
        &&& held_role_ids(self.members) == Map::<u64, Seq<u64>>::empty()
        &&& self.homeserver@ == Seq::<char>::empty()
        &&& !self.user_perms.change_info
        &&& !self.init_fetching
    }

    /// Whether `other` differs from this guild at most in the order of its
    /// channels and roles.
    pub open spec fn same_but_order(&self, other: &Guild) -> bool {
        &&& self.name == other.name
        &&& self.picture == other.picture
        &&& self.members == other.members
        &&& self.homeserver == other.homeserver
        &&& self.user_perms == other.user_perms
        &&& self.init_fetching == other.init_fetching
    }

    /// Whether any channel of the guild has unread messages.
    pub fn has_unread(&self) -> (unread: bool)
        ensures
            unread == exists|i: int|
                0 <= i < self.channels@.len() && (#[trigger] self.channels@[i]).1.has_unread,
    {
        let count: usize = self.channels.len();
        let mut index: usize = 0;
        while index < count
            invariant
                count == self.channels@.len(),
                index <= count,
                forall|j: int| 0 <= j < index ==> !(#[trigger] self.channels@[j]).1.has_unread,
            decreases count - index,
        {
            match self.channels.get_index(index) {
                Some((_, channel)) => {
                    if channel.has_unread {
                        return true;
                    }
                },
                None => {},
            }
            index = index + 1;
        }
        false
    }

    /// `after` is this guild after its channel `channel_id` took `event`. Where
    /// the guild has no such channel nothing changes.
    pub open spec fn channel_handled(
        &self,
        channel_id: u64,
        event: ChannelEvent,
        after: &Guild,
    ) -> bool {
        &&& after.same_but_order(self)
        &&& after.roles@ == self.roles@
        &&& if holds_key(self.channels@, channel_id) {
            let p = position(self.channels@, channel_id);
            &&& same_but_value_at(self.channels@, after.channels@, p)
            &&& self.channels@[p].1.handled(event, &after.channels@[p].1)
        } else {
            after.channels@ == self.channels@
        }
    }

    /// What is to be done after the channel `channel_id` took `event`: nothing,
    /// where the guild has no such channel.
    pub open spec fn channel_action(&self, channel_id: u64, event: ChannelEvent) -> ChannelAction {
        if holds_key(self.channels@, channel_id) {
            self.channels@[position(self.channels@, channel_id)].1.action_for(event)
        } else {
            ChannelAction::Nothing
        }
    }

    /// Hands `event` to the channel `channel_id`, if the guild still has it, and
    /// says what is to be done.
    pub fn handle_channel_event(&mut self, channel_id: u64, event: ChannelEvent) -> (action:
        ChannelAction)
        ensures
            old(self).channel_handled(channel_id, event, final(self)),
            action == old(self).channel_action(channel_id, event),
    {
        match self.channels.get_index_of(&channel_id) {
            Some(index) => {
                proof {
                    lemma_position(self.channels@, channel_id);
                }
                let mut channel = Channel::new(String::new(), false);
                self.channels.swap_value(index, &mut channel);
                let action = channel.handle(event);
                self.channels.swap_value(index, &mut channel);
                action
            },
            None => ChannelAction::Nothing,
        }
    }

    /// Moves the channel `channel_id` behind the channel `previous_id`, or else
    /// in front of the channel `next_id`.
    pub fn update_channel_order(&mut self, previous_id: u64, next_id: u64, channel_id: u64)
        ensures
            final(self).channels@ == reordered(
                old(self).channels@,
                channel_id,
                Some(previous_id),
                Some(next_id),
            ),
            final(self).roles@ == old(self).roles@,
            final(self).same_but_order(old(self)),
    {
        update_order(&mut self.channels, previous_id, next_id, channel_id)
    }

    /// Moves the role `role_id` behind the role `previous_id`, or else in front of
    /// the role `next_id`.
    pub fn update_role_order(&mut self, previous_id: u64, next_id: u64, role_id: u64)
        ensures
            final(self).roles@ == reordered(
                old(self).roles@,
                role_id,
                Some(previous_id),
                Some(next_id),
            ),
            final(self).channels@ == old(self).channels@,
            final(self).same_but_order(old(self)),
    {
        update_order(&mut self.roles, previous_id, next_id, role_id)
    }

    /// Stores the ids of the roles that the member `user_id` holds.
    pub fn set_member_roles(&mut self, user_id: u64, role_ids: Vec<u64>)
        ensures
            held_role_ids(final(self).members) == held_role_ids(old(self).members).insert(
                user_id,
                role_ids@,
            ),
            final(self).channels@ == old(self).channels@,
            final(self).roles@ == old(self).roles@,
            final(self).name == old(self).name,
            final(self).picture == old(self).picture,
            final(self).homeserver == old(self).homeserver,
            final(self).user_perms == old(self).user_perms,
            final(self).init_fetching == old(self).init_fetching,
    {
        store_role_ids(&mut self.members, user_id, role_ids)
    }

    /// The highest role that the member `user_id` holds: the first role of the
    /// guild whose id is among the member's role ids.
    pub fn highest_role_for_member(&self, user_id: u64) -> (found: Option<&Role>)
        ensures
            match found {
                Some(role) => held_role_ids(self.members).contains_key(user_id) && exists|i: int|
                    #[trigger] is_highest_role(
                        self.roles@,
                        held_role_ids(self.members)[user_id],
                        i,
                    ) && *role == self.roles@[i].1,
                None => held_role_ids(self.members).contains_key(user_id) ==> forall|i: int|
                    0 <= i < self.roles@.len() ==> !held_role_ids(self.members)[user_id].contains(
                        (#[trigger] self.roles@[i]).0,
                    ),
            },
    {
        match role_ids_of(&self.members, user_id) {
            Some(role_ids) => {
                let count: usize = self.roles.len();
                let mut index: usize = 0;
                while index < count
                    invariant
                        count == self.roles@.len(),
                        index <= count,
                        held_role_ids(self.members).contains_key(user_id),
                        role_ids@ == held_role_ids(self.members)[user_id],
                        forall|j: int|
                            0 <= j < index ==> !role_ids@.contains((#[trigger] self.roles@[j]).0),
                    decreases count - index,
                {
                    match self.roles.get_index(index) {
                        Some((id, role)) => {
                            if holds_id(role_ids, *id) {
                                assert(is_highest_role(
                                    self.roles@,
                                    held_role_ids(self.members)[user_id],
                                    index as int,
                                ) && *role == self.roles@[index as int].1);
                                return Some(role);
                            }
                        },
                        None => {},
                    }
                    index = index + 1;
                }
                None
            },
            None => None,
        }
    }
}

} // verus!
