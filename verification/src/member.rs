//! What is known of a user.

use crate::image::FileId;
use smol_str::SmolStr;
use std::time::Instant;
use vstd::prelude::*;

verus! {

/// `smol_str::SmolStr`, the string type of the outside crate `smol_str`. Nothing
/// of its inside is known here; the text that it holds is named by `smol_text`.
#[verifier::external_type_specification]
#[verifier::external_body]
pub struct ExSmolStr(smol_str::SmolStr);

/// `std::time::Instant`, a point in time on the machine's clock.
#[verifier::external_type_specification]
#[verifier::external_body]
pub struct ExInstant(std::time::Instant);

/// The text that a `SmolStr` holds.
pub uninterp spec fn smol_text(s: SmolStr) -> Seq<char>;

/// `SmolStr::default`: makes the string without any text.
#[verifier::external_body]
fn no_name() -> (name: SmolStr)
    ensures
        (smol_text(name) == Seq::<char>::empty()),
{
    SmolStr::default()
}

/// Whether and how a user is present.
#[derive(Debug, Clone, Copy, PartialEq, Eq)]
pub enum UserStatus {
    Online,
    Streaming,
    DoNotDisturb,
    Idle,
    Offline,
}

/// A user, as a guild shows one.
#[derive(Debug)]
pub struct Member {
    pub avatar_url: Option<FileId>,
    pub username: SmolStr,
    pub display_user: bool,
    /// The guild and channel in which the user was last seen typing, and when.
    pub typing_in_channel: Option<(u64, u64, Instant)>,
    pub status: UserStatus,
}

impl Default for Member {
    /// A user of whom nothing is known yet: shown, without name or picture,
    /// offline and not typing.
    fn default() -> (member: Self)
        ensures
            member.avatar_url is None,
            smol_text(member.username) == Seq::<char>::empty(),
            member.display_user,
            member.typing_in_channel is None,
            member.status == UserStatus::Offline,
    {
        Self {
            avatar_url: None,
            username: no_name(),
            display_user: true,
            typing_in_channel: None,
            status: UserStatus::Offline,
        }
    }
}

} // verus!
