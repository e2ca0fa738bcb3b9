//! The window in which the emotes of a pack are managed.

use vstd::prelude::*;

verus! {

/// An event of the emote window.
#[derive(Debug, Clone)]
pub enum Message {
    GoBack,
    NewEmoteNameChanged(String),
    UploadEmote,
    DeleteEmote(String),
    CopyToClipboard(String),
}

/// What is to be done after the emote window took an event.
#[derive(Debug, Clone)]
pub enum EmoteAction {
    Nothing,
    /// Let the user pick an image and add it to a pack under a name.
    UploadEmote { pack_id: u64, name: String },
    /// Delete the emote of a name from a pack.
    DeleteEmote { pack_id: u64, name: String },
    /// Put a text on the clipboard.
    CopyToClipboard(String),
}

/// The state of the emote window.
#[derive(Debug)]
pub struct ManageEmotesModal {
    /// The name typed in for the next emote.
    pub new_emote_name: String,
    pub pack_id: u64,
}

impl ManageEmotesModal {
    /// `action` is what is to be done after this window took `message`.
    pub open spec fn action_for(&self, message: Message, action: EmoteAction) -> bool {
        match message {
            Message::GoBack => action is Nothing,
            Message::NewEmoteNameChanged(_) => action is Nothing,
            Message::UploadEmote => {
                &&& action is UploadEmote
                &&& action->UploadEmote_pack_id == self.pack_id
                &&& action->UploadEmote_name@ == self.new_emote_name@
            },
            Message::DeleteEmote(name) => {
                &&& action is DeleteEmote
                &&& action->DeleteEmote_pack_id == self.pack_id
                &&& action->DeleteEmote_name == name
            },
            Message::CopyToClipboard(value) => action == EmoteAction::CopyToClipboard(value),
        }
    }

    /// The name typed in after this window took `message`: a change of the name
    /// sets it, an upload uses it up.
    pub open spec fn name_after(&self, message: Message) -> Seq<char> {
        match message {
            Message::NewEmoteNameChanged(name) => name@,
            Message::UploadEmote => Seq::<char>::empty(),
            _ => self.new_emote_name@,
        }
    }

    /// A window for the pack `pack_id`.
    pub fn new(pack_id: u64) -> (modal: Self)
        ensures
            modal.pack_id == pack_id,
            modal.new_emote_name@ == Seq::<char>::empty(),
    {
        ManageEmotesModal { new_emote_name: String::new(), pack_id }
    }

    /// Takes `message`, and says what is to be done and whether the window is to
    /// be closed.
    pub fn update(&mut self, message: Message) -> (outcome: (EmoteAction, bool))
        ensures
            old(self).action_for(message, outcome.0),
            outcome.1 == (message is GoBack),
            final(self).new_emote_name@ == old(self).name_after(message),
            final(self).pack_id == old(self).pack_id,
    {
        match message {
            Message::GoBack => (EmoteAction::Nothing, true),
            Message::NewEmoteNameChanged(name) => {
                self.new_emote_name = name;
                (EmoteAction::Nothing, false)
            },
            Message::UploadEmote => {
                let mut name = String::new();
                std::mem::swap(&mut name, &mut self.new_emote_name);
                (EmoteAction::UploadEmote { pack_id: self.pack_id, name }, false)
            },
            Message::DeleteEmote(name) => (
                EmoteAction::DeleteEmote { pack_id: self.pack_id, name },
                false,
            ),
            Message::CopyToClipboard(value) => (EmoteAction::CopyToClipboard(value), false),
        }
    }
}

} // verus!
