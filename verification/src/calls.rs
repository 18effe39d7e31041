use vstd::prelude::*;

verus! {

/// The command that changes whether one's microphone is muted.
#[derive(Clone, Copy, Debug, PartialEq, Eq, Structural)]
pub enum MuteCommand {
    MuteSelf,
    UnmuteSelf,
}

/// The command that changes whether the call's sound is silenced.
#[derive(Clone, Copy, Debug, PartialEq, Eq, Structural)]
pub enum SilenceCommand {
    SilenceCall,
    UnsilenceCall,
}

/// What the mute shortcut sends: nothing outside a call; otherwise unmute
/// when muted and mute when not. `self_muted` is `None` when no call is in
/// progress.
pub fn toggle_mute(self_muted: Option<bool>) -> (r: Option<MuteCommand>)
    ensures
        self_muted == Some(true) ==> r == Some(MuteCommand::UnmuteSelf),
        self_muted == Some(false) ==> r == Some(MuteCommand::MuteSelf),
        self_muted is None ==> r is None,
{
    match self_muted {
        None => None,
        Some(muted) => {
            if !muted {
                Some(MuteCommand::MuteSelf)
            } else {
                Some(MuteCommand::UnmuteSelf)
            }
        },
    }
}

/// What the deafen shortcut sends: nothing outside a call; otherwise
/// unsilence when silenced and silence when not. `call_silenced` is `None`
/// when no call is in progress.
pub fn toggle_deafen(call_silenced: Option<bool>) -> (r: Option<SilenceCommand>)
    ensures
        call_silenced == Some(true) ==> r == Some(SilenceCommand::UnsilenceCall),
        call_silenced == Some(false) ==> r == Some(SilenceCommand::SilenceCall),
        call_silenced is None ==> r is None,
{
    match call_silenced {
        None => None,
        Some(silenced) => {
            if !silenced {
                Some(SilenceCommand::SilenceCall)
            } else {
                Some(SilenceCommand::UnsilenceCall)
            }
        },
    }
}

/// The settings of a conversation that decide which controls show.
#[derive(Clone, Copy, Debug, PartialEq, Eq, Structural)]
pub enum ConversationKind {
    Direct,
    Group { members_can_add_participants: bool },
}

/// The "manage members" button shows in group chats, for the owner or when
/// members may add participants.
pub fn show_edit_members(kind: ConversationKind, is_owner: bool) -> (r: bool)
    ensures
        r == (match kind {
            ConversationKind::Group { members_can_add_participants } => is_owner
                || members_can_add_participants,
            ConversationKind::Direct => false,
        }),
{
    match kind {
        ConversationKind::Group { members_can_add_participants } => is_owner
            || members_can_add_participants,
        ConversationKind::Direct => false,
    }
}

/// The group settings button shows in group chats, for the owner.
pub fn show_group_settings(kind: ConversationKind, is_owner: bool) -> (r: bool)
    ensures
        r == (kind != ConversationKind::Direct && is_owner),
{
    match kind {
        ConversationKind::Group { .. } => is_owner,
        ConversationKind::Direct => false,
    }
}

/// The call button is disabled unless experimental features are on, and
/// while a call is being offered or in progress.
pub fn call_disabled(experimental_features: bool, call_pending: bool, call_in_progress: bool) -> (r:
    bool)
    ensures
        r == (!experimental_features || call_pending || call_in_progress),
{
    !experimental_features || call_pending || call_in_progress
}

/// Which side panels of a chat are open.
#[derive(Clone, Copy, Debug, PartialEq, Eq, Structural)]
pub struct ChatPanels {
    /// The members panel, for the chat with this id.
    pub manage_members: Option<u128>,
    pub group_settings: bool,
    /// The list of the group's users, for the chat with this id.
    pub group_users: Option<u128>,
    /// The menu of controls in the minimal view.
    pub show_more: bool,
}

/// At most one of the panels is open.
pub open spec fn at_most_one_panel(p: ChatPanels) -> bool {
    &&& p.manage_members is Some ==> !p.group_settings && p.group_users is None
    &&& p.group_settings ==> p.manage_members is None && p.group_users is None
}

impl ChatPanels {
    /// The "manage members" button: closes the panel when open; otherwise
    /// opens it for the chat (once the chat is ready) and closes the other
    /// panels. The menu of controls closes either way.
    pub fn toggle_manage_members(&mut self, chat_initialized: bool, chat_id: u128)
        ensures
            at_most_one_panel(*old(self)) ==> at_most_one_panel(*final(self)),
            !final(self).show_more,
            old(self).manage_members is Some ==> final(self).manage_members is None
                && final(self).group_settings == old(self).group_settings && final(self).group_users
                == old(self).group_users,
            old(self).manage_members is None && chat_initialized ==> final(self).manage_members
                == Some(chat_id) && !final(self).group_settings && final(self).group_users is None,
            old(self).manage_members is None && !chat_initialized ==> final(self).manage_members
                is None && final(self).group_settings == old(self).group_settings && final(self).group_users == old(self).group_users,
    {
        if self.manage_members.is_some() {
            self.manage_members = None;
        } else if chat_initialized {
            self.manage_members = Some(chat_id);
            self.group_users = None;
            self.group_settings = false;
        }
        self.show_more = false;
    }

    /// The group settings button: closes the panel when open; otherwise
    /// opens it (once the chat is ready) and closes the other panels.
    pub fn toggle_group_settings(&mut self, chat_initialized: bool)
        ensures
            at_most_one_panel(*old(self)) ==> at_most_one_panel(*final(self)),
            final(self).show_more == old(self).show_more,
            old(self).group_settings ==> !final(self).group_settings && final(self).manage_members
                == old(self).manage_members && final(self).group_users == old(self).group_users,
            !old(self).group_settings && chat_initialized ==> final(self).group_settings && final(self).manage_members is None && final(self).group_users is None,
            !old(self).group_settings && !chat_initialized ==> *final(self) == *old(self),
    {
        if self.group_settings {
            self.group_settings = false;
        } else if chat_initialized {
            self.group_settings = true;
            self.manage_members = None;
            self.group_users = None;
        }
    }
}

} // verus!
