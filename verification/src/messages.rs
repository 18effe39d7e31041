use vstd::prelude::*;
use crate::text::{
    any_line_has_content, has_content, is_blank, is_blank_str, lines_of, lines_str, split_on,
    replace_all, replace_str, split_str, trim, trim_str,
};

verus! {

/// A reaction on a message: the emoji and the DIDs of the users who reacted.
pub struct Reaction {
    pub emoji: String,
    pub users: Vec<String>,
}

/// Whether a reaction is added or taken back.
#[derive(Clone, Copy, Debug, PartialEq, Eq, Structural)]
pub enum ReactionState {
    Add,
    Remove,
}

/// Whether a message is pinned or unpinned.
#[derive(Clone, Copy, Debug, PartialEq, Eq, Structural)]
pub enum PinState {
    Pin,
    Unpin,
}

/// The users of a reaction, by DID.
pub open spec fn users_of(r: Reaction) -> Seq<Seq<char>> {
    r.users@.map_values(|u: String| u@)
}

/// `user` reacted with the reaction `r`.
pub open spec fn reacted(r: Reaction, user: Seq<char>) -> bool {
    users_of(r).contains(user)
}

/// The index of the first reaction with `emoji`, if any.
pub open spec fn first_with_emoji(rs: Seq<Reaction>, emoji: Seq<char>) -> Option<int> {
    if exists|i: int| 0 <= i < rs.len() && (#[trigger] rs[i]).emoji@ == emoji {
        let i = choose|i: int|
            0 <= i < rs.len() && (#[trigger] rs[i]).emoji@ == emoji && forall|j: int|
                0 <= j < i ==> (#[trigger] rs[j]).emoji@ != emoji;
        Some(i)
    } else {
        None
    }
}

fn contains_string(v: &Vec<String>, x: &String) -> (r: bool)
    ensures
        r == v@.map_values(|u: String| u@).contains(x@),
{
    let ghost views = v@.map_values(|u: String| u@);
    let mut i: usize = 0;
    while i < v.len()
        invariant
            views == v@.map_values(|u: String| u@),
            i <= v@.len(),
            forall|j: int| 0 <= j < i ==> views[j] != x@,
        decreases v@.len() - i,
    {
        if v[i].eq(x) {
            assert(views[i as int] == x@);
            return true;
        }
        i = i + 1;
    }
    false
}

/// What reacting to a message with `emoji` does: if the first reaction with
/// that emoji already holds `user`, the reaction is taken back, otherwise it
/// is added.
pub fn reaction_state(reactions: &Vec<Reaction>, user: &String, emoji: &String) -> (r:
    ReactionState)
    ensures
        r == (match first_with_emoji(reactions@, emoji@) {
            Some(i) => if reacted(reactions@[i], user@) {
                ReactionState::Remove
            } else {
                ReactionState::Add
            },
            None => ReactionState::Add,
        }),
{
    let mut i: usize = 0;
    while i < reactions.len()
        invariant
            i <= reactions@.len(),
            forall|j: int| 0 <= j < i ==> (#[trigger] reactions@[j]).emoji@ != emoji@,
        decreases reactions@.len() - i,
    {
        if reactions[i].emoji.eq(emoji) {
            let ghost rs = reactions@;
            proof {
                let k = choose|k: int|
                    0 <= k < rs.len() && (#[trigger] rs[k]).emoji@ == emoji@ && forall|j: int|
                        0 <= j < k ==> (#[trigger] rs[j]).emoji@ != emoji@;
                assert(0 <= k < rs.len() && rs[k].emoji@ == emoji@ && forall|j: int|
                    0 <= j < k ==> (#[trigger] rs[j]).emoji@ != emoji@) by {
                    assert(rs[i as int].emoji@ == emoji@);
                }
                if k < i {
                } else if k > i {
                    assert(rs[i as int].emoji@ != emoji@);
                }
                assert(k == i);
            }
            if contains_string(&reactions[i].users, user) {
                return ReactionState::Remove;
            } else {
                return ReactionState::Add;
            }
        }
        i = i + 1;
    }
    ReactionState::Add
}

/// The variant used by the compose view: the reaction is taken back when some
/// reaction with `emoji` holds `user`.
pub fn reaction_state_any(reactions: &Vec<Reaction>, user: &String, emoji: &String) -> (r:
    ReactionState)
    ensures
        r == (if exists|i: int|
            0 <= i < reactions@.len() && (#[trigger] reactions@[i]).emoji@ == emoji@ && reacted(
                reactions@[i],
                user@,
            ) {
            ReactionState::Remove
        } else {
            ReactionState::Add
        }),
{
    let mut i: usize = 0;
    while i < reactions.len()
        invariant
            i <= reactions@.len(),
            forall|j: int|
                0 <= j < i ==> !((#[trigger] reactions@[j]).emoji@ == emoji@ && reacted(
                    reactions@[j],
                    user@,
                )),
        decreases reactions@.len() - i,
    {
        if reactions[i].emoji.eq(emoji) && contains_string(&reactions[i].users, user) {
            return ReactionState::Remove;
        }
        i = i + 1;
    }
    ReactionState::Add
}

/// No two reactions of a message share an emoji.
pub open spec fn emojis_unique(rs: Seq<Reaction>) -> bool {
    forall|i: int, j: int|
        0 <= i < rs.len() && 0 <= j < rs.len() && i != j ==> (#[trigger] rs[i]).emoji@ != (
        #[trigger] rs[j]).emoji@
}

/// When no two reactions share an emoji, the two ways of deciding agree.
pub proof fn lemma_reaction_rules_agree(rs: Seq<Reaction>, user: Seq<char>, emoji: Seq<char>)
    requires
        emojis_unique(rs),
    ensures
        (match first_with_emoji(rs, emoji) {
            Some(i) => reacted(rs[i], user),
            None => false,
        }) == (exists|i: int|
            0 <= i < rs.len() && (#[trigger] rs[i]).emoji@ == emoji && reacted(rs[i], user)),
{
    if exists|i: int| 0 <= i < rs.len() && (#[trigger] rs[i]).emoji@ == emoji {
        let w = choose|i: int| 0 <= i < rs.len() && (#[trigger] rs[i]).emoji@ == emoji;
        assert(0 <= w < rs.len() && rs[w].emoji@ == emoji && forall|j: int|
            0 <= j < w ==> (#[trigger] rs[j]).emoji@ != emoji);
        let k = choose|k: int|
            0 <= k < rs.len() && (#[trigger] rs[k]).emoji@ == emoji && forall|j: int|
                0 <= j < k ==> (#[trigger] rs[j]).emoji@ != emoji;
        assert forall|i: int|
            0 <= i < rs.len() && (#[trigger] rs[i]).emoji@ == emoji implies i == k by {
            if i != k {
                assert(rs[i].emoji@ != rs[k].emoji@);
            }
        }
    }
}

/// Pinning a pinned message unpins it; otherwise it is pinned.
pub fn pin_state(pinned: bool) -> (r: PinState)
    ensures
        pinned ==> r == PinState::Unpin,
        !pinned ==> r == PinState::Pin,
{
    if pinned {
        PinState::Unpin
    } else {
        PinState::Pin
    }
}

/// The lines that the chat input holds for a text (`text.lines()`).
pub fn chat_input_lines(text: &str) -> (r: Vec<String>)
    ensures
        r@.map_values(|l: String| l@) == lines_of(text@),
{
    let r = lines_str(text);
    assert(r@.map_values(|l: String| l@) =~= lines_of(text@));
    r
}

/// A message can be sent when it has a line with a character that is not
/// whitespace.
pub fn message_is_sendable(lines: &Vec<String>) -> (r: bool)
    ensures
        r == (lines@.len() > 0 && has_content(lines@.map_values(|l: String| l@))),
{
    !lines.is_empty() && any_line_has_content(lines)
}

fn same_lines(a: &Vec<String>, b: &Vec<String>) -> (r: bool)
    ensures
        r == (a@.map_values(|l: String| l@) == b@.map_values(|l: String| l@)),
{
    let ghost av = a@.map_values(|l: String| l@);
    let ghost bv = b@.map_values(|l: String| l@);
    if a.len() != b.len() {
        assert(av.len() != bv.len());
        return false;
    }
    let mut i: usize = 0;
    while i < a.len()
        invariant
            av == a@.map_values(|l: String| l@),
            bv == b@.map_values(|l: String| l@),
            a@.len() == b@.len(),
            i <= a@.len(),
            forall|j: int| 0 <= j < i ==> av[j] == bv[j],
        decreases a@.len() - i,
    {
        if !a[i].eq(&b[i]) {
            assert(av[i as int] != bv[i as int]);
            return false;
        }
        i = i + 1;
    }
    assert(av =~= bv);
    true
}

/// What an edit of a message sends: the edited text cut at line feeds, unless
/// it is the same as the message or has no character that is not whitespace.
pub fn edited_message(current: &Vec<String>, update: &str) -> (r: Option<Vec<String>>)
    ensures
        match r {
            Some(msg) => msg@.map_values(|l: String| l@) == split_on(update@, '\n')
                && split_on(update@, '\n') != current@.map_values(|l: String| l@) && has_content(
                split_on(update@, '\n'),
            ),
            None => split_on(update@, '\n') == current@.map_values(|l: String| l@) || !has_content(
                split_on(update@, '\n'),
            ),
        },
{
    let msg = split_str(update, '\n');
    assert(msg@.map_values(|l: String| l@) =~= split_on(update@, '\n'));
    if same_lines(current, &msg) || !any_line_has_content(&msg) {
        None
    } else {
        Some(msg)
    }
}

/// The part of a replied-to message shown with a reply: its first line.
pub fn reply_preview(replied: Option<Vec<String>>) -> (r: Option<String>)
    ensures
        match replied {
            Some(lines) => if lines@.len() > 0 {
                r == Some(lines@[0])
            } else {
                r is None
            },
            None => r is None,
        },
{
    match replied {
        Some(lines) => {
            if lines.len() > 0 {
                Some(lines[0].clone())
            } else {
                None
            }
        },
        None => None,
    }
}

/// Where the message list is scrolled to when a chat is opened.
#[derive(Clone, Copy, Debug, PartialEq, Eq, Structural)]
pub enum ScrollTo {
    MostRecent,
    ScrollUp { view_top: u128 },
    ScrollDown { view_bottom: u128 },
}

/// How the message list starts.
#[derive(Clone, Copy, Debug, PartialEq, Eq, Structural)]
pub enum InitialScroll {
    /// Scroll so that this message ends the view.
    ToEnd(u128),
    /// Scroll so that this message starts the view.
    ToTop(u128),
    /// Scroll so that this message ends the view, from below.
    ToBottom(u128),
    /// The chat has no message: it is initialized without scrolling.
    EmptyChat,
}

/// Decides how a chat's message list starts, given how it was left, its
/// number of unread messages and the ids of its messages; also whether its
/// unread count is cleared. With unread messages the first unread one is put
/// at the top of the view.
pub fn initial_scroll(scroll_to: ScrollTo, unreads: usize, message_ids: &Vec<u128>) -> (r: (
    InitialScroll,
    bool,
))
    requires
        unreads < usize::MAX,
    ensures
        r.1 == (scroll_to == ScrollTo::MostRecent && unreads > 0),
        match scroll_to {
            ScrollTo::MostRecent => if message_ids@.len() == 0 {
                r.0 == InitialScroll::EmptyChat
            } else {
                r.0 == InitialScroll::ToEnd(
                    message_ids@[if message_ids@.len() > unreads + 1 {
                        message_ids@.len() - (unreads + 1)
                    } else {
                        0
                    }],
                )
            },
            ScrollTo::ScrollUp { view_top } => r.0 == InitialScroll::ToTop(view_top),
            ScrollTo::ScrollDown { view_bottom } => r.0 == InitialScroll::ToBottom(view_bottom),
        },
{
    match scroll_to {
        ScrollTo::MostRecent => {
            let clear = unreads > 0;
            let idx = message_ids.len().saturating_sub(unreads + 1);
            if idx < message_ids.len() {
                (InitialScroll::ToEnd(message_ids[idx]), clear)
            } else {
                (InitialScroll::EmptyChat, clear)
            }
        },
        ScrollTo::ScrollUp { view_top } => (InitialScroll::ToTop(view_top), false),
        ScrollTo::ScrollDown { view_bottom } => (InitialScroll::ToBottom(view_bottom), false),
    }
}

/// The line shown under a chat in the chat picker.
pub enum ChatSubtext {
    /// The first line of the last message that is not blank, trimmed (shown
    /// after markdown formatting).
    Text(String),
    /// The text for a new chat.
    NewChat,
    /// The name of the single attachment.
    File(String),
    /// "sent by" the named user, for several attachments.
    SentBy(String),
}

/// Decides the subtext of a chat from its last message: the lines, the names
/// of the attachments, and the username of the message's sender when the
/// sender is a participant.
pub fn chat_subtext(lines: &Vec<String>, attachments: &Vec<String>, sender: Option<String>) -> (r:
    ChatSubtext)
    ensures
        ({
            let ls = lines@.map_values(|l: String| l@);
            if exists|i: int| 0 <= i < ls.len() && !is_blank(#[trigger] ls[i]) {
                exists|i: int|
                    0 <= i < ls.len() && !is_blank(#[trigger] ls[i]) && (forall|j: int|
                        0 <= j < i ==> is_blank(#[trigger] ls[j])) && (r matches ChatSubtext::Text(
                        t,
                    ) && t@ == trim(ls[i]))
            } else if attachments@.len() == 0 {
                r is NewChat
            } else if attachments@.len() == 1 {
                r matches ChatSubtext::File(n) && n == attachments@[0]
            } else {
                match sender {
                    Some(name) => r matches ChatSubtext::SentBy(n) && n == name,
                    None => r is NewChat,
                }
            }
        }),
{
    let ghost ls = lines@.map_values(|l: String| l@);
    let mut i: usize = 0;
    while i < lines.len()
        invariant
            ls == lines@.map_values(|l: String| l@),
            i <= lines@.len(),
            forall|j: int| 0 <= j < i ==> is_blank(#[trigger] ls[j]),
        decreases lines@.len() - i,
    {
        if !is_blank_str(lines[i].as_str()) {
            let t = trim_str(lines[i].as_str());
            assert(!is_blank(ls[i as int]));
            return ChatSubtext::Text(t);
        }
        i = i + 1;
    }
    if attachments.len() == 0 {
        ChatSubtext::NewChat
    } else if attachments.len() == 1 {
        ChatSubtext::File(attachments[0].clone())
    } else {
        match sender {
            Some(name) => ChatSubtext::SentBy(name),
            None => ChatSubtext::NewChat,
        }
    }
}

/// Presence of a user as shown on their picture.
#[derive(Clone, Copy, Debug, PartialEq, Eq, Structural)]
pub enum Status {
    Online,
    Offline,
    Idle,
    DoNotDisturb,
}

/// The status shown next to a message group: one's own messages never show
/// one as offline.
pub fn sender_status(status: Status, remote: bool) -> (r: Status)
    ensures
        r == (if !remote && status == Status::Offline {
            Status::Online
        } else {
            status
        }),
{
    if !remote && status == Status::Offline {
        Status::Online
    } else {
        status
    }
}

/// How a reaction is shown: how many users reacted, and whether the local
/// user is one of them.
pub fn reaction_summary(reaction: &Reaction, me: &String) -> (r: (usize, bool))
    ensures
        r.0 == reaction.users@.len(),
        r.1 == reacted(*reaction, me@),
{
    (reaction.users.len(), contains_string(&reaction.users, me))
}


/// The platform a user's identity reports.
#[derive(Clone, Copy, Debug, PartialEq, Eq, Structural)]
pub enum IdentityPlatform {
    Desktop,
    Mobile,
    Web,
    Unknown,
}

/// The platform badge drawn on a user's picture.
#[derive(Clone, Copy, Debug, PartialEq, Eq, Structural)]
pub enum Platform {
    Desktop,
    Mobile,
    Headless,
}

/// The badge for an identity's platform: desktop and mobile as they are,
/// anything else as headless.
pub fn platform_badge(p: IdentityPlatform) -> (r: Platform)
    ensures
        r == (match p {
            IdentityPlatform::Desktop => Platform::Desktop,
            IdentityPlatform::Mobile => Platform::Mobile,
            _ => Platform::Headless,
        }),
{
    match p {
        IdentityPlatform::Desktop => Platform::Desktop,
        IdentityPlatform::Mobile => Platform::Mobile,
        _ => Platform::Headless,
    }
}

/// The badge and status shown for the sender of a replied-to message: those
/// of the sender when known, a desktop user who is offline otherwise.
pub fn platform_and_status(sender: Option<(Platform, Status)>) -> (r: (Platform, Status))
    ensures
        match sender {
            Some(ps) => r == ps,
            None => r == (Platform::Desktop, Status::Offline),
        },
{
    match sender {
        Some(ps) => ps,
        None => (Platform::Desktop, Status::Offline),
    }
}

/// The name shown for the sender of a message group: the username, or
/// `None` when it is empty (the "unknown" text is shown then).
pub fn sender_name(username: String) -> (r: Option<String>)
    ensures
        username@.len() == 0 ==> r is None,
        username@.len() > 0 ==> r == Some(username),
{
    if username.as_str().is_empty() {
        None
    } else {
        Some(username)
    }
}

/// How many messages are shown at first, before more are fetched.
pub const DEFAULT_NUM_TO_TAKE: usize = 20;

/// A request for older messages of a conversation.
#[derive(Clone, Copy, Debug, PartialEq, Eq, Structural)]
pub struct FetchMore {
    pub conv_id: u128,
    pub to_fetch: usize,
    pub current_len: usize,
}

/// Hovering over a message that is flagged for it fetches twice the first
/// number of messages more.
pub fn fetch_more(should_fetch_more: bool, conv_id: u128, current_len: usize) -> (r: Option<
    FetchMore,
>)
    ensures
        should_fetch_more ==> r == Some(
            FetchMore { conv_id, to_fetch: (DEFAULT_NUM_TO_TAKE * 2) as usize, current_len },
        ),
        !should_fetch_more ==> r is None,
{
    if should_fetch_more {
        Some(FetchMore { conv_id, to_fetch: DEFAULT_NUM_TO_TAKE * 2, current_len })
    } else {
        None
    }
}


/// The text that a flag of the observer script becomes: `1` or `0`.
pub open spec fn flag_text(b: bool) -> Seq<char> {
    if b {
        seq!['1']
    } else {
        seq!['0']
    }
}

/// The script that watches which messages are in view, from its template:
/// every `$SEND_TOP_EVENT` becomes the flag that asks for an event when the
/// top is reached, then every `$SEND_BOTTOM_EVENT` the one for the bottom.
pub fn observer_script(template: &str, send_top: bool, send_bottom: bool) -> (r: String)
    ensures
        r@ == replace_all(
            replace_all(template@, "$SEND_TOP_EVENT"@, flag_text(send_top)),
            "$SEND_BOTTOM_EVENT"@,
            flag_text(send_bottom),
        ),
{
    proof {
        reveal_strlit("$SEND_TOP_EVENT");
        reveal_strlit("$SEND_BOTTOM_EVENT");
        reveal_strlit("1");
        reveal_strlit("0");
        assert("1"@ =~= flag_text(true));
        assert("0"@ =~= flag_text(false));
    }
    let top = if send_top {
        "1"
    } else {
        "0"
    };
    let bottom = if send_bottom {
        "1"
    } else {
        "0"
    };
    let with_top = replace_str(template, "$SEND_TOP_EVENT", top);
    replace_str(with_top.as_str(), "$SEND_BOTTOM_EVENT", bottom)
}


/// Which items the context menu of a message shows, and whether the message
/// is being edited.
#[derive(Clone, Copy, Debug, PartialEq, Eq, Structural)]
pub struct MessageMenu {
    /// The message is shown in its editor.
    pub is_editing: bool,
    /// The "edit" item.
    pub show_edit: bool,
    /// The "cancel edit" item.
    pub show_cancel_edit: bool,
    /// The "delete" item.
    pub show_delete: bool,
}

/// Decides the context menu of a message: only one's own messages can be
/// edited, the message under edit offers to cancel the edit instead, and
/// only messages one sent can be deleted.
pub fn message_menu(is_remote: bool, editing: Option<u128>, msg_id: u128, sender_is_self: bool) -> (r:
    MessageMenu)
    ensures
        r.is_editing == (!is_remote && editing == Some(msg_id)),
        r.show_edit == (!is_remote && editing != Some(msg_id)),
        r.show_cancel_edit == (!is_remote && editing == Some(msg_id)),
        r.show_delete == sender_is_self,
{
    let under_edit = match editing {
        Some(id) => id == msg_id,
        None => false,
    };
    MessageMenu {
        is_editing: !is_remote && under_edit,
        show_edit: !is_remote && !under_edit,
        show_cancel_edit: !is_remote && under_edit,
        show_delete: sender_is_self,
    }
}

/// How a group of messages from a blocked user is shown.
#[derive(Clone, Copy, Debug, PartialEq, Eq, Structural)]
pub enum BlockedView {
    /// The sender is not blocked: the group is shown as usual.
    NotBlocked,
    /// Only a notice with the number of messages and a "view" link.
    Collapsed,
    /// The notice with a "hide" link, then the messages.
    Revealed,
}

/// Decides how a message group is shown: a group that others sent is
/// collapsed into a notice when its sender is blocked, until the user asks
/// to see it.
pub fn blocked_view(remote: bool, sender_blocked: bool, show_blocked: bool) -> (r: BlockedView)
    ensures
        !(remote && sender_blocked) ==> r == BlockedView::NotBlocked,
        remote && sender_blocked && !show_blocked ==> r == BlockedView::Collapsed,
        remote && sender_blocked && show_blocked ==> r == BlockedView::Revealed,
{
    if remote && sender_blocked {
        if show_blocked {
            BlockedView::Revealed
        } else {
            BlockedView::Collapsed
        }
    } else {
        BlockedView::NotBlocked
    }
}

/// The attachments being downloaded, as pairs of a conversation and a file,
/// each by its id.
pub struct PendingDownloads {
    entries: Vec<(u128, u128)>,
}

impl View for PendingDownloads {
    type V = Set<(u128, u128)>;

    closed spec fn view(&self) -> Set<(u128, u128)> {
        self.entries@.to_set()
    }
}

fn contains_u128(v: &Vec<u128>, x: u128) -> (r: bool)
    ensures
        r == v@.contains(x),
{
    let mut i: usize = 0;
    while i < v.len()
        invariant
            i <= v@.len(),
            forall|k: int| 0 <= k < i ==> v@[k] != x,
        decreases v@.len() - i,
    {
        if v[i] == x {
            assert(v@[i as int] == x);
            return true;
        }
        i = i + 1;
    }
    false
}

impl PendingDownloads {
    /// Nothing is being downloaded.
    pub fn new() -> (r: Self)
        ensures
            r@ == Set::<(u128, u128)>::empty(),
    {
        let r = PendingDownloads { entries: Vec::new() };
        assert(r@ =~= Set::<(u128, u128)>::empty());
        r
    }

    fn position(&self, conv_id: u128, file_id: u128) -> (r: Option<usize>)
        ensures
            match r {
                Some(i) => i < self.entries@.len() && self.entries@[i as int] == (conv_id, file_id),
                None => !self.entries@.contains((conv_id, file_id)),
            },
    {
        let mut i: usize = 0;
        while i < self.entries.len()
            invariant
                i <= self.entries@.len(),
                forall|k: int| 0 <= k < i ==> self.entries@[k] != (conv_id, file_id),
            decreases self.entries@.len() - i,
        {
            let (c, f) = self.entries[i];
            if c == conv_id && f == file_id {
                return Some(i);
            }
            i = i + 1;
        }
        None
    }

    /// A download of `file_id` in `conv_id` starts.
    pub fn start(&mut self, conv_id: u128, file_id: u128)
        ensures
            final(self)@ == old(self)@.insert((conv_id, file_id)),
    {
        if self.position(conv_id, file_id).is_none() {
            self.entries.push((conv_id, file_id));
            assert(self.entries@.to_set() =~= old(self).entries@.to_set().insert(
                (conv_id, file_id),
            )) by {
                assert(self.entries@ == old(self).entries@.push((conv_id, file_id)));
                assert forall|x: (u128, u128)| self.entries@.contains(x) implies old(
                    self,
                ).entries@.contains(x) || x == (conv_id, file_id) by {
                    let k = choose|k: int| 0 <= k < self.entries@.len() && self.entries@[k] == x;
                    if k < old(self).entries@.len() {
                        assert(old(self).entries@[k] == x);
                    }
                }
                assert forall|x: (u128, u128)| old(self).entries@.contains(x) implies self.entries@.contains(
                    x,
                ) by {
                    let k = choose|k: int|
                        0 <= k < old(self).entries@.len() && old(self).entries@[k] == x;
                    assert(self.entries@[k] == x);
                }
                assert(self.entries@[old(self).entries@.len() as int] == (conv_id, file_id));
            }
        } else {
            assert(old(self)@ =~= old(self)@.insert((conv_id, file_id)));
        }
    }

    /// The download of `file_id` in `conv_id` ended, whether it succeeded, failed
    /// or could not be asked for: it is no longer pending.
    pub fn finish(&mut self, conv_id: u128, file_id: u128)
        ensures
            final(self)@ == old(self)@.remove((conv_id, file_id)),
    {
        let mut kept: Vec<(u128, u128)> = Vec::new();
        let mut i: usize = 0;
        while i < self.entries.len()
            invariant
                i <= self.entries@.len(),
                self.entries@ == old(self).entries@,
                kept@.to_set() == self.entries@.subrange(0, i as int).to_set().remove(
                    (conv_id, file_id),
                ),
            decreases self.entries@.len() - i,
        {
            let e = self.entries[i];
            let ghost pre = self.entries@.subrange(0, i as int);
            let ghost next = self.entries@.subrange(0, i + 1);
            assert(next == pre.push(e));
            let ghost before = kept@;
            if !(e.0 == conv_id && e.1 == file_id) {
                kept.push(e);
                assert(kept@ == before.push(e));
            }
            proof {
                lemma_push_to_set(pre, e);
                lemma_push_to_set(before, e);
            }
            assert(kept@.to_set() =~= next.to_set().remove((conv_id, file_id)));
            i = i + 1;
        }
        assert(self.entries@.subrange(0, self.entries@.len() as int) =~= self.entries@);
        self.entries = kept;
    }

    /// The files of `conv_id` that are being downloaded, shown on its
    /// messages.
    pub fn pending_in(&self, conv_id: u128) -> (r: Vec<u128>)
        ensures
            r@.to_set() == Set::new(|f: u128| self@.contains((conv_id, f))),
            r@.no_duplicates(),
    {
        let mut r: Vec<u128> = Vec::new();
        let mut i: usize = 0;
        while i < self.entries.len()
            invariant
                i <= self.entries@.len(),
                r@.to_set() == Set::new(
                    |f: u128| self.entries@.subrange(0, i as int).contains((conv_id, f)),
                ),
                r@.no_duplicates(),
            decreases self.entries@.len() - i,
        {
            let e = self.entries[i];
            let ghost pre = self.entries@.subrange(0, i as int);
            let ghost next = self.entries@.subrange(0, i + 1);
            assert(next == pre.push(e));
            let ghost before = r@;
            if e.0 == conv_id && !contains_u128(&r, e.1) {
                r.push(e.1);
                assert(r@.no_duplicates()) by {
                    assert forall|a: int, b: int| 0 <= a < b < r@.len() implies r@[a] != r@[b] by {
                        if b == r@.len() - 1 {
                            assert(r@[a] == before[a]);
                            assert(before.contains(before[a]));
                        } else {
                            assert(r@[a] == before[a] && r@[b] == before[b]);
                        }
                    }
                }
                proof {
                    lemma_push_to_set(before, e.1);
                }
            }
            proof {
                if e.0 == conv_id && before.contains(e.1) {
                    assert(before.to_set().insert(e.1) =~= before.to_set());
                }
            }
            assert forall|f: u128| next.contains((conv_id, f)) <==> (pre.contains((conv_id, f)) || e
                == (conv_id, f)) by {
                if next.contains((conv_id, f)) {
                    let k = choose|k: int| 0 <= k < next.len() && next[k] == (conv_id, f);
                    if k < pre.len() {
                        assert(pre[k] == (conv_id, f));
                    }
                }
                if pre.contains((conv_id, f)) {
                    let k = choose|k: int| 0 <= k < pre.len() && pre[k] == (conv_id, f);
                    assert(next[k] == (conv_id, f));
                }
                if e == (conv_id, f) {
                    assert(next[i as int] == e);
                }
            }
            assert(r@.to_set() =~= Set::new(|f: u128| next.contains((conv_id, f))));
            i = i + 1;
        }
        assert(self.entries@.subrange(0, self.entries@.len() as int) =~= self.entries@);
        assert(r@.to_set() =~= Set::new(|f: u128| self@.contains((conv_id, f))));
        r
    }

    /// Whether `file_id` of `conv_id` is being downloaded.
    pub fn is_pending(&self, conv_id: u128, file_id: u128) -> (r: bool)
        ensures
            r == self@.contains((conv_id, file_id)),
    {
        self.position(conv_id, file_id).is_some()
    }
}

proof fn lemma_push_to_set<T>(s: Seq<T>, x: T)
    ensures
        s.push(x).to_set() == s.to_set().insert(x),
{
    assert forall|y: T| s.push(x).to_set().contains(y) implies s.to_set().insert(x).contains(y) by {
        let k = choose|k: int| 0 <= k < s.push(x).len() && s.push(x)[k] == y;
        if k < s.len() {
            assert(s[k] == y);
            assert(s.contains(y));
        }
    }
    assert forall|y: T| s.to_set().insert(x).contains(y) implies s.push(x).to_set().contains(y) by {
        if y == x {
            assert(s.push(x)[s.len() as int] == y);
        } else {
            assert(s.contains(y));
            let k = choose|k: int| 0 <= k < s.len() && s[k] == y;
            assert(s.push(x)[k] == y);
        }
    }
    assert(s.push(x).to_set() =~= s.to_set().insert(x));
}

/// The chat bar: the lines it holds, and whether the input field was asked
/// to clear itself.
pub struct ChatBar {
    pub lines: Vec<String>,
    pub should_clear_input: bool,
}

/// What pressing Enter or the send button does: the typing indicator is
/// stopped, and the message goes to the chat, if there is one to send.
pub struct ChatBarSubmit {
    pub stop_typing: bool,
    pub send: Option<(Vec<String>, u128)>,
}

impl ChatBar {
    /// An empty chat bar.
    pub fn new() -> (r: Self)
        ensures
            r.lines@.len() == 0,
            !r.should_clear_input,
    {
        ChatBar { lines: Vec::new(), should_clear_input: false }
    }

    /// The text of the input changed: the bar holds its lines, and a typing
    /// event goes to the active chat, if there is one.
    pub fn change(&mut self, text: &str, active_chat: Option<u128>) -> (typing_in: Option<u128>)
        ensures
            final(self).lines@.map_values(|l: String| l@) == lines_of(text@),
            final(self).should_clear_input == old(self).should_clear_input,
            typing_in == active_chat,
    {
        self.lines = chat_input_lines(text);
        active_chat
    }

    /// Enter or the send button: typing stops, the bar is emptied at once (so
    /// that pressing twice cannot send twice), and the lines are sent to the
    /// active chat when they have content and there is an active chat.
    pub fn submit(&mut self, active_chat: Option<u128>) -> (r: ChatBarSubmit)
        ensures
            r.stop_typing,
            final(self).lines@.len() == 0,
            final(self).should_clear_input,
            (old(self).lines@.len() > 0 && has_content(
                old(self).lines@.map_values(|l: String| l@),
            ) && active_chat is Some) ==> (r.send matches Some((m, c)) && m@ == old(self).lines@
                && Some(c) == active_chat),
            !(old(self).lines@.len() > 0 && has_content(
                old(self).lines@.map_values(|l: String| l@),
            ) && active_chat is Some) ==> r.send is None,
    {
        let mut msg: Vec<String> = Vec::new();
        std::mem::swap(&mut msg, &mut self.lines);
        self.should_clear_input = true;
        if !message_is_sendable(&msg) {
            return ChatBarSubmit { stop_typing: true, send: None };
        }
        match active_chat {
            Some(id) => ChatBarSubmit { stop_typing: true, send: Some((msg, id)) },
            None => ChatBarSubmit { stop_typing: true, send: None },
        }
    }
}

/// Messages that came back for a fetch, waiting to be applied at the next
/// render, and whether the conversation has more.
pub struct FetchedMessages<M> {
    pub conv_id: u128,
    pub messages: Vec<M>,
    pub has_more: bool,
}

/// What applying fetched messages does to a chat: its messages are updated
/// with these, and the chat is marked as finished loading when nothing more
/// is to come.
pub struct ChatUpdate<M> {
    pub conv_id: u128,
    pub messages: Vec<M>,
    pub finished_loading: bool,
}

/// Takes the fetched messages that wait to be applied, if any, and says what
/// to do with them; nothing waits afterwards.
pub fn apply_fetched<M>(slot: &mut Option<FetchedMessages<M>>) -> (r: Option<ChatUpdate<M>>)
    ensures
        *final(slot) is None,
        match *old(slot) {
            Some(f) => r matches Some(u) && u.conv_id == f.conv_id && u.messages@ == f.messages@
                && u.finished_loading == !f.has_more,
            None => r is None,
        },
{
    match slot.take() {
        Some(f) => Some(
            ChatUpdate { conv_id: f.conv_id, messages: f.messages, finished_loading: !f.has_more },
        ),
        None => None,
    }
}

} // verus!
