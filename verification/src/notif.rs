//! What viewers are told when the store changes.

use vstd::prelude::*;
use crate::reply::{views_of, ConversationReply, ReplyView};

verus! {

/// A notification for the viewers. Each is a snapshot of its own: it shares
/// nothing with the store it was made from.
#[derive(Debug, PartialEq, Eq)]
pub enum WebNotif {
    /// A conversation began (`start`) or ended.
    Conversation { start: bool },
    /// The replies were replaced; `replies` holds all of them, in slot order.
    UpdateReplies { replies: Vec<ConversationReply> },
    /// The reply in slot `index` was queued.
    QueueReply { index: i32 },
    /// The key bindings were replaced; `keybinds` holds one per slot.
    SetKeybinds { keybinds: Vec<String> },
}

/// A notification as a plain value.
pub enum NotifView {
    Conversation { start: bool },
    UpdateReplies { replies: Seq<ReplyView> },
    QueueReply { index: int },
    SetKeybinds { keybinds: Seq<Seq<char>> },
}

/// The texts of `strings`, in order.
pub open spec fn texts_view(strings: Seq<String>) -> Seq<Seq<char>> {
    strings.map_values(|s: String| s@)
}

/// The notifications of `notifs` as plain values, in order.
pub open spec fn notif_views(notifs: Seq<WebNotif>) -> Seq<NotifView> {
    notifs.map_values(|notif: WebNotif| notif@)
}

impl View for WebNotif {
    type V = NotifView;

    open spec fn view(&self) -> NotifView {
        match self {
            WebNotif::Conversation { start } => NotifView::Conversation { start: *start },
            WebNotif::UpdateReplies { replies } => NotifView::UpdateReplies {
                replies: views_of(replies@),
            },
            WebNotif::QueueReply { index } => NotifView::QueueReply { index: *index as int },
            WebNotif::SetKeybinds { keybinds } => NotifView::SetKeybinds {
                keybinds: texts_view(keybinds@),
            },
        }
    }
}

/// A copy of `replies`.
pub fn copy_replies(replies: &[ConversationReply]) -> (copy: Vec<ConversationReply>)
    ensures
        views_of(copy@) == views_of(replies@),
{
    let mut copy: Vec<ConversationReply> = Vec::new();
    let mut i: usize = 0;
    while i < replies.len()
        invariant
            i <= replies@.len(),
            copy@.len() == i,
            forall|j: int| 0 <= j < i ==> (#[trigger] copy@[j])@ == replies@[j]@,
        decreases replies@.len() - i,
    {
        copy.push(replies[i].clone());
        i = i + 1;
    }
    assert(views_of(copy@) =~= views_of(replies@));
    copy
}

/// A copy of `strings`.
pub fn copy_strings(strings: &[String]) -> (copy: Vec<String>)
    ensures
        texts_view(copy@) == texts_view(strings@),
{
    let mut copy: Vec<String> = Vec::new();
    let mut i: usize = 0;
    while i < strings.len()
        invariant
            i <= strings@.len(),
            copy@.len() == i,
            forall|j: int| 0 <= j < i ==> (#[trigger] copy@[j])@ == strings@[j]@,
        decreases strings@.len() - i,
    {
        copy.push(strings[i].clone());
        i = i + 1;
    }
    assert(texts_view(copy@) =~= texts_view(strings@));
    copy
}

impl Clone for WebNotif {
    fn clone(&self) -> (copy: Self)
        ensures
            copy@ == self@,
    {
        match self {
            WebNotif::Conversation { start } => WebNotif::Conversation { start: *start },
            WebNotif::UpdateReplies { replies } => WebNotif::UpdateReplies {
                replies: copy_replies(replies.as_slice()),
            },
            WebNotif::QueueReply { index } => WebNotif::QueueReply { index: *index },
            WebNotif::SetKeybinds { keybinds } => WebNotif::SetKeybinds {
                keybinds: copy_strings(keybinds.as_slice()),
            },
        }
    }
}

} // verus!
