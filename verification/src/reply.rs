//! One selectable reply of a conversation.

use vstd::prelude::*;

verus! {

/// A reply that the viewer can pick: where it sits, how it is labelled,
/// what it says, and whether the controller has queued it.
#[derive(Debug, PartialEq, Eq)]
pub struct ConversationReply {
    pub id: usize,
    pub style: String,
    pub category: String,
    pub paraphrase: String,
    pub text: String,
    pub queued: bool,
}

/// A reply as a plain value.
pub struct ReplyView {
    pub id: nat,
    pub style: Seq<char>,
    pub category: Seq<char>,
    pub paraphrase: Seq<char>,
    pub text: Seq<char>,
    pub queued: bool,
}

impl ReplyView {
    /// The reply with the given id that says nothing and is not queued.
    pub open spec fn blank(id: nat) -> ReplyView {
        ReplyView {
            id,
            style: Seq::empty(),
            category: Seq::empty(),
            paraphrase: Seq::empty(),
            text: Seq::empty(),
            queued: false,
        }
    }

    /// This reply, queued.
    pub open spec fn queue(self) -> ReplyView {
        ReplyView { queued: true, ..self }
    }
}

impl View for ConversationReply {
    type V = ReplyView;

    open spec fn view(&self) -> ReplyView {
        ReplyView {
            id: self.id as nat,
            style: self.style@,
            category: self.category@,
            paraphrase: self.paraphrase@,
            text: self.text@,
            queued: self.queued,
        }
    }
}

/// The replies of `replies` as plain values, in order.
pub open spec fn views_of(replies: Seq<ConversationReply>) -> Seq<ReplyView> {
    replies.map_values(|reply: ConversationReply| reply@)
}

impl ConversationReply {
    /// A blank reply with id 0.
    pub fn new() -> (reply: Self)
        ensures
            reply@ == ReplyView::blank(0),
    {
        ConversationReply::blank(0)
    }

    /// A blank reply with the given id.
    pub fn blank(id: usize) -> (reply: Self)
        ensures
            reply@ == ReplyView::blank(id as nat),
    {
        ConversationReply {
            id,
            style: String::new(),
            category: String::new(),
            paraphrase: String::new(),
            text: String::new(),
            queued: false,
        }
    }

    /// Makes the reply blank again, with id 0.
    pub fn clear(&mut self)
        ensures
            final(self)@ == ReplyView::blank(0),
    {
        self.id = 0;
        self.style = String::new();
        self.category = String::new();
        self.paraphrase = String::new();
        self.text = String::new();
        self.queued = false;
    }
}

impl Clone for ConversationReply {
    fn clone(&self) -> (copy: Self)
        ensures
            copy@ == self@,
    {
        ConversationReply {
            id: self.id,
            style: self.style.clone(),
            category: self.category.clone(),
            paraphrase: self.paraphrase.clone(),
            text: self.text.clone(),
            queued: self.queued,
        }
    }
}

impl Default for ConversationReply {
    fn default() -> (reply: Self)
        ensures
            reply@ == ReplyView::blank(0),
    {
        ConversationReply::new()
    }
}

} // verus!
