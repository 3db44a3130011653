//! The store: the conversation under way, if any, and the key bindings.
//!
//! Every operation either takes full effect and says what is to be
//! published, or fails, changes nothing and publishes nothing. What each
//! operation does is stated once, over plain values, by the functions of
//! [`StateView`]; the operations of [`AppState`] are proved to do just that.

use vstd::prelude::*;
use crate::conversation::{blank_replies, Conversation};
use crate::error::StoreError;
use crate::manifest::{replies_after, verdict};
use crate::notif::{copy_strings, notif_views, texts_view, NotifView, WebNotif};
use crate::reply::{views_of, ConversationReply, ReplyView};
use crate::text::{
    chars_of, i32_of, parse_i32, split, split_spans, text_of, texts_of, trim, trimmed,
    trimmed_lines, Span,
};
use crate::MAX_REPLIES;

verus! {

/// The character that stands between two key bindings.
pub const KEYBIND_DELIMITER: char = ';';

/// The store: written by the one controller, read when a viewer attaches.
#[derive(Debug, PartialEq, Eq)]
pub struct AppState {
    /// The conversation under way, if there is one.
    pub convo: Option<Conversation>,
    /// The key bindings, one per slot. They outlive any conversation.
    pub keybinds: [String; MAX_REPLIES],
}

/// The store as a plain value.
pub struct StateView {
    pub convo: Option<Seq<ReplyView>>,
    pub keybinds: Seq<Seq<char>>,
}

/// What an operation does: the state it leaves, what it publishes, in
/// order, and the failure, if it failed.
pub struct Effect {
    pub state: StateView,
    pub published: Seq<NotifView>,
    pub error: Option<StoreError>,
}

/// The slot that `text` asks to queue: `text`, trimmed, read as a number
/// that must name a slot.
pub open spec fn requested_slot(text: Seq<char>) -> Result<int, StoreError> {
    match i32_of(trimmed(text)) {
        None => Err(StoreError::InvalidIndex),
        Some(index) => if 0 <= index < MAX_REPLIES {
            Ok(index as int)
        } else {
            Err(StoreError::IndexOutOfBounds { index })
        },
    }
}

impl StateView {
    /// The store at startup: no conversation, every key binding empty.
    pub open spec fn initial() -> StateView {
        StateView {
            convo: None,
            keybinds: Seq::new(MAX_REPLIES as nat, |slot: int| Seq::<char>::empty()),
        }
    }

    /// The effect of an operation that fails: nothing changes and nothing is
    /// published.
    pub open spec fn refused(self, error: StoreError) -> Effect {
        Effect { state: self, published: Seq::empty(), error: Some(error) }
    }

    /// Starting a conversation puts a blank one in place, also where one was
    /// under way, and publishes that a conversation began.
    pub open spec fn start_conversation(self) -> Effect {
        Effect {
            state: StateView { convo: Some(blank_replies()), keybinds: self.keybinds },
            published: seq![NotifView::Conversation { start: true }],
            error: None,
        }
    }

    /// Ending the conversation leaves none, whether or not one was under
    /// way, and publishes that the conversation ended.
    pub open spec fn end_conversation(self) -> Effect {
        Effect {
            state: StateView { convo: None, keybinds: self.keybinds },
            published: seq![NotifView::Conversation { start: false }],
            error: None,
        }
    }

    /// Queuing a reply fails where `text` names no slot, and then where no
    /// conversation is under way. Otherwise the reply in that slot is
    /// queued, the others stay as they are, and the index is published.
    pub open spec fn queue_reply(self, text: Seq<char>) -> Effect {
        match requested_slot(text) {
            Err(error) => self.refused(error),
            Ok(slot) => match self.convo {
                None => self.refused(StoreError::NotStarted),
                Some(replies) => Effect {
                    state: StateView {
                        convo: Some(replies.update(slot, replies[slot].queue())),
                        keybinds: self.keybinds,
                    },
                    published: seq![NotifView::QueueReply { index: slot }],
                    error: None,
                },
            },
        }
    }

    /// Replacing the replies fails where the manifest is refused. Otherwise
    /// the conversation holds the manifest's records over blank slots; it is
    /// begun first, and its beginning published, where none was under way;
    /// then the new replies are published.
    pub open spec fn update_replies(self, text: Seq<char>) -> Effect {
        let lines = trimmed_lines(text);
        match verdict(lines).error {
            Some(cause) => self.refused(StoreError::Manifest(cause)),
            None => {
                let replies = replies_after(blank_replies(), lines, verdict(lines).applied);
                let begun = if self.convo is None {
                    seq![NotifView::Conversation { start: true }]
                } else {
                    Seq::empty()
                };
                Effect {
                    state: StateView { convo: Some(replies), keybinds: self.keybinds },
                    published: begun + seq![NotifView::UpdateReplies { replies }],
                    error: None,
                }
            },
        }
    }

    /// Setting the key bindings fails unless `text` splits into one binding
    /// per slot. Otherwise the bindings replace the old ones and are
    /// published.
    pub open spec fn update_keybinds(self, text: Seq<char>) -> Effect {
        let keybinds = split(text, KEYBIND_DELIMITER);
        if keybinds.len() != MAX_REPLIES {
            self.refused(StoreError::InvalidKeybindCount)
        } else {
            Effect {
                state: StateView { convo: self.convo, keybinds },
                published: seq![NotifView::SetKeybinds { keybinds }],
                error: None,
            }
        }
    }

    /// What a viewer that attaches now is sent to catch up: the key
    /// bindings, then, where a conversation is under way, its beginning and
    /// its replies.
    pub open spec fn replay(self) -> Seq<NotifView> {
        let keybinds = seq![NotifView::SetKeybinds { keybinds: self.keybinds }];
        match self.convo {
            None => keybinds,
            Some(replies) => keybinds + seq![
                NotifView::Conversation { start: true },
                NotifView::UpdateReplies { replies },
            ],
        }
    }
}

impl View for AppState {
    type V = StateView;

    open spec fn view(&self) -> StateView {
        StateView {
            convo: match self.convo {
                Some(convo) => Some(convo@),
                None => None,
            },
            keybinds: texts_view(self.keybinds@),
        }
    }
}

impl AppState {
    /// The store at startup.
    pub fn new() -> (state: Self)
        ensures
            state@ == StateView::initial(),
    {
        let state = AppState {
            convo: None,
            keybinds: [
                String::new(),
                String::new(),
                String::new(),
                String::new(),
                String::new(),
                String::new(),
                String::new(),
                String::new(),
                String::new(),
                String::new(),
                String::new(),
                String::new(),
                String::new(),
                String::new(),
                String::new(),
                String::new(),
            ],
        };
        assert(state@.keybinds =~= StateView::initial().keybinds);
        state
    }

    /// Starts a conversation and returns the notification to publish.
    pub fn start_conversation(&mut self) -> (notif: WebNotif)
        ensures
            final(self)@ == old(self)@.start_conversation().state,
            notif@ == old(self)@.start_conversation().published[0],
    {
        self.convo = Some(Conversation::new());
        WebNotif::Conversation { start: true }
    }

    /// Ends the conversation and returns the notification to publish.
    pub fn end_conversation(&mut self) -> (notif: WebNotif)
        ensures
            final(self)@ == old(self)@.end_conversation().state,
            notif@ == old(self)@.end_conversation().published[0],
    {
        self.convo = None;
        WebNotif::Conversation { start: false }
    }

    /// Queues the reply whose index `client_string` holds and returns the
    /// notification to publish, or fails and changes nothing.
    pub fn queue_reply(&mut self, client_string: &str) -> (outcome: Result<WebNotif, StoreError>)
        ensures
            final(self)@ == old(self)@.queue_reply(client_string@).state,
            match outcome {
                Ok(notif) => old(self)@.queue_reply(client_string@).error is None && notif@
                    == old(self)@.queue_reply(client_string@).published[0],
                Err(error) => old(self)@.queue_reply(client_string@).error == Some(error),
            },
    {
        let chars = chars_of(client_string);
        let whole = Span { start: 0, end: chars.len() };
        assert(whole.of(chars@) =~= client_string@);
        let inner = trim(chars.as_slice(), whole);
        let index: i32 = match parse_i32(chars.as_slice(), inner) {
            Some(index) => index,
            None => {
                return Err(StoreError::InvalidIndex);
            },
        };
        if index < 0 || index >= MAX_REPLIES as i32 {
            return Err(StoreError::IndexOutOfBounds { index });
        }
        match &mut self.convo {
            Some(convo) => {
                convo.replies[index as usize].queued = true;
                proof {
                    let before = old(self)@.convo->0;
                    assert(convo@ =~= before.update(index as int, before[index as int].queue()));
                }
                Ok(WebNotif::QueueReply { index })
            },
            None => Err(StoreError::NotStarted),
        }
    }

    /// Replaces the replies by those of the manifest `client_string` and
    /// returns the notifications to publish, in order, or fails and changes
    /// nothing.
    pub fn update_replies(&mut self, client_string: &str) -> (outcome: Result<
        Vec<WebNotif>,
        StoreError,
    >)
        ensures
            final(self)@ == old(self)@.update_replies(client_string@).state,
            match outcome {
                Ok(notifs) => old(self)@.update_replies(client_string@).error is None
                    && notif_views(notifs@) == old(self)@.update_replies(client_string@).published,
                Err(error) => old(self)@.update_replies(client_string@).error == Some(error),
            },
    {
        let mut scratch = Conversation::new();
        match scratch.parse(client_string) {
            Err(cause) => Err(StoreError::Manifest(cause)),
            Ok(()) => {
                let mut notifs: Vec<WebNotif> = Vec::new();
                if self.convo.is_none() {
                    notifs.push(WebNotif::Conversation { start: true });
                }
                notifs.push(WebNotif::UpdateReplies { replies: scratch.snapshot() });
                proof {
                    assert(notif_views(notifs@) =~= old(self)@.update_replies(
                        client_string@,
                    ).published);
                }
                self.convo = Some(scratch);
                Ok(notifs)
            },
        }
    }

    /// Replaces the key bindings by those that `client_string` lists and
    /// returns the notification to publish, or fails and changes nothing.
    pub fn update_keybinds(&mut self, client_string: &str) -> (outcome: Result<
        WebNotif,
        StoreError,
    >)
        ensures
            final(self)@ == old(self)@.update_keybinds(client_string@).state,
            match outcome {
                Ok(notif) => old(self)@.update_keybinds(client_string@).error is None && notif@
                    == old(self)@.update_keybinds(client_string@).published[0],
                Err(error) => old(self)@.update_keybinds(client_string@).error == Some(error),
            },
    {
        let chars = chars_of(client_string);
        let spans = split_spans(chars.as_slice(), KEYBIND_DELIMITER);
        if spans.len() != MAX_REPLIES {
            return Err(StoreError::InvalidKeybindCount);
        }
        let ghost tokens = split(client_string@, KEYBIND_DELIMITER);
        proof {
            assert forall|i: int| 0 <= i < MAX_REPLIES implies (#[trigger] spans@[i]).of(
                client_string@,
            ) == tokens[i] by {
                assert(texts_of(spans@, chars@)[i] == tokens[i]);
            }
        }
        self.keybinds = [
            text_of(client_string, spans[0]),
            text_of(client_string, spans[1]),
            text_of(client_string, spans[2]),
            text_of(client_string, spans[3]),
            text_of(client_string, spans[4]),
            text_of(client_string, spans[5]),
            text_of(client_string, spans[6]),
            text_of(client_string, spans[7]),
            text_of(client_string, spans[8]),
            text_of(client_string, spans[9]),
            text_of(client_string, spans[10]),
            text_of(client_string, spans[11]),
            text_of(client_string, spans[12]),
            text_of(client_string, spans[13]),
            text_of(client_string, spans[14]),
            text_of(client_string, spans[15]),
        ];
        assert(texts_view(self.keybinds@) =~= tokens);
        Ok(WebNotif::SetKeybinds { keybinds: copy_strings(self.keybinds.as_slice()) })
    }

    /// A copy of the replies of the conversation under way, in slot order,
    /// or nothing where none is.
    pub fn replies_snapshot(&self) -> (replies: Option<Vec<ConversationReply>>)
        ensures
            match replies {
                Some(replies) => self@.convo == Some(views_of(replies@)),
                None => self@.convo is None,
            },
    {
        match &self.convo {
            Some(convo) => Some(convo.snapshot()),
            None => None,
        }
    }

    /// A copy of the key bindings, in slot order.
    pub fn keybinds_snapshot(&self) -> (keybinds: Vec<String>)
        ensures
            texts_view(keybinds@) == self@.keybinds,
    {
        copy_strings(self.keybinds.as_slice())
    }

    /// What a viewer that attaches now is to be sent before anything else,
    /// in order.
    pub fn reconcile(&self) -> (notifs: Vec<WebNotif>)
        ensures
            notif_views(notifs@) == self@.replay(),
    {
        let mut notifs: Vec<WebNotif> = Vec::new();
        notifs.push(WebNotif::SetKeybinds { keybinds: self.keybinds_snapshot() });
        match self.replies_snapshot() {
            Some(replies) => {
                notifs.push(WebNotif::Conversation { start: true });
                notifs.push(WebNotif::UpdateReplies { replies });
            },
            None => {},
        }
        assert(notif_views(notifs@) =~= self@.replay());
        notifs
    }
}

impl Default for AppState {
    fn default() -> (state: Self)
        ensures
            state@ == StateView::initial(),
    {
        AppState::new()
    }
}

} // verus!
