//! What holds of the store's operations, whatever the state and the input.

use vstd::prelude::*;
use crate::conversation::blank_replies;
use crate::error::{ErrorKind, StoreError};
use crate::manifest::{
    declared_count, ids_match_slots, lemma_distinct_records, lemma_first_bad_record,
    lemma_ids_match_slots, record_error, record_reply, record_slot, replies_after, verdict,
};
use crate::notif::NotifView;
use crate::reply::ReplyView;
use crate::state::{requested_slot, StateView, KEYBIND_DELIMITER};
use crate::text::{split, trimmed_lines};
use crate::MAX_REPLIES;

verus! {

impl StateView {
    /// Whether the store is in order: one key binding per slot and, where a
    /// conversation is under way, one reply per slot, each with the number
    /// of its slot as its id.
    pub open spec fn well_formed(self) -> bool {
        &&& self.keybinds.len() == MAX_REPLIES
        &&& self.convo matches Some(replies) ==> replies.len() == MAX_REPLIES && ids_match_slots(
            replies,
        )
    }
}

/// The store starts out in order, and every operation leaves it so.
pub proof fn lemma_store_stays_in_order(state: StateView, text: Seq<char>)
    requires
        state.well_formed(),
    ensures
        StateView::initial().well_formed(),
        state.start_conversation().state.well_formed(),
        state.end_conversation().state.well_formed(),
        state.queue_reply(text).state.well_formed(),
        state.update_replies(text).state.well_formed(),
        state.update_keybinds(text).state.well_formed(),
{
    let lines = trimmed_lines(text);
    lemma_ids_match_slots(blank_replies(), lines, verdict(lines).applied);
}

/// An operation that fails changes nothing and publishes nothing; one that
/// succeeds publishes: one notification, or two where replacing the replies
/// also begins the conversation.
pub proof fn lemma_all_or_nothing(state: StateView, text: Seq<char>)
    ensures
        state.start_conversation().error is None && state.start_conversation().published.len()
            == 1,
        state.end_conversation().error is None && state.end_conversation().published.len() == 1,
        state.queue_reply(text).error is Some ==> state.queue_reply(text).state == state
            && state.queue_reply(text).published.len() == 0,
        state.queue_reply(text).error is None ==> state.queue_reply(text).published.len() == 1,
        state.update_replies(text).error is Some ==> state.update_replies(text).state == state
            && state.update_replies(text).published.len() == 0,
        state.update_replies(text).error is None ==> state.update_replies(text).published.len()
            == if state.convo is None {
            2nat
        } else {
            1nat
        },
        state.update_keybinds(text).error is Some ==> state.update_keybinds(text).state == state
            && state.update_keybinds(text).published.len() == 0,
        state.update_keybinds(text).error is None ==> state.update_keybinds(text).published.len()
            == 1,
{
}

/// A manifest that is accepted and whose records fill distinct slots gives
/// a conversation that holds each record at its slot and a blank reply in
/// every other slot, and the replies published last are those of the store.
pub proof fn lemma_replace_with_distinct_records(state: StateView, text: Seq<char>)
    requires
        verdict(trimmed_lines(text)).error is None,
        forall|i: nat, j: nat|
            i < j < verdict(trimmed_lines(text)).applied ==> #[trigger] record_slot(
                trimmed_lines(text),
                i,
            ) != #[trigger] record_slot(trimmed_lines(text), j),
    ensures
        declared_count(trimmed_lines(text)) == Ok::<usize, crate::error::ParseError>(
            verdict(trimmed_lines(text)).applied as usize,
        ),
        state.update_replies(text).error is None,
        state.update_replies(text).state.keybinds == state.keybinds,
        state.update_replies(text).state.convo is Some,
        state.update_replies(text).state.convo->0.len() == MAX_REPLIES,
        forall|j: nat|
            j < verdict(trimmed_lines(text)).applied ==> 0 <= #[trigger] record_slot(
                trimmed_lines(text),
                j,
            ) < MAX_REPLIES && state.update_replies(text).state.convo->0[record_slot(
                trimmed_lines(text),
                j,
            )] == record_reply(trimmed_lines(text), j),
        forall|slot: int|
            0 <= slot < MAX_REPLIES && (forall|j: nat|
                j < verdict(trimmed_lines(text)).applied ==> #[trigger] record_slot(
                    trimmed_lines(text),
                    j,
                ) != slot) ==> #[trigger] state.update_replies(text).state.convo->0[slot]
                == ReplyView::blank(slot as nat),
        state.update_replies(text).published.last() == (NotifView::UpdateReplies {
            replies: state.update_replies(text).state.convo->0,
        }),
{
    let lines = trimmed_lines(text);
    let n = verdict(lines).applied;
    let count = declared_count(lines)->Ok_0;
    lemma_first_bad_record(lines, count, count as nat);
    assert forall|j: nat| j < n implies 0 <= #[trigger] record_slot(lines, j) < MAX_REPLIES by {
        assert(record_error(lines, count, j) is None);
    }
    lemma_distinct_records(blank_replies(), lines, n);
}

/// Queuing a reply of a conversation under way queues that reply and leaves
/// every other slot, and all else of that reply, as it was. It publishes
/// the index, once. Queuing it again changes nothing more, and publishes
/// the index once more.
pub proof fn lemma_queue_reply(state: StateView, text: Seq<char>)
    requires
        state.convo is Some,
        state.convo->0.len() == MAX_REPLIES,
        requested_slot(text) is Ok,
    ensures
        state.queue_reply(text).error is None,
        state.queue_reply(text).state.keybinds == state.keybinds,
        state.queue_reply(text).state.convo is Some,
        state.queue_reply(text).state.convo->0.len() == MAX_REPLIES,
        state.queue_reply(text).state.convo->0[requested_slot(text)->Ok_0] == (ReplyView {
            queued: true,
            ..state.convo->0[requested_slot(text)->Ok_0]
        }),
        forall|slot: int|
            0 <= slot < MAX_REPLIES && slot != requested_slot(text)->Ok_0
                ==> #[trigger] state.queue_reply(text).state.convo->0[slot] == state.convo->0[slot],
        state.queue_reply(text).published == seq![
            NotifView::QueueReply { index: requested_slot(text)->Ok_0 },
        ],
        state.queue_reply(text).state.queue_reply(text).error is None,
        state.queue_reply(text).state.queue_reply(text).state == state.queue_reply(text).state,
        state.queue_reply(text).state.queue_reply(text).published == state.queue_reply(
            text,
        ).published,
{
    let slot = requested_slot(text)->Ok_0;
    let once = state.queue_reply(text).state;
    let twice = once.queue_reply(text).state;
    assert(twice.convo->0 =~= once.convo->0);
}

/// Without a conversation nothing can be queued: the store stays as it was
/// and nothing is published. Where the index names a slot, the failure is
/// that no conversation is under way, a failure of state.
pub proof fn lemma_queue_without_conversation(state: StateView, text: Seq<char>)
    requires
        state.convo is None,
    ensures
        state.queue_reply(text).error is Some,
        state.queue_reply(text).state == state,
        state.queue_reply(text).published.len() == 0,
        requested_slot(text) is Ok ==> state.queue_reply(text).error == Some(
            StoreError::NotStarted,
        ),
        StoreError::NotStarted.class() == ErrorKind::State,
{
}

/// Key bindings are accepted exactly where there is one per slot, empty
/// ones counted; they then replace the old ones as they stand, in order.
pub proof fn lemma_keybinds_need_one_per_slot(state: StateView, text: Seq<char>)
    ensures
        state.update_keybinds(text).error is None <==> split(text, KEYBIND_DELIMITER).len()
            == MAX_REPLIES,
        state.update_keybinds(text).error is None ==> state.update_keybinds(text).state.keybinds
            == split(text, KEYBIND_DELIMITER) && state.update_keybinds(text).state.convo
            == state.convo && state.update_keybinds(text).published == seq![
            NotifView::SetKeybinds { keybinds: split(text, KEYBIND_DELIMITER) },
        ],
        state.update_keybinds(text).error is Some ==> state.update_keybinds(text).error == Some(
            StoreError::InvalidKeybindCount,
        ) && state.update_keybinds(text).state == state,
{
}

} // verus!
