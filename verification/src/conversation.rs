//! The active conversation: one reply per slot.

use vstd::prelude::*;
use crate::error::{ManifestField, ParseError};
use crate::manifest::{
    declared_count, first_bad_record, ids_match_slots, lemma_first_bad_record_stays,
    lemma_ids_match_slots, lemma_replies_after_step, record_error, record_reply, record_slot,
    record_start, replies_after, verdict, RECORD_LINES,
};
use crate::notif::copy_replies;
use crate::reply::{views_of, ConversationReply, ReplyView};
use crate::text::{chars_of, line_spans, parse_usize, text_of, texts_of, trimmed_lines, Span};
use crate::MAX_REPLIES;

verus! {

/// A conversation in progress. Every slot holds a reply at all times; a slot
/// that the controller has not filled holds a blank one.
#[derive(Debug, PartialEq, Eq)]
pub struct Conversation {
    pub replies: [ConversationReply; MAX_REPLIES],
}

/// The replies of a conversation that has just begun: each slot blank, and
/// numbered by its position.
pub open spec fn blank_replies() -> Seq<ReplyView> {
    Seq::new(MAX_REPLIES as nat, |slot: int| ReplyView::blank(slot as nat))
}

impl View for Conversation {
    type V = Seq<ReplyView>;

    open spec fn view(&self) -> Seq<ReplyView> {
        views_of(self.replies@)
    }
}

impl Conversation {
    /// A conversation with every slot blank.
    pub fn new() -> (convo: Self)
        ensures
            convo@ == blank_replies(),
    {
        let convo = Conversation {
            replies: [
                ConversationReply::blank(0),
                ConversationReply::blank(1),
                ConversationReply::blank(2),
                ConversationReply::blank(3),
                ConversationReply::blank(4),
                ConversationReply::blank(5),
                ConversationReply::blank(6),
                ConversationReply::blank(7),
                ConversationReply::blank(8),
                ConversationReply::blank(9),
                ConversationReply::blank(10),
                ConversationReply::blank(11),
                ConversationReply::blank(12),
                ConversationReply::blank(13),
                ConversationReply::blank(14),
                ConversationReply::blank(15),
            ],
        };
        assert(convo@ =~= blank_replies());
        convo
    }

    /// Makes every slot blank again.
    pub fn clear(&mut self)
        ensures
            final(self)@ == blank_replies(),
    {
        let mut slot: usize = 0;
        while slot < MAX_REPLIES
            invariant
                slot <= MAX_REPLIES,
                forall|i: int| 0 <= i < slot ==> (#[trigger] self.replies@[i])@ == ReplyView::blank(i as nat),
            decreases MAX_REPLIES - slot,
        {
            self.replies[slot] = ConversationReply::blank(slot);
            slot = slot + 1;
        }
        assert(self@ =~= blank_replies());
    }

    /// Reads a reply manifest and takes its records over, one by one, each
    /// into the slot it names. Reading stops at the first thing wrong: the
    /// records before it stay taken over, and the failure is returned.
    pub fn parse(&mut self, source: &str) -> (outcome: Result<(), ParseError>)
        ensures
            final(self)@ == replies_after(
                old(self)@,
                trimmed_lines(source@),
                verdict(trimmed_lines(source@)).applied,
            ),
            match outcome {
                Ok(()) => verdict(trimmed_lines(source@)).error is None,
                Err(error) => verdict(trimmed_lines(source@)).error == Some(error),
            },
            ids_match_slots(old(self)@) ==> ids_match_slots(final(self)@),
    {
        let chars = chars_of(source);
        let spans = line_spans(chars.as_slice());
        let ghost lines = trimmed_lines(source@);
        proof {
            assert(replies_after(self@, lines, 0) =~= self@);
            if ids_match_slots(self@) {
                lemma_ids_match_slots(self@, lines, verdict(lines).applied);
            }
        }
        if spans.len() == 0 {
            return Err(ParseError::Empty);
        }
        let count = match parse_usize(chars.as_slice(), spans[0]) {
            Some(count) => count,
            None => {
                return Err(ParseError::InvalidCount);
            },
        };
        if count >= MAX_REPLIES {
            return Err(ParseError::CountTooHigh { count });
        }
        let mut reply: usize = 0;
        while reply < count
            invariant
                reply <= count < MAX_REPLIES,
                chars@ == source@,
                lines == trimmed_lines(source@),
                texts_of(spans@, chars@) == lines,
                crate::text::all_fit(spans@, chars@.len()),
                declared_count(lines) == Ok::<usize, ParseError>(count),
                first_bad_record(lines, count, reply as nat) == reply,
                self@ == replies_after(old(self)@, lines, reply as nat),
                ids_match_slots(old(self)@) ==> ids_match_slots(
                    replies_after(old(self)@, lines, verdict(lines).applied),
                ),
            decreases count - reply,
        {
            let start: usize = 1 + RECORD_LINES * reply;
            assert(start == record_start(reply as nat));
            if spans.len() < start + RECORD_LINES {
                let present: usize = if spans.len() > start {
                    spans.len() - start
                } else {
                    0
                };
                let error = ParseError::MissingLine {
                    field: ManifestField::from_offset(present),
                    reply,
                };
                proof {
                    assert(record_error(lines, count, reply as nat) == Some(error));
                    lemma_first_bad_record_stays(lines, count, reply as nat, count as nat);
                }
                return Err(error);
            }
            let separator: Span = spans[start];
            assert(separator.of(chars@) == lines[start as int]);
            if separator.start != separator.end {
                proof {
                    lemma_first_bad_record_stays(lines, count, reply as nat, count as nat);
                }
                return Err(ParseError::InvalidSeparator { reply });
            }
            assert(spans@[start + 1].of(chars@) == lines[start + 1]);
            let index = match parse_usize(chars.as_slice(), spans[start + 1]) {
                Some(index) => index,
                None => {
                    proof {
                        lemma_first_bad_record_stays(lines, count, reply as nat, count as nat);
                    }
                    return Err(ParseError::InvalidIndex { reply });
                },
            };
            if index >= MAX_REPLIES {
                proof {
                    lemma_first_bad_record_stays(lines, count, reply as nat, count as nat);
                }
                return Err(ParseError::IndexTooHigh { index, count, reply });
            }
            assert(spans@[start + 2].of(chars@) == lines[start + 2]);
            assert(spans@[start + 3].of(chars@) == lines[start + 3]);
            assert(spans@[start + 4].of(chars@) == lines[start + 4]);
            assert(spans@[start + 5].of(chars@) == lines[start + 5]);
            let record = ConversationReply {
                id: index,
                style: text_of(source, spans[start + 2]),
                category: text_of(source, spans[start + 3]),
                paraphrase: text_of(source, spans[start + 4]),
                text: text_of(source, spans[start + 5]),
                queued: false,
            };
            proof {
                assert(record_error(lines, count, reply as nat) is None);
                assert(index == record_slot(lines, reply as nat));
                assert(record@ == record_reply(lines, reply as nat));
                lemma_replies_after_step(old(self)@, lines, reply as nat);
                assert(views_of(self.replies@.update(index as int, record)) =~= self@.update(
                    index as int,
                    record@,
                ));
            }
            self.replies[index] = record;
            reply = reply + 1;
        }
        Ok(())
    }

    /// A copy of the replies, in slot order.
    pub fn snapshot(&self) -> (replies: Vec<ConversationReply>)
        ensures
            views_of(replies@) == self@,
    {
        copy_replies(self.replies.as_slice())
    }
}

impl Default for Conversation {
    fn default() -> (convo: Self)
        ensures
            convo@ == blank_replies(),
    {
        Conversation::new()
    }
}

} // verus!
