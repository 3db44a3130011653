//! The reply manifest: the lines in which the controller sends a whole set
//! of replies at once.
//!
//! The first line announces how many records follow. A record is six lines:
//! an empty one, the index of the slot it fills, then style, category,
//! paraphrase and text. Everything here speaks of the manifest's lines as
//! they are once each is trimmed of surrounding white space.

use vstd::prelude::*;
use crate::error::{ManifestField, ParseError};
use crate::reply::ReplyView;
use crate::text::usize_of;
use crate::MAX_REPLIES;

verus! {

/// Number of lines that a record takes.
pub const RECORD_LINES: usize = 6;

/// Position of the first line of record `j`.
pub open spec fn record_start(j: nat) -> int {
    1 + RECORD_LINES * j
}

/// The number of records that the first line announces, or why the manifest
/// is refused before any record is read.
pub open spec fn declared_count(lines: Seq<Seq<char>>) -> Result<usize, ParseError> {
    if lines.len() == 0 {
        Err(ParseError::Empty)
    } else {
        match usize_of(lines[0]) {
            None => Err(ParseError::InvalidCount),
            Some(count) => if count >= MAX_REPLIES {
                Err(ParseError::CountTooHigh { count })
            } else {
                Ok(count)
            },
        }
    }
}

/// What is wrong with record `j` of a manifest that announces `count`
/// records, if anything is: a line is missing, else the separator is not
/// empty, else the index is no number, else it names no slot.
pub open spec fn record_error(lines: Seq<Seq<char>>, count: usize, j: nat) -> Option<ParseError> {
    let start = record_start(j);
    if lines.len() < start + RECORD_LINES {
        let present = if lines.len() > start {
            (lines.len() - start) as nat
        } else {
            0
        };
        Some(ParseError::MissingLine { field: ManifestField::at(present), reply: j as usize })
    } else if lines[start].len() != 0 {
        Some(ParseError::InvalidSeparator { reply: j as usize })
    } else {
        match usize_of(lines[start + 1]) {
            None => Some(ParseError::InvalidIndex { reply: j as usize }),
            Some(index) => if index >= MAX_REPLIES {
                Some(ParseError::IndexTooHigh { index, count, reply: j as usize })
            } else {
                None
            },
        }
    }
}

/// The first of the records before `n` with something wrong, or `n` where
/// there is none.
pub open spec fn first_bad_record(lines: Seq<Seq<char>>, count: usize, n: nat) -> nat
    decreases n,
{
    if n == 0 {
        0
    } else {
        let j = first_bad_record(lines, count, (n - 1) as nat);
        if j < n - 1 || record_error(lines, count, j) is Some {
            j
        } else {
            n
        }
    }
}

/// How reading a manifest ends: how many records were taken over, and the
/// failure that stopped the reading, if one did.
pub struct Verdict {
    pub applied: nat,
    pub error: Option<ParseError>,
}

/// The verdict on a manifest. Records are taken over in order up to the
/// first with something wrong; a manifest whose first line is refused has
/// none taken over.
pub open spec fn verdict(lines: Seq<Seq<char>>) -> Verdict {
    match declared_count(lines) {
        Err(error) => Verdict { applied: 0, error: Some(error) },
        Ok(count) => {
            let j = first_bad_record(lines, count, count as nat);
            if j < count {
                Verdict { applied: j, error: record_error(lines, count, j) }
            } else {
                Verdict { applied: count as nat, error: None }
            }
        },
    }
}

/// The slot that record `j` fills.
pub open spec fn record_slot(lines: Seq<Seq<char>>, j: nat) -> int {
    usize_of(lines[record_start(j) + 1])->0 as int
}

/// The reply that record `j` describes. It is never queued.
pub open spec fn record_reply(lines: Seq<Seq<char>>, j: nat) -> ReplyView {
    let start = record_start(j);
    ReplyView {
        id: record_slot(lines, j) as nat,
        style: lines[start + 2],
        category: lines[start + 3],
        paraphrase: lines[start + 4],
        text: lines[start + 5],
        queued: false,
    }
}

/// The last of the records before `n` that fills `slot`, if any does.
pub open spec fn last_writer(lines: Seq<Seq<char>>, n: nat, slot: int) -> Option<nat>
    decreases n,
{
    if n == 0 {
        None
    } else if record_slot(lines, (n - 1) as nat) == slot {
        Some((n - 1) as nat)
    } else {
        last_writer(lines, (n - 1) as nat, slot)
    }
}

/// The replies once the records before `n` are taken over: a slot holds the
/// reply of the last record that fills it, and what it held before where no
/// record does.
pub open spec fn replies_after(before: Seq<ReplyView>, lines: Seq<Seq<char>>, n: nat) -> Seq<
    ReplyView,
> {
    Seq::new(
        before.len(),
        |slot: int|
            match last_writer(lines, n, slot) {
                Some(j) => record_reply(lines, j),
                None => before[slot],
            },
    )
}

/// Whether each reply's id is the number of the slot it sits in.
pub open spec fn ids_match_slots(replies: Seq<ReplyView>) -> bool {
    forall|slot: int| 0 <= slot < replies.len() ==> (#[trigger] replies[slot]).id == slot
}

/// `first_bad_record` is `n` exactly where nothing is wrong with any record
/// before `n`; otherwise it names a record with something wrong, before
/// which nothing is.
pub proof fn lemma_first_bad_record(lines: Seq<Seq<char>>, count: usize, n: nat)
    ensures
        first_bad_record(lines, count, n) <= n,
        forall|j: nat|
            j < first_bad_record(lines, count, n) ==> #[trigger] record_error(lines, count, j)
                is None,
        first_bad_record(lines, count, n) < n ==> record_error(
            lines,
            count,
            first_bad_record(lines, count, n),
        ) is Some,
    decreases n,
{
    if n > 0 {
        lemma_first_bad_record(lines, count, (n - 1) as nat);
    }
}

/// Once a record has something wrong, reading further changes nothing.
pub proof fn lemma_first_bad_record_stays(lines: Seq<Seq<char>>, count: usize, j: nat, n: nat)
    requires
        first_bad_record(lines, count, j) == j,
        record_error(lines, count, j) is Some,
        j < n,
    ensures
        first_bad_record(lines, count, n) == j,
    decreases n,
{
    if n > j + 1 {
        lemma_first_bad_record_stays(lines, count, j, (n - 1) as nat);
    }
}

/// `last_writer` names a record before `n` that fills the slot and after
/// which no record before `n` does; it names none only where none fills it.
pub proof fn lemma_last_writer(lines: Seq<Seq<char>>, n: nat, slot: int)
    ensures
        match last_writer(lines, n, slot) {
            Some(j) => j < n && record_slot(lines, j) == slot && forall|i: nat|
                j < i < n ==> #[trigger] record_slot(lines, i) != slot,
            None => forall|i: nat| i < n ==> #[trigger] record_slot(lines, i) != slot,
        },
    decreases n,
{
    if n > 0 {
        lemma_last_writer(lines, (n - 1) as nat, slot);
    }
}

/// Where no two of the records before `n` fill the same slot, each of them
/// is found at its slot, and every other slot holds what it held before.
pub proof fn lemma_distinct_records(before: Seq<ReplyView>, lines: Seq<Seq<char>>, n: nat)
    requires
        forall|i: nat, j: nat|
            i < j < n ==> #[trigger] record_slot(lines, i) != #[trigger] record_slot(lines, j),
        forall|j: nat| j < n ==> 0 <= #[trigger] record_slot(lines, j) < before.len(),
    ensures
        replies_after(before, lines, n).len() == before.len(),
        forall|j: nat|
            j < n ==> replies_after(before, lines, n)[#[trigger] record_slot(lines, j)]
                == record_reply(lines, j),
        forall|slot: int|
            0 <= slot < before.len() && (forall|j: nat|
                j < n ==> #[trigger] record_slot(lines, j) != slot) ==> #[trigger] replies_after(
                before,
                lines,
                n,
            )[slot] == before[slot],
{
    let after = replies_after(before, lines, n);
    assert forall|j: nat| j < n implies after[#[trigger] record_slot(lines, j)] == record_reply(
        lines,
        j,
    ) by {
        lemma_last_writer(lines, n, record_slot(lines, j));
    }
    assert forall|slot: int|
        0 <= slot < before.len() && (forall|j: nat|
            j < n ==> #[trigger] record_slot(lines, j) != slot) implies #[trigger] after[slot]
        == before[slot] by {
        lemma_last_writer(lines, n, slot);
    }
}

/// Taking records over keeps each reply's id equal to the number of its slot.
pub proof fn lemma_ids_match_slots(before: Seq<ReplyView>, lines: Seq<Seq<char>>, n: nat)
    requires
        ids_match_slots(before),
    ensures
        ids_match_slots(replies_after(before, lines, n)),
{
    let after = replies_after(before, lines, n);
    assert forall|slot: int| 0 <= slot < after.len() implies (#[trigger] after[slot]).id
        == slot by {
        lemma_last_writer(lines, n, slot);
    }
}

/// Taking one more record over puts its reply at its slot and leaves the
/// other slots as they were.
pub proof fn lemma_replies_after_step(before: Seq<ReplyView>, lines: Seq<Seq<char>>, n: nat)
    requires
        0 <= record_slot(lines, n) < before.len(),
    ensures
        replies_after(before, lines, n + 1) == replies_after(before, lines, n).update(
            record_slot(lines, n),
            record_reply(lines, n),
        ),
{
    assert(replies_after(before, lines, n + 1) =~= replies_after(before, lines, n).update(
        record_slot(lines, n),
        record_reply(lines, n),
    ));
}

} // verus!
