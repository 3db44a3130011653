//! What can go wrong, and how each failure is worded for the caller.

use vstd::prelude::*;
use vstd::string::*;
use crate::text::{decimal, push_decimal, push_signed_decimal, signed_decimal};

verus! {

/// The three classes of failure that a caller can be told of.
#[derive(Clone, Copy, Debug, PartialEq, Eq, Structural)]
pub enum ErrorKind {
    /// The input does not have the shape of its format.
    Structure,
    /// A number in the input is no number, or is out of range.
    Validation,
    /// The operation does not apply to the state the store is in.
    State,
}

/// The six lines of a reply record in a manifest, in their order.
#[derive(Clone, Copy, Debug, PartialEq, Eq, Structural)]
pub enum ManifestField {
    Separator,
    Index,
    Style,
    Category,
    Paraphrase,
    Text,
}

impl ManifestField {
    /// The field whose line stands at `offset` within a record; the last
    /// field for any offset past it.
    pub open spec fn at(offset: nat) -> ManifestField {
        if offset == 0 {
            ManifestField::Separator
        } else if offset == 1 {
            ManifestField::Index
        } else if offset == 2 {
            ManifestField::Style
        } else if offset == 3 {
            ManifestField::Category
        } else if offset == 4 {
            ManifestField::Paraphrase
        } else {
            ManifestField::Text
        }
    }

    /// The word that messages use for the field.
    pub open spec fn label(self) -> Seq<char> {
        match self {
            ManifestField::Separator => "separator"@,
            ManifestField::Index => "index"@,
            ManifestField::Style => "style"@,
            ManifestField::Category => "category"@,
            ManifestField::Paraphrase => "paraphrase"@,
            ManifestField::Text => "text"@,
        }
    }

    /// The field at the given position within a record.
    pub fn from_offset(offset: usize) -> (field: ManifestField)
        ensures
            field == ManifestField::at(offset as nat),
    {
        if offset == 0 {
            ManifestField::Separator
        } else if offset == 1 {
            ManifestField::Index
        } else if offset == 2 {
            ManifestField::Style
        } else if offset == 3 {
            ManifestField::Category
        } else if offset == 4 {
            ManifestField::Paraphrase
        } else {
            ManifestField::Text
        }
    }

    /// The word that messages use for the field.
    pub fn name(&self) -> (word: &'static str)
        ensures
            word@ == self.label(),
    {
        match self {
            ManifestField::Separator => "separator",
            ManifestField::Index => "index",
            ManifestField::Style => "style",
            ManifestField::Category => "category",
            ManifestField::Paraphrase => "paraphrase",
            ManifestField::Text => "text",
        }
    }
}

/// Why a reply manifest was rejected.
#[derive(Clone, Copy, Debug, PartialEq, Eq, Structural)]
pub enum ParseError {
    /// The manifest has no line at all.
    Empty,
    /// The first line is not a number.
    InvalidCount,
    /// The first line announces more records than a manifest may hold.
    CountTooHigh { count: usize },
    /// The manifest ends before the named line of record `reply`.
    MissingLine { field: ManifestField, reply: usize },
    /// Record `reply` does not start with an empty line.
    InvalidSeparator { reply: usize },
    /// The index line of record `reply` is not a number.
    InvalidIndex { reply: usize },
    /// The index line of record `reply` holds `index`, which names no slot;
    /// `count` is the number of records that the manifest announced.
    IndexTooHigh { index: usize, count: usize, reply: usize },
}

impl ParseError {
    /// The class of the failure.
    pub open spec fn class(self) -> ErrorKind {
        match self {
            ParseError::Empty => ErrorKind::Structure,
            ParseError::InvalidCount => ErrorKind::Validation,
            ParseError::CountTooHigh { .. } => ErrorKind::Validation,
            ParseError::MissingLine { .. } => ErrorKind::Structure,
            ParseError::InvalidSeparator { .. } => ErrorKind::Structure,
            ParseError::InvalidIndex { .. } => ErrorKind::Validation,
            ParseError::IndexTooHigh { .. } => ErrorKind::Validation,
        }
    }

    /// The wording of the failure.
    pub open spec fn wording(self) -> Seq<char> {
        match self {
            ParseError::Empty => "too few lines in reply manifest"@,
            ParseError::InvalidCount => "invalid count line"@,
            ParseError::CountTooHigh { count } => "reply count too high: "@ + decimal(count as nat),
            ParseError::MissingLine { field, reply } => "failed to pop "@ + field.label()
                + " line for reply "@ + decimal(reply as nat),
            ParseError::InvalidSeparator { reply } => "invalid separator line for reply "@
                + decimal(reply as nat),
            ParseError::InvalidIndex { reply } => "invalid index line for reply "@ + decimal(
                reply as nat,
            ),
            ParseError::IndexTooHigh { count, reply, .. } => "reply index too high ("@ + decimal(
                count as nat,
            ) + ") for reply "@ + decimal(reply as nat),
        }
    }

    /// The class of the failure.
    pub fn kind(&self) -> (kind: ErrorKind)
        ensures
            kind == self.class(),
    {
        match self {
            ParseError::Empty => ErrorKind::Structure,
            ParseError::InvalidCount => ErrorKind::Validation,
            ParseError::CountTooHigh { .. } => ErrorKind::Validation,
            ParseError::MissingLine { .. } => ErrorKind::Structure,
            ParseError::InvalidSeparator { .. } => ErrorKind::Structure,
            ParseError::InvalidIndex { .. } => ErrorKind::Validation,
            ParseError::IndexTooHigh { .. } => ErrorKind::Validation,
        }
    }

    /// The failure in words, as the caller is told of it.
    pub fn message(&self) -> (words: String)
        ensures
            words@ == self.wording(),
    {
        match self {
            ParseError::Empty => "too few lines in reply manifest".to_owned(),
            ParseError::InvalidCount => "invalid count line".to_owned(),
            ParseError::CountTooHigh { count } => {
                let mut words = "reply count too high: ".to_owned();
                push_decimal(&mut words, *count as u64);
                words
            },
            ParseError::MissingLine { field, reply } => {
                let mut words = "failed to pop ".to_owned();
                words.append(field.name());
                words.append(" line for reply ");
                push_decimal(&mut words, *reply as u64);
                words
            },
            ParseError::InvalidSeparator { reply } => {
                let mut words = "invalid separator line for reply ".to_owned();
                push_decimal(&mut words, *reply as u64);
                words
            },
            ParseError::InvalidIndex { reply } => {
                let mut words = "invalid index line for reply ".to_owned();
                push_decimal(&mut words, *reply as u64);
                words
            },
            ParseError::IndexTooHigh { count, reply, .. } => {
                let mut words = "reply index too high (".to_owned();
                push_decimal(&mut words, *count as u64);
                words.append(") for reply ");
                push_decimal(&mut words, *reply as u64);
                words
            },
        }
    }
}

/// Why the store refused an operation.
#[derive(Clone, Copy, Debug, PartialEq, Eq, Structural)]
pub enum StoreError {
    /// The reply manifest was rejected.
    Manifest(ParseError),
    /// The index of the reply to queue is not a number.
    InvalidIndex,
    /// The index of the reply to queue names no slot.
    IndexOutOfBounds { index: i32 },
    /// There is no conversation to queue a reply in.
    NotStarted,
    /// The key bindings are not one per slot.
    InvalidKeybindCount,
}

impl StoreError {
    /// The class of the failure.
    pub open spec fn class(self) -> ErrorKind {
        match self {
            StoreError::Manifest(cause) => cause.class(),
            StoreError::InvalidIndex => ErrorKind::Validation,
            StoreError::IndexOutOfBounds { .. } => ErrorKind::Validation,
            StoreError::NotStarted => ErrorKind::State,
            StoreError::InvalidKeybindCount => ErrorKind::Structure,
        }
    }

    /// The wording of the failure.
    pub open spec fn wording(self) -> Seq<char> {
        match self {
            StoreError::Manifest(cause) => cause.wording(),
            StoreError::InvalidIndex => "invalid index integer"@,
            StoreError::IndexOutOfBounds { index } => "index "@ + signed_decimal(index as int)
                + " out of bounds"@,
            StoreError::NotStarted => "conversation not started"@,
            StoreError::InvalidKeybindCount => "invalid keybind count"@,
        }
    }

    /// The class of the failure.
    pub fn kind(&self) -> (kind: ErrorKind)
        ensures
            kind == self.class(),
    {
        match self {
            StoreError::Manifest(cause) => cause.kind(),
            StoreError::InvalidIndex => ErrorKind::Validation,
            StoreError::IndexOutOfBounds { .. } => ErrorKind::Validation,
            StoreError::NotStarted => ErrorKind::State,
            StoreError::InvalidKeybindCount => ErrorKind::Structure,
        }
    }

    /// The failure in words, as the caller is told of it.
    pub fn message(&self) -> (words: String)
        ensures
            words@ == self.wording(),
    {
        match self {
            StoreError::Manifest(cause) => cause.message(),
            StoreError::InvalidIndex => "invalid index integer".to_owned(),
            StoreError::IndexOutOfBounds { index } => {
                let mut words = "index ".to_owned();
                push_signed_decimal(&mut words, *index as i64);
                words.append(" out of bounds");
                words
            },
            StoreError::NotStarted => "conversation not started".to_owned(),
            StoreError::InvalidKeybindCount => "invalid keybind count".to_owned(),
        }
    }
}

impl From<ParseError> for StoreError {
    fn from(cause: ParseError) -> (error: StoreError) {
        StoreError::Manifest(cause)
    }
}

impl vstd::std_specs::convert::FromSpecImpl<ParseError> for StoreError {
    open spec fn obeys_from_spec() -> bool {
        true
    }

    open spec fn from_spec(cause: ParseError) -> StoreError {
        StoreError::Manifest(cause)
    }
}

/// A failed operation as a request handler reports it: every failure is
/// answered with the same status and the failure's wording.
#[derive(Clone, Copy, Debug, PartialEq, Eq, Structural)]
pub struct HandlerError(pub StoreError);

impl HandlerError {
    /// The status that answers a failed request.
    pub fn status(&self) -> (code: u16)
        ensures
            code == 500,
    {
        500
    }

    /// The text that answers a failed request.
    pub fn message(&self) -> (words: String)
        ensures
            words@ == self.0.wording(),
    {
        self.0.message()
    }
}

impl From<StoreError> for HandlerError {
    fn from(cause: StoreError) -> (error: HandlerError) {
        HandlerError(cause)
    }
}

impl vstd::std_specs::convert::FromSpecImpl<StoreError> for HandlerError {
    open spec fn obeys_from_spec() -> bool {
        true
    }

    open spec fn from_spec(cause: StoreError) -> HandlerError {
        HandlerError(cause)
    }
}

} // verus!
