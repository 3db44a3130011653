//! Text primitives: whitespace, trimming, splitting and decimal numbers,
//! all stated over sequences of characters.

use vstd::prelude::*;
use vstd::string::*;

verus! {

/// Whether `c` is white space: one of the characters that Unicode marks `White_Space`.
pub open spec fn is_space(c: char) -> bool {
    let n = c as int;
    ||| 0x09 <= n <= 0x0D
    ||| n == 0x20
    ||| n == 0x85
    ||| n == 0xA0
    ||| n == 0x1680
    ||| 0x2000 <= n <= 0x200A
    ||| n == 0x2028
    ||| n == 0x2029
    ||| n == 0x202F
    ||| n == 0x205F
    ||| n == 0x3000
}

/// Number of white-space characters at the start of `s`.
pub open spec fn leading_spaces(s: Seq<char>) -> nat
    decreases s.len(),
{
    if s.len() > 0 && is_space(s[0]) {
        1 + leading_spaces(s.drop_first())
    } else {
        0
    }
}

/// Number of white-space characters at the end of `s`.
pub open spec fn trailing_spaces(s: Seq<char>) -> nat
    decreases s.len(),
{
    if s.len() > 0 && is_space(s.last()) {
        1 + trailing_spaces(s.drop_last())
    } else {
        0
    }
}

/// `s` without the white space at its start and at its end.
pub open spec fn trimmed(s: Seq<char>) -> Seq<char> {
    let rest = s.skip(leading_spaces(s) as int);
    rest.take(rest.len() - trailing_spaces(rest))
}

/// Tells whether `c` is white space.
pub fn is_whitespace(c: char) -> (b: bool)
    ensures
        b == is_space(c),
{
    let n: u32 = c as u32;
    (0x09 <= n && n <= 0x0D) || n == 0x20 || n == 0x85 || n == 0xA0 || n == 0x1680 || (0x2000 <= n
        && n <= 0x200A) || n == 0x2028 || n == 0x2029 || n == 0x202F || n == 0x205F || n == 0x3000
}

/// A half-open range of positions in a text.
#[derive(Clone, Copy, Debug, PartialEq, Eq, Structural)]
pub struct Span {
    pub start: usize,
    pub end: usize,
}

impl Span {
    /// Whether the span lies inside a text of `len` characters.
    pub open spec fn fits(self, len: nat) -> bool {
        self.start <= self.end <= len
    }

    /// The characters of `text` that the span covers.
    pub open spec fn of(self, text: Seq<char>) -> Seq<char> {
        text.subrange(self.start as int, self.end as int)
    }
}

proof fn lemma_leading_step(text: Seq<char>, a: int, b: int)
    requires
        0 <= a < b <= text.len(),
        is_space(text[a]),
    ensures
        leading_spaces(text.subrange(a, b)) == 1 + leading_spaces(text.subrange(a + 1, b)),
{
    assert(text.subrange(a, b).drop_first() =~= text.subrange(a + 1, b));
}

proof fn lemma_trailing_step(text: Seq<char>, a: int, b: int)
    requires
        0 <= a < b <= text.len(),
        is_space(text[b - 1]),
    ensures
        trailing_spaces(text.subrange(a, b)) == 1 + trailing_spaces(text.subrange(a, b - 1)),
{
    assert(text.subrange(a, b).drop_last() =~= text.subrange(a, b - 1));
}

/// The white space counted at the start of `s` is white space, and what
/// follows it is not.
pub proof fn lemma_leading_spaces(s: Seq<char>)
    ensures
        leading_spaces(s) <= s.len(),
        forall|i: int| 0 <= i < leading_spaces(s) ==> is_space(#[trigger] s[i]),
        leading_spaces(s) < s.len() ==> !is_space(s[leading_spaces(s) as int]),
    decreases s.len(),
{
    if s.len() > 0 && is_space(s[0]) {
        let rest = s.drop_first();
        lemma_leading_spaces(rest);
        assert forall|i: int| 0 <= i < leading_spaces(s) implies is_space(#[trigger] s[i]) by {
            if i > 0 {
                assert(s[i] == rest[i - 1]);
            }
        }
        if leading_spaces(s) < s.len() {
            assert(s[leading_spaces(s) as int] == rest[leading_spaces(rest) as int]);
        }
    }
}

/// The white space counted at the end of `s` is white space, and what
/// precedes it is not.
pub proof fn lemma_trailing_spaces(s: Seq<char>)
    ensures
        trailing_spaces(s) <= s.len(),
        forall|i: int| s.len() - trailing_spaces(s) <= i < s.len() ==> is_space(#[trigger] s[i]),
        trailing_spaces(s) < s.len() ==> !is_space(s[s.len() - trailing_spaces(s) - 1]),
    decreases s.len(),
{
    if s.len() > 0 && is_space(s.last()) {
        let rest = s.drop_last();
        lemma_trailing_spaces(rest);
        assert forall|i: int| s.len() - trailing_spaces(s) <= i < s.len() implies is_space(
            #[trigger] s[i],
        ) by {
            if i < s.len() - 1 {
                assert(s[i] == rest[i]);
            }
        }
        if trailing_spaces(s) < s.len() {
            assert(s[s.len() - trailing_spaces(s) - 1] == rest[rest.len() - trailing_spaces(rest)
                - 1]);
        }
    }
}

/// Trimming takes white space away, and nothing else, from both ends: what
/// is left stands in `s` between white space only, and neither begins nor
/// ends with white space.
pub proof fn lemma_trimmed(s: Seq<char>)
    ensures
        leading_spaces(s) + trimmed(s).len() <= s.len(),
        trimmed(s) == s.subrange(
            leading_spaces(s) as int,
            (leading_spaces(s) + trimmed(s).len()) as int,
        ),
        forall|i: int| 0 <= i < leading_spaces(s) ==> is_space(#[trigger] s[i]),
        forall|i: int|
            leading_spaces(s) + trimmed(s).len() <= i < s.len() ==> is_space(#[trigger] s[i]),
        trimmed(s).len() > 0 ==> !is_space(trimmed(s).first()) && !is_space(trimmed(s).last()),
{
    let a = leading_spaces(s);
    lemma_leading_spaces(s);
    let rest = s.skip(a as int);
    lemma_trailing_spaces(rest);
    let kept = rest.len() - trailing_spaces(rest);
    assert(trimmed(s) =~= s.subrange(a as int, a + kept));
    assert forall|i: int| a + kept <= i < s.len() implies is_space(#[trigger] s[i]) by {
        assert(s[i] == rest[i - a]);
    }
    if kept > 0 {
        assert(trimmed(s).first() == s[a as int]);
        assert(trimmed(s).last() == rest[kept - 1]);
    }
}

/// Narrows `span` to what is left of it once surrounding white space is gone.
pub fn trim(text: &[char], span: Span) -> (inner: Span)
    requires
        span.fits(text@.len()),
    ensures
        inner.fits(text@.len()),
        span.start <= inner.start,
        inner.end <= span.end,
        inner.of(text@) == trimmed(span.of(text@)),
{
    let mut a: usize = span.start;
    while a < span.end && is_whitespace(text[a])
        invariant
            span.fits(text@.len()),
            span.start <= a <= span.end,
            leading_spaces(span.of(text@)) == (a - span.start) + leading_spaces(
                text@.subrange(a as int, span.end as int),
            ),
        decreases span.end - a,
    {
        proof {
            lemma_leading_step(text@, a as int, span.end as int);
        }
        a = a + 1;
    }
    let mut b: usize = span.end;
    while a < b && is_whitespace(text[b - 1])
        invariant
            span.fits(text@.len()),
            span.start <= a <= b <= span.end,
            trailing_spaces(text@.subrange(a as int, span.end as int)) == (span.end - b)
                + trailing_spaces(text@.subrange(a as int, b as int)),
        decreases b - a,
    {
        proof {
            lemma_trailing_step(text@, a as int, b as int);
        }
        b = b - 1;
    }
    proof {
        let whole = span.of(text@);
        let rest = whole.skip(leading_spaces(whole) as int);
        assert(rest =~= text@.subrange(a as int, span.end as int));
        assert(rest.take(rest.len() - trailing_spaces(rest)) =~= text@.subrange(
            a as int,
            b as int,
        ));
    }
    Span { start: a, end: b }
}

/// Position of the first `delim` in `s`, or the length of `s` where it holds none.
pub open spec fn first_index_of(s: Seq<char>, delim: char) -> nat
    decreases s.len(),
{
    if s.len() == 0 || s[0] == delim {
        0
    } else {
        1 + first_index_of(s.drop_first(), delim)
    }
}

/// The pieces of `s` between occurrences of `delim`, in order. There is always
/// one piece more than there are delimiters, so an empty text is one empty piece.
pub open spec fn split(s: Seq<char>, delim: char) -> Seq<Seq<char>>
    decreases s.len(),
{
    let k = first_index_of(s, delim);
    if k >= s.len() {
        seq![s]
    } else {
        seq![s.take(k as int)] + split(s.skip(k as int + 1), delim)
    }
}

/// The lines of `s`: its pieces between line feeds, without the empty piece
/// that follows a final line feed. An empty text has no lines.
pub open spec fn lines(s: Seq<char>) -> Seq<Seq<char>> {
    let pieces = split(s, '\n');
    if pieces.last().len() == 0 {
        pieces.drop_last()
    } else {
        pieces
    }
}

/// The lines of `s`, each without its surrounding white space.
pub open spec fn trimmed_lines(s: Seq<char>) -> Seq<Seq<char>> {
    lines(s).map_values(|line: Seq<char>| trimmed(line))
}

/// The texts that `spans` cover, in order.
pub open spec fn texts_of(spans: Seq<Span>, text: Seq<char>) -> Seq<Seq<char>> {
    spans.map_values(|span: Span| span.of(text))
}

/// Whether every span lies inside a text of `len` characters.
pub open spec fn all_fit(spans: Seq<Span>, len: nat) -> bool {
    forall|i: int| 0 <= i < spans.len() ==> (#[trigger] spans[i]).fits(len)
}

/// `first_index_of` is the position that holds `delim` and has none before it.
pub proof fn lemma_first_index_of(s: Seq<char>, delim: char, k: int)
    requires
        0 <= k <= s.len(),
        forall|i: int| 0 <= i < k ==> s[i] != delim,
        k < s.len() ==> s[k] == delim,
    ensures
        first_index_of(s, delim) == k,
    decreases s.len(),
{
    if k > 0 {
        let rest = s.drop_first();
        assert forall|i: int| 0 <= i < k - 1 implies rest[i] != delim by {
            assert(rest[i] == s[i + 1]);
        }
        lemma_first_index_of(rest, delim, k - 1);
    }
}

/// A text always splits into at least one piece.
pub proof fn lemma_split_nonempty(s: Seq<char>, delim: char)
    ensures
        split(s, delim).len() >= 1,
    decreases s.len(),
{
    let k = first_index_of(s, delim);
    if k < s.len() {
        lemma_split_nonempty(s.skip(k as int + 1), delim);
    }
}

/// Number of times that `delim` occurs in `s`.
pub open spec fn occurrences(s: Seq<char>, delim: char) -> nat
    decreases s.len(),
{
    if s.len() == 0 {
        0
    } else if s[0] == delim {
        1 + occurrences(s.drop_first(), delim)
    } else {
        occurrences(s.drop_first(), delim)
    }
}

/// A text splits into one piece more than it holds delimiters.
pub proof fn lemma_split_count(s: Seq<char>, delim: char)
    ensures
        split(s, delim).len() == occurrences(s, delim) + 1,
    decreases s.len(),
{
    if s.len() > 0 {
        let rest = s.drop_first();
        lemma_split_count(rest, delim);
        if s[0] == delim {
            assert(s.skip(1) =~= rest);
        } else {
            let k = first_index_of(rest, delim);
            if k < rest.len() {
                assert(s.skip(k as int + 2) =~= rest.skip(k as int + 1));
            }
        }
    }
}

/// No piece of a split text holds the delimiter.
pub proof fn lemma_split_pieces(s: Seq<char>, delim: char)
    ensures
        forall|i: int, j: int|
            0 <= i < split(s, delim).len() && 0 <= j < split(s, delim)[i].len() ==> #[trigger] split(
                s,
                delim,
            )[i][j] != delim,
    decreases s.len(),
{
    let k = first_index_of(s, delim);
    let pieces = split(s, delim);
    lemma_first_index_is_first(s, delim);
    if k < s.len() {
        let tail = split(s.skip(k as int + 1), delim);
        lemma_split_pieces(s.skip(k as int + 1), delim);
        assert forall|i: int, j: int|
            0 <= i < pieces.len() && 0 <= j < pieces[i].len() implies #[trigger] pieces[i][j]
            != delim by {
            if i == 0 {
                assert(pieces[0][j] == s[j]);
            } else {
                assert(pieces[i] == tail[i - 1]);
            }
        }
    } else {
        assert forall|i: int, j: int|
            0 <= i < pieces.len() && 0 <= j < pieces[i].len() implies #[trigger] pieces[i][j]
            != delim by {
            assert(pieces[0][j] == s[j]);
        }
    }
}

/// Before the position that `first_index_of` gives there is no `delim`, and
/// at that position, where it is one of `s`, there is.
pub proof fn lemma_first_index_is_first(s: Seq<char>, delim: char)
    ensures
        first_index_of(s, delim) <= s.len(),
        forall|i: int| 0 <= i < first_index_of(s, delim) ==> #[trigger] s[i] != delim,
        first_index_of(s, delim) < s.len() ==> s[first_index_of(s, delim) as int] == delim,
    decreases s.len(),
{
    if s.len() > 0 && s[0] != delim {
        let rest = s.drop_first();
        lemma_first_index_is_first(rest, delim);
        assert forall|i: int| 0 <= i < first_index_of(s, delim) implies #[trigger] s[i]
            != delim by {
            if i > 0 {
                assert(s[i] == rest[i - 1]);
            }
        }
        if first_index_of(s, delim) < s.len() {
            assert(s[first_index_of(s, delim) as int] == rest[first_index_of(rest, delim) as int]);
        }
    }
}

/// Cuts `text` at every `delim` and returns the spans of the pieces.
pub fn split_spans(text: &[char], delim: char) -> (spans: Vec<Span>)
    ensures
        all_fit(spans@, text@.len()),
        texts_of(spans@, text@) == split(text@, delim),
{
    let mut spans: Vec<Span> = Vec::new();
    let mut start: usize = 0;
    let mut i: usize = 0;
    proof {
        assert(text@.skip(0) =~= text@);
        assert(texts_of(spans@, text@) + split(text@, delim) =~= split(text@, delim));
    }
    while i < text.len()
        invariant
            start <= i <= text@.len(),
            all_fit(spans@, text@.len()),
            forall|j: int| start <= j < i ==> text@[j] != delim,
            texts_of(spans@, text@) + split(text@.skip(start as int), delim) == split(
                text@,
                delim,
            ),
        decreases text@.len() - i,
    {
        if text[i] == delim {
            proof {
                let tail = text@.skip(start as int);
                lemma_first_index_of(tail, delim, i - start);
                assert(tail.take(i - start) =~= text@.subrange(start as int, i as int));
                assert(tail.skip(i - start + 1) =~= text@.skip(i + 1));
                let piece = Span { start, end: i };
                assert(texts_of(spans@.push(piece), text@) =~= texts_of(spans@, text@) + seq![
                    piece.of(text@),
                ]);
            }
            spans.push(Span { start, end: i });
            start = i + 1;
        }
        i = i + 1;
    }
    proof {
        let tail = text@.skip(start as int);
        lemma_first_index_of(tail, delim, i - start);
        let piece = Span { start, end: i };
        assert(tail =~= piece.of(text@));
        assert(texts_of(spans@.push(piece), text@) =~= texts_of(spans@, text@) + seq![
            piece.of(text@),
        ]);
    }
    spans.push(Span { start, end: i });
    spans
}

/// Returns the spans of the lines of `text`, each trimmed of surrounding white space.
pub fn line_spans(text: &[char]) -> (spans: Vec<Span>)
    ensures
        all_fit(spans@, text@.len()),
        texts_of(spans@, text@) == trimmed_lines(text@),
{
    let mut spans = split_spans(text, '\n');
    proof {
        lemma_split_nonempty(text@, '\n');
    }
    let last = spans[spans.len() - 1];
    if last.start == last.end {
        spans.pop();
        proof {
            assert(texts_of(spans@, text@) =~= lines(text@));
        }
    }
    let n = spans.len();
    let mut i: usize = 0;
    while i < n
        invariant
            n == spans@.len(),
            i <= n,
            spans@.len() == lines(text@).len(),
            all_fit(spans@, text@.len()),
            forall|j: int| 0 <= j < i ==> (#[trigger] spans@[j]).of(text@) == trimmed(lines(text@)[j]),
            forall|j: int| i <= j < n ==> (#[trigger] spans@[j]).of(text@) == lines(text@)[j],
        decreases n - i,
    {
        let inner = trim(text, spans[i]);
        spans.set(i, inner);
        i = i + 1;
    }
    proof {
        assert(texts_of(spans@, text@) =~= trimmed_lines(text@));
    }
    spans
}

/// Whether `c` is one of the ten decimal digits.
pub open spec fn is_digit(c: char) -> bool {
    0x30 <= c as int <= 0x39
}

/// The number that the decimal digit `c` stands for.
pub open spec fn digit_value(c: char) -> nat {
    (c as int - 0x30) as nat
}

/// Whether `s` holds decimal digits only.
pub open spec fn all_digits(s: Seq<char>) -> bool {
    forall|i: int| 0 <= i < s.len() ==> is_digit(#[trigger] s[i])
}

/// The number that the digits of `s` write in base ten; 0 for no digits.
pub open spec fn digits_value(s: Seq<char>) -> nat
    decreases s.len(),
{
    if s.len() == 0 {
        0
    } else {
        10 * digits_value(s.drop_last()) + digit_value(s.last())
    }
}

/// The number that `s` writes as one or more decimal digits.
pub open spec fn plain_value(s: Seq<char>) -> Option<nat> {
    if s.len() > 0 && all_digits(s) {
        Some(digits_value(s))
    } else {
        None
    }
}

/// The number that `s` writes without a minus sign: decimal digits, which a
/// single `+` may precede.
pub open spec fn unsigned_value(s: Seq<char>) -> Option<nat> {
    if s.len() > 0 && s[0] == '+' {
        plain_value(s.skip(1))
    } else {
        plain_value(s)
    }
}

/// The number that `s` writes: decimal digits, which a single `+` or `-` may precede.
pub open spec fn signed_value(s: Seq<char>) -> Option<int> {
    if s.len() > 0 && s[0] == '-' {
        match plain_value(s.skip(1)) {
            Some(v) => Some(-(v as int)),
            None => None,
        }
    } else {
        match unsigned_value(s) {
            Some(v) => Some(v as int),
            None => None,
        }
    }
}

/// The `usize` that `s` writes, if it writes a number that fits.
pub open spec fn usize_of(s: Seq<char>) -> Option<usize> {
    match unsigned_value(s) {
        Some(v) => if v <= usize::MAX {
            Some(v as usize)
        } else {
            None
        },
        None => None,
    }
}

/// The `i32` that `s` writes, if it writes a number that fits.
pub open spec fn i32_of(s: Seq<char>) -> Option<i32> {
    match signed_value(s) {
        Some(v) => if i32::MIN <= v <= i32::MAX {
            Some(v as i32)
        } else {
            None
        },
        None => None,
    }
}

/// Digits written after others can only make the number larger.
pub proof fn lemma_digits_value_prefix(s: Seq<char>, k: int)
    requires
        0 <= k <= s.len(),
    ensures
        digits_value(s.take(k)) <= digits_value(s),
    decreases s.len(),
{
    if k == s.len() {
        assert(s.take(k) =~= s);
    } else {
        assert(s.drop_last().take(k) =~= s.take(k));
        lemma_digits_value_prefix(s.drop_last(), k);
    }
}

/// The value of `c` as a decimal digit, if it is one.
pub fn digit_of(c: char) -> (d: Option<u8>)
    ensures
        d == if is_digit(c) {
            Some(digit_value(c) as u8)
        } else {
            None::<u8>
        },
{
    let n: u32 = c as u32;
    if 0x30 <= n && n <= 0x39 {
        Some((n - 0x30) as u8)
    } else {
        None
    }
}

/// Reads the digits that `span` covers as a number no larger than `limit`.
pub fn parse_digits(text: &[char], span: Span, limit: u64) -> (value: Option<u64>)
    requires
        span.fits(text@.len()),
    ensures
        value == match plain_value(span.of(text@)) {
            Some(v) => if v <= limit {
                Some(v as u64)
            } else {
                None
            },
            None => None,
        },
{
    if span.start == span.end {
        return None;
    }
    let ghost whole = span.of(text@);
    let mut acc: u64 = 0;
    let mut i: usize = span.start;
    while i < span.end
        invariant
            span.fits(text@.len()),
            span.start <= i <= span.end,
            whole == span.of(text@),
            all_digits(whole.take(i - span.start)),
            acc == digits_value(whole.take(i - span.start)),
            acc <= limit,
        decreases span.end - i,
    {
        let c = text[i];
        let d = match digit_of(c) {
            Some(d) => d,
            None => {
                proof {
                    assert(whole[i - span.start] == c);
                }
                return None;
            },
        };
        let next: u128 = acc as u128 * 10 + d as u128;
        proof {
            let before = whole.take(i - span.start);
            let after = whole.take(i - span.start + 1);
            assert(after.drop_last() =~= before);
            assert(after.last() == c);
            assert forall|j: int| 0 <= j < after.len() implies is_digit(#[trigger] after[j]) by {
                if j < before.len() {
                    assert(after[j] == before[j]);
                }
            }
        }
        if next > limit as u128 {
            proof {
                lemma_digits_value_prefix(whole, i - span.start + 1);
            }
            return None;
        }
        acc = next as u64;
        i = i + 1;
    }
    proof {
        assert(whole.take(i - span.start) =~= whole);
    }
    Some(acc)
}

/// Reads what `span` covers as a `usize`.
pub fn parse_usize(text: &[char], span: Span) -> (value: Option<usize>)
    requires
        span.fits(text@.len()),
    ensures
        value == usize_of(span.of(text@)),
{
    let ghost whole = span.of(text@);
    let digits = if span.start < span.end && text[span.start] == '+' {
        proof {
            assert(whole[0] == '+');
            assert(whole.skip(1) =~= text@.subrange(span.start + 1, span.end as int));
        }
        Span { start: span.start + 1, end: span.end }
    } else {
        proof {
            if whole.len() > 0 {
                assert(whole[0] == text@[span.start as int]);
            }
        }
        span
    };
    match parse_digits(text, digits, usize::MAX as u64) {
        Some(v) => Some(v as usize),
        None => None,
    }
}

/// Reads what `span` covers as an `i32`.
pub fn parse_i32(text: &[char], span: Span) -> (value: Option<i32>)
    requires
        span.fits(text@.len()),
    ensures
        value == i32_of(span.of(text@)),
{
    let ghost whole = span.of(text@);
    if span.start < span.end && text[span.start] == '-' {
        proof {
            assert(whole[0] == '-');
            assert(whole.skip(1) =~= text@.subrange(span.start + 1, span.end as int));
        }
        let digits = Span { start: span.start + 1, end: span.end };
        match parse_digits(text, digits, 2147483648) {
            Some(v) => if v == 2147483648 {
                Some(i32::MIN)
            } else {
                Some(-(v as i32))
            },
            None => None,
        }
    } else {
        let digits = if span.start < span.end && text[span.start] == '+' {
            proof {
                assert(whole[0] == '+');
                assert(whole.skip(1) =~= text@.subrange(span.start + 1, span.end as int));
            }
            Span { start: span.start + 1, end: span.end }
        } else {
            proof {
                if whole.len() > 0 {
                    assert(whole[0] == text@[span.start as int]);
                }
            }
            span
        };
        match parse_digits(text, digits, 2147483647) {
            Some(v) => Some(v as i32),
            None => None,
        }
    }
}

/// The decimal digit that writes `d`.
pub open spec fn digit_char(d: nat) -> char {
    (0x30 + d) as char
}

/// `n` written in base ten, without leading zeros.
pub open spec fn decimal(n: nat) -> Seq<char>
    decreases n,
{
    if n < 10 {
        seq![digit_char(n)]
    } else {
        decimal(n / 10).push(digit_char(n % 10))
    }
}

/// `i` written in base ten, with a `-` in front where it is negative.
pub open spec fn signed_decimal(i: int) -> Seq<char> {
    if i < 0 {
        seq!['-'] + decimal((-i) as nat)
    } else {
        decimal(i as nat)
    }
}

/// What is written by `decimal` reads back as the same number.
pub proof fn lemma_decimal_reads_back(n: nat)
    ensures
        decimal(n).len() > 0,
        all_digits(decimal(n)),
        digits_value(decimal(n)) == n,
        unsigned_value(decimal(n)) == Some(n),
    decreases n,
{
    let last = digit_char(n % 10);
    assert(is_digit(last) && digit_value(last) == n % 10);
    assert(decimal(n).last() == last);
    if n < 10 {
        assert(decimal(n).drop_last() =~= Seq::<char>::empty());
        assert(digits_value(Seq::<char>::empty()) == 0);
    } else {
        lemma_decimal_reads_back(n / 10);
        assert(decimal(n).drop_last() =~= decimal(n / 10));
    }
    assert(is_digit(decimal(n)[0]));
}

/// What is written by `signed_decimal` reads back as the same number.
pub proof fn lemma_signed_decimal_reads_back(i: int)
    ensures
        signed_value(signed_decimal(i)) == Some(i),
{
    if i < 0 {
        lemma_decimal_reads_back((-i) as nat);
        assert(signed_decimal(i).skip(1) =~= decimal((-i) as nat));
    } else {
        lemma_decimal_reads_back(i as nat);
        assert(is_digit(decimal(i as nat)[0]));
    }
}

fn digit_text(d: u64) -> (s: &'static str)
    requires
        d < 10,
    ensures
        s@ == seq![digit_char(d as nat)],
{
    proof {
        reveal_strlit("0");
        reveal_strlit("1");
        reveal_strlit("2");
        reveal_strlit("3");
        reveal_strlit("4");
        reveal_strlit("5");
        reveal_strlit("6");
        reveal_strlit("7");
        reveal_strlit("8");
        reveal_strlit("9");
    }
    let s = if d == 0 {
        "0"
    } else if d == 1 {
        "1"
    } else if d == 2 {
        "2"
    } else if d == 3 {
        "3"
    } else if d == 4 {
        "4"
    } else if d == 5 {
        "5"
    } else if d == 6 {
        "6"
    } else if d == 7 {
        "7"
    } else if d == 8 {
        "8"
    } else {
        "9"
    };
    assert(s@ =~= seq![digit_char(d as nat)]);
    s
}

/// Appends `n`, written in base ten, to `out`.
pub fn push_decimal(out: &mut String, n: u64)
    ensures
        final(out)@ == old(out)@ + decimal(n as nat),
    decreases n,
{
    if n >= 10 {
        push_decimal(out, n / 10);
    }
    out.append(digit_text(n % 10));
    proof {
        if n >= 10 {
            assert(old(out)@ + decimal((n / 10) as nat) + seq![digit_char((n % 10) as nat)]
                =~= old(out)@ + decimal(n as nat));
        }
    }
}

/// Appends `i`, written in base ten, to `out`.
pub fn push_signed_decimal(out: &mut String, i: i64)
    ensures
        final(out)@ == old(out)@ + signed_decimal(i as int),
{
    if i < 0 {
        proof {
            reveal_strlit("-");
        }
        out.append("-");
        let magnitude: u64 = if i == i64::MIN {
            9223372036854775808
        } else {
            (-i) as u64
        };
        push_decimal(out, magnitude);
        proof {
            assert("-"@ =~= seq!['-']);
            assert(old(out)@ + "-"@ + decimal(magnitude as nat) =~= old(out)@ + signed_decimal(
                i as int,
            ));
        }
    } else {
        push_decimal(out, i as u64);
    }
}

/// The characters of `s`, one by one.
pub fn chars_of(s: &str) -> (chars: Vec<char>)
    ensures
        chars@ == s@,
{
    let mut chars: Vec<char> = Vec::new();
    for c in it: s.chars()
        invariant
            chars@ == it.seq().take(it.index() as int),
    {
        chars.push(c);
    }
    chars
}

/// The part of `source` that `span` covers, as a string of its own.
pub fn text_of(source: &str, span: Span) -> (piece: String)
    requires
        span.fits(source@.len()),
    ensures
        piece@ == span.of(source@),
{
    source.substring_char(span.start, span.end).to_owned()
}

} // verus!
