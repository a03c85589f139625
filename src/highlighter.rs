use vstd::prelude::*;
use vstd::utf8::encode_utf8;

use regex::Regex;

use crate::colour::{reset_code, reset_sequence};
use crate::error::HighlightError;

verus! {

#[verifier::external_type_specification]
#[verifier::external_body]
pub struct ExRegex(regex::Regex);

#[verifier::external_type_specification]
#[verifier::external_body]
pub struct ExRegexError(regex::Error);

/// Whether `regex::Regex::new` accepts a pattern.
pub uninterp spec fn compiles(pattern: Seq<char>) -> bool;

/// The byte spans `(start, end)` of the matches that `regex::Regex::find_iter`
/// reports for a pattern in a haystack, in the order reported.
pub uninterp spec fn match_spans(pattern: Seq<char>, text: Seq<char>) -> Seq<(usize, usize)>;

/// The spans lie inside a text of `len` bytes, each runs forwards, and each
/// ends no later than the next one starts.
pub open spec fn spans_fit(spans: Seq<(usize, usize)>, len: nat) -> bool {
    &&& forall|i: int| 0 <= i < spans.len() ==> #[trigger] spans[i].0 <= spans[i].1 <= len
    &&& forall|i: int, j: int|
        0 <= i < j < spans.len() ==> #[trigger] spans[i].1 <= #[trigger] spans[j].0
}

/// Where the unmatched text before span `k` starts (for `k == spans.len()`,
/// the text after the last span).
pub open spec fn gap_start(spans: Seq<(usize, usize)>, k: int) -> int {
    if k <= 0 {
        0
    } else {
        spans[k - 1].1 as int
    }
}

/// The first `k` spans of `text` with their gaps, each span put between
/// `open` and `close`.
pub open spec fn marked_prefix(
    text: Seq<u8>,
    spans: Seq<(usize, usize)>,
    open: Seq<u8>,
    close: Seq<u8>,
    k: nat,
) -> Seq<u8>
    decreases k,
{
    if k == 0 {
        seq![]
    } else {
        let s = spans[k - 1];
        marked_prefix(text, spans, open, close, (k - 1) as nat) + text.subrange(
            gap_start(spans, k - 1),
            s.0 as int,
        ) + open + text.subrange(s.0 as int, s.1 as int) + close
    }
}

/// `text` with every span put between `open` and `close`, all other bytes
/// kept as they are.
pub open spec fn marked(
    text: Seq<u8>,
    spans: Seq<(usize, usize)>,
    open: Seq<u8>,
    close: Seq<u8>,
) -> Seq<u8> {
    marked_prefix(text, spans, open, close, spans.len()) + text.subrange(
        gap_start(spans, spans.len() as int),
        text.len() as int,
    )
}

/// What a highlight leaves once every inserted sequence is taken out: the
/// same construction with empty marks.
pub open spec fn stripped(text: Seq<u8>, spans: Seq<(usize, usize)>) -> Seq<u8> {
    marked(text, spans, seq![], seq![])
}

/// The UTF-8 bytes of `text` with each match of `pattern` wrapped in `code`
/// and the reset sequence.
pub open spec fn highlighted(pattern: Seq<char>, text: Seq<char>, code: Seq<u8>) -> Seq<u8> {
    marked(encode_utf8(text), match_spans(pattern, text), code, reset_code())
}

/// A compiled regular expression, together with the pattern it was compiled
/// from.
pub struct Pattern {
    source: String,
    regex: Regex,
}

impl View for Pattern {
    type V = Seq<char>;

    closed spec fn view(&self) -> Seq<char> {
        self.source@
    }
}

/// Relies on `regex::Regex::new`: whether a pattern compiles depends on the
/// pattern alone, under the default size limits.
#[verifier::external_body]
fn compile(pattern: &str) -> (r: Result<Regex, regex::Error>)
    ensures
        r is Ok == compiles(pattern@),
{
    Regex::new(pattern)
}

/// Relies on `regex::Regex::find_iter` over the regex compiled from
/// `pattern@` (a `Pattern` is only made by `Pattern::new`): it yields
/// successive non-overlapping matches, each with `start <= end`, at byte
/// offsets inside the haystack.
#[verifier::external_body]
fn find_spans(pattern: &Pattern, text: &str) -> (r: Vec<(usize, usize)>)
    ensures
        r@ == match_spans(pattern@, text@),
        spans_fit(r@, encode_utf8(text@).len()),
{
    pattern.regex.find_iter(text).map(|m| (m.start(), m.end())).collect()
}

impl Pattern {
    /// Compiles a regular expression; `InvalidPattern` when the regex engine
    /// refuses it.
    pub fn new(pattern: &str) -> (r: Result<Pattern, HighlightError>)
        ensures
            match r {
                Ok(p) => compiles(pattern@) && p@ == pattern@,
                Err(HighlightError::InvalidPattern { pattern: q, reason: _ }) => !compiles(
                    pattern@,
                ) && q@ == pattern@,
                Err(_) => false,
            },
    {
        match compile(pattern) {
            Ok(regex) => Ok(Pattern { source: pattern.to_owned(), regex }),
            Err(e) => Err(
                HighlightError::InvalidPattern { pattern: pattern.to_owned(), reason: e.to_string() },
            ),
        }
    }

    /// The pattern this regex was compiled from.
    pub fn as_str(&self) -> (r: &str)
        ensures
            r@ == self@,
    {
        self.source.as_str()
    }
}

/// Appends `src[from..to]`.
fn push_range(out: &mut Vec<u8>, src: &[u8], from: usize, to: usize)
    requires
        from <= to <= src@.len(),
    ensures
        final(out)@ == old(out)@ + src@.subrange(from as int, to as int),
{
    let ghost start = out@;
    let mut i: usize = from;
    while i < to
        invariant
            from <= i <= to <= src@.len(),
            out@ == start + src@.subrange(from as int, i as int),
        decreases to - i,
    {
        out.push(src[i]);
        i = i + 1;
        assert(out@ =~= start + src@.subrange(from as int, i as int));
    }
}

/// Wraps each span of `text` in `code` and the reset sequence, leaving the
/// bytes between spans as they are.
pub fn highlight_spans(text: &[u8], spans: &Vec<(usize, usize)>, code: &[u8]) -> (r: Vec<u8>)
    requires
        spans_fit(spans@, text@.len()),
    ensures
        r@ == marked(text@, spans@, code@, reset_code()),
{
    let reset = reset_sequence();
    let mut out: Vec<u8> = Vec::new();
    let mut last: usize = 0;
    let mut k: usize = 0;
    while k < spans.len()
        invariant
            spans_fit(spans@, text@.len()),
            reset@ == reset_code(),
            k <= spans@.len(),
            last as int == gap_start(spans@, k as int),
            last <= text@.len(),
            out@ == marked_prefix(text@, spans@, code@, reset_code(), k as nat),
        decreases spans@.len() - k,
    {
        let (s, e) = spans[k];
        assert(last <= s) by {
            if k > 0 {
                assert(spans@[k - 1].1 <= spans@[k as int].0);
            }
        }
        assert(s <= e <= text@.len()) by {
            assert(spans@[k as int].0 <= spans@[k as int].1 <= text@.len());
        }
        push_range(&mut out, text, last, s);
        push_range(&mut out, code, 0, code.len());
        push_range(&mut out, text, s, e);
        push_range(&mut out, reset.as_slice(), 0, reset.len());
        proof {
            assert(code@.subrange(0, code@.len() as int) =~= code@);
            assert(reset@.subrange(0, reset@.len() as int) =~= reset@);
        }
        last = e;
        k = k + 1;
    }
    push_range(&mut out, text, last, text.len());
    out
}

/// Highlights every match of `pattern` in `text`: the UTF-8 bytes of
/// `text`, each match wrapped in `code` and the reset sequence.
pub fn highlight(pattern: &Pattern, text: &str, code: &[u8]) -> (r: Vec<u8>)
    ensures
        r@ == highlighted(pattern@, text@, code@),
{
    let spans = find_spans(pattern, text);
    highlight_spans(text.as_bytes(), &spans, code)
}

/// Where the pattern finds no match, highlighting leaves the text's bytes
/// exactly as they were, whatever the code.
pub proof fn lemma_no_match_unchanged(pattern: Seq<char>, text: Seq<char>, code: Seq<u8>)
    requires
        match_spans(pattern, text).len() == 0,
    ensures
        highlighted(pattern, text, code) == encode_utf8(text),
{
    let b = encode_utf8(text);
    assert(b.subrange(0, b.len() as int) =~= b);
    assert(seq![] + b =~= b);
}

/// Where the pattern finds exactly one match, the output is the text with
/// that match replaced by `code`, the match, and the reset sequence; every
/// other byte is the text's own.
pub proof fn lemma_single_match(pattern: Seq<char>, text: Seq<char>, code: Seq<u8>)
    requires
        match_spans(pattern, text).len() == 1,
    ensures
        ({
            let b = encode_utf8(text);
            let m = match_spans(pattern, text)[0];
            highlighted(pattern, text, code) == b.subrange(0, m.0 as int) + code + b.subrange(
                m.0 as int,
                m.1 as int,
            ) + reset_code() + b.subrange(m.1 as int, b.len() as int)
        }),
{
    let spans = match_spans(pattern, text);
    let b = encode_utf8(text);
    assert(marked_prefix(b, spans, code, reset_code(), 0) == Seq::<u8>::empty());
    assert(seq![] + b.subrange(0, spans[0].0 as int) =~= b.subrange(0, spans[0].0 as int));
}

/// With empty marks, the first `k` spans and their gaps are just the text up
/// to the end of span `k - 1`.
proof fn lemma_stripped_prefix(text: Seq<u8>, spans: Seq<(usize, usize)>, k: nat)
    requires
        spans_fit(spans, text.len()),
        k <= spans.len(),
    ensures
        marked_prefix(text, spans, seq![], seq![], k) == text.subrange(0, gap_start(spans, k as int)),
    decreases k,
{
    if k > 0 {
        lemma_stripped_prefix(text, spans, (k - 1) as nat);
        let s = spans[k - 1];
        let g = gap_start(spans, k - 1);
        if k > 1 {
            assert(spans[k - 2].1 <= spans[k - 1].0);
        }
        assert(s.0 <= s.1 <= text.len());
        assert(text.subrange(0, g) + text.subrange(g, s.0 as int) + seq![] + text.subrange(
            s.0 as int,
            s.1 as int,
        ) + seq![] =~= text.subrange(0, s.1 as int));
    }
}

/// Taking every inserted sequence back out of a highlight gives the
/// text it was made from, for any spans that fit that text.
pub proof fn lemma_strip_restores(text: Seq<u8>, spans: Seq<(usize, usize)>)
    requires
        spans_fit(spans, text.len()),
    ensures
        stripped(text, spans) == text,
{
    lemma_stripped_prefix(text, spans, spans.len());
    let g = gap_start(spans, spans.len() as int);
    if spans.len() > 0 {
        assert(spans[spans.len() - 1].0 <= spans[spans.len() - 1].1 <= text.len());
    }
    assert(text.subrange(0, g) + text.subrange(g, text.len() as int) =~= text);
}

} // verus!
