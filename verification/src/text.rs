//! Cleaning up recognized text before it is dispatched.
use vstd::prelude::*;
use vstd::std_specs::iter::IteratorSpec;

verus! {

/// Whether `c` is white space: the characters that Unicode gives the
/// property `White_Space`.
pub open spec fn is_space(c: char) -> bool {
    ||| '\u{9}' <= c <= '\u{d}'
    ||| c == ' '
    ||| c == '\u{85}'
    ||| c == '\u{a0}'
    ||| c == '\u{1680}'
    ||| '\u{2000}' <= c <= '\u{200a}'
    ||| c == '\u{2028}'
    ||| c == '\u{2029}'
    ||| c == '\u{202f}'
    ||| c == '\u{205f}'
    ||| c == '\u{3000}'
}

/// Whether `c` may stand in dispatched text: an ASCII letter or digit, one
/// of `. , ? ! : ' -`, a space or a tab.
pub open spec fn allowed(c: char) -> bool {
    ||| 'A' <= c <= 'Z'
    ||| 'a' <= c <= 'z'
    ||| '0' <= c <= '9'
    ||| c == '.'
    ||| c == ','
    ||| c == '?'
    ||| c == '!'
    ||| c == ':'
    ||| c == '\''
    ||| c == '-'
    ||| c == ' '
    ||| c == '\t'
}

/// The character that closes the span which `c` opens, if `c` opens one.
pub open spec fn closing_of(c: char) -> Option<char> {
    if c == '[' {
        Some(']')
    } else if c == '(' {
        Some(')')
    } else {
        None
    }
}

/// `s` without its leading white space.
pub open spec fn trim_start(s: Seq<char>) -> Seq<char>
    decreases s.len(),
{
    if s.len() > 0 && is_space(s.first()) {
        trim_start(s.drop_first())
    } else {
        s
    }
}

/// `s` without its trailing white space.
pub open spec fn trim_end(s: Seq<char>) -> Seq<char>
    decreases s.len(),
{
    if s.len() > 0 && is_space(s.last()) {
        trim_end(s.drop_last())
    } else {
        s
    }
}

/// `s` without leading and trailing white space.
pub open spec fn trimmed(s: Seq<char>) -> Seq<char> {
    trim_end(trim_start(s))
}

/// The first position at or behind `from` at which `s` holds `c`, or the
/// length of `s` if there is none.
pub open spec fn find_from(s: Seq<char>, c: char, from: int) -> int
    decreases s.len() - from,
{
    if from < 0 || from >= s.len() {
        s.len() as int
    } else if s[from] == c {
        from
    } else {
        find_from(s, c, from + 1)
    }
}

/// What is left of `s` from position `at` on when every bracketed span is
/// taken out. A span runs from `[` to the first `]` behind it, or from `(`
/// to the first `)` behind it; an opening bracket that is never closed
/// stays.
pub open spec fn strip_from(s: Seq<char>, at: int) -> Seq<char>
    decreases s.len() - at,
{
    if at < 0 || at >= s.len() {
        Seq::empty()
    } else {
        let closing = match closing_of(s[at]) {
            Some(close) => find_from(s, close, at + 1),
            None => s.len() as int,
        };
        if at < closing < s.len() {
            strip_from(s, closing + 1)
        } else {
            seq![s[at]] + strip_from(s, at + 1)
        }
    }
}

/// `s` without its bracketed spans.
pub open spec fn strip_spans(s: Seq<char>) -> Seq<char> {
    strip_from(s, 0)
}

/// The characters of `s` that may stand in dispatched text, in order.
pub open spec fn keep_allowed(s: Seq<char>) -> Seq<char> {
    s.filter(|c: char| allowed(c))
}

/// Recognized text made ready for dispatch: trimmed, freed of bracketed
/// spans and of characters that are not allowed, and trimmed again.
pub open spec fn cleaned(s: Seq<char>) -> Seq<char> {
    trimmed(keep_allowed(strip_spans(trimmed(s))))
}

/// The text that goes out for the segments a recognizer returned: the first
/// segment, cleaned, unless there is no segment or nothing is left of it.
pub open spec fn emitted(segments: Seq<String>) -> Option<Seq<char>> {
    if segments.len() == 0 || cleaned(segments[0]@).len() == 0 {
        None
    } else {
        Some(cleaned(segments[0]@))
    }
}

/// Whether `c` is white space.
pub fn is_space_char(c: char) -> (space: bool)
    ensures
        space == is_space(c),
{
    ('\u{9}' <= c && c <= '\u{d}') || c == ' ' || c == '\u{85}' || c == '\u{a0}' || c
        == '\u{1680}' || ('\u{2000}' <= c && c <= '\u{200a}') || c == '\u{2028}' || c
        == '\u{2029}' || c == '\u{202f}' || c == '\u{205f}' || c == '\u{3000}'
}

/// Whether `c` may stand in dispatched text.
pub fn is_allowed_char(c: char) -> (ok: bool)
    ensures
        ok == allowed(c),
{
    ('A' <= c && c <= 'Z') || ('a' <= c && c <= 'z') || ('0' <= c && c <= '9') || c == '.' || c
        == ',' || c == '?' || c == '!' || c == ':' || c == '\'' || c == '-' || c == ' ' || c
        == '\t'
}

/// Trimming takes off exactly the leading white space: if `s` holds white
/// space up to `n` and not at `n`, what is left starts at `n`.
proof fn lemma_trim_start_skips(s: Seq<char>, n: int)
    requires
        0 <= n <= s.len(),
        forall|k: int| 0 <= k < n ==> is_space(s[k]),
        n == s.len() || !is_space(s[n]),
    ensures
        trim_start(s) == s.skip(n),
    decreases n,
{
    if n == 0 {
        assert(s.skip(0) == s);
    } else {
        lemma_trim_start_skips(s.drop_first(), n - 1);
        assert(s.drop_first().skip(n - 1) == s.skip(n));
    }
}

/// Trimming takes off exactly the trailing white space: if `s` holds white
/// space from `n` on and not just before `n`, what is left ends at `n`.
proof fn lemma_trim_end_takes(s: Seq<char>, n: int)
    requires
        0 <= n <= s.len(),
        forall|k: int| n <= k < s.len() ==> is_space(s[k]),
        n == 0 || !is_space(s[n - 1]),
    ensures
        trim_end(s) == s.take(n),
    decreases s.len() - n,
{
    if n == s.len() {
        assert(s.take(n) == s);
    } else {
        lemma_trim_end_takes(s.drop_last(), n);
        assert(s.drop_last().take(n) == s.take(n));
    }
}

/// Where the leading white space of `s` ends: `from` is the number of
/// characters that trimming takes off the front.
proof fn lemma_trim_start_shape(s: Seq<char>) -> (from: int)
    ensures
        0 <= from <= s.len(),
        trim_start(s) == s.skip(from),
        from == s.len() || !is_space(s[from]),
    decreases s.len(),
{
    if s.len() > 0 && is_space(s.first()) {
        let inner = lemma_trim_start_shape(s.drop_first());
        assert(s.drop_first().skip(inner) == s.skip(inner + 1));
        inner + 1
    } else {
        assert(s.skip(0) == s);
        0
    }
}

/// Where the trailing white space of `s` starts: `to` is the number of
/// characters that trimming leaves at the front.
proof fn lemma_trim_end_shape(s: Seq<char>) -> (to: int)
    ensures
        0 <= to <= s.len(),
        trim_end(s) == s.take(to),
        to == 0 || !is_space(s[to - 1]),
    decreases s.len(),
{
    if s.len() > 0 && is_space(s.last()) {
        let inner = lemma_trim_end_shape(s.drop_last());
        assert(s.drop_last().take(inner) == s.take(inner));
        inner
    } else {
        assert(s.take(s.len() as int) == s);
        s.len() as int
    }
}

/// Trimmed text is a stretch of the text it was made from, and neither
/// starts nor ends with white space.
pub proof fn lemma_trimmed_is_tight(s: Seq<char>)
    ensures
        forall|i: int| 0 <= i < trimmed(s).len() ==> s.contains(#[trigger] trimmed(s)[i]),
        trimmed(s).len() > 0 ==> !is_space(trimmed(s).first()) && !is_space(trimmed(s).last()),
        trimmed(s).len() <= s.len(),
{
    let from = lemma_trim_start_shape(s);
    let rest = s.skip(from);
    let to = lemma_trim_end_shape(rest);
    assert forall|i: int| 0 <= i < trimmed(s).len() implies s.contains(
        #[trigger] trimmed(s)[i],
    ) by {
        assert(trimmed(s)[i] == s[from + i]);
    }
    if trimmed(s).len() > 0 {
        assert(trimmed(s).first() == s[from]);
        assert(trimmed(s).last() == rest[to - 1]);
    }
}

/// Text without an opening bracket holds no span to take out.
proof fn lemma_strip_without_brackets(s: Seq<char>, at: int)
    requires
        0 <= at <= s.len(),
        forall|i: int| 0 <= i < s.len() ==> closing_of(s[i]) is None,
    ensures
        strip_from(s, at) == s.skip(at),
    decreases s.len() - at,
{
    if at < s.len() {
        lemma_strip_without_brackets(s, at + 1);
        assert(seq![s[at]] + s.skip(at + 1) == s.skip(at));
    } else {
        assert(s.skip(at) == Seq::<char>::empty());
    }
}

/// Text made of allowed characters only loses nothing when the characters
/// that are not allowed are taken out.
proof fn lemma_keep_all_allowed(s: Seq<char>)
    requires
        forall|i: int| 0 <= i < s.len() ==> allowed(s[i]),
    ensures
        keep_allowed(s) == s,
    decreases s.len(),
{
    let pred = |c: char| allowed(c);
    if s.len() == 0 {
        reveal(Seq::filter);
    } else {
        lemma_keep_all_allowed(s.drop_last());
        s.drop_last().lemma_filter_push(s.last(), pred);
        assert(s.drop_last().push(s.last()) == s);
    }
}

/// Cleaned text holds allowed characters only and neither starts nor ends
/// with white space, and cleaning it once more changes nothing.
pub proof fn lemma_cleaned_is_tidy(s: Seq<char>)
    ensures
        forall|i: int| 0 <= i < cleaned(s).len() ==> allowed(#[trigger] cleaned(s)[i]),
        cleaned(s).len() > 0 ==> !is_space(cleaned(s).first()) && !is_space(cleaned(s).last()),
        cleaned(cleaned(s)) == cleaned(s),
{
    let pred = |c: char| allowed(c);
    let bare = strip_spans(trimmed(s));
    let kept = keep_allowed(bare);
    let tidy = cleaned(s);
    lemma_trimmed_is_tight(kept);
    assert forall|i: int| 0 <= i < tidy.len() implies allowed(#[trigger] tidy[i]) by {
        assert(kept.contains(tidy[i]));
        let at = choose|at: int| 0 <= at < kept.len() && kept[at] == tidy[i];
        bare.lemma_filter_pred(pred, at);
    }
    assert(trimmed(tidy) == tidy);
    lemma_strip_without_brackets(tidy, 0);
    assert(tidy.skip(0) == tidy);
    lemma_keep_all_allowed(tidy);
}

/// Calls `String::push`, which appends one character to the string.
#[verifier::external_body]
fn push_char(text: &mut String, c: char)
    ensures
        final(text)@ == old(text)@.push(c),
{
    text.push(c);
}

/// The characters of `text`, in order.
fn chars_of(text: &str) -> (out: Vec<char>)
    ensures
        out@ == text@,
{
    broadcast use {vstd::string::axiom_spec_iter, vstd::string::next_postcondition};

    let mut rest = text.chars();
    let mut out: Vec<char> = Vec::new();
    assert(out@ + rest.remaining() == text@);
    loop
        invariant
            rest.obeys_prophetic_iter_laws(),
            rest.decrease() is Some,
            out@ + rest.remaining() == text@,
        ensures
            out@ == text@,
        decreases rest.decrease()->0,
    {
        let ghost before = rest;
        match rest.next() {
            Some(c) => {
                assert(out@.push(c) + before.remaining().drop_first() == out@
                    + before.remaining());
                out.push(c);
            },
            None => {
                assert(rest.remaining() =~= Seq::<char>::empty());
                assert(out@ + Seq::<char>::empty() == out@);
                break;
            },
        }
    }
    out
}

/// The string made of `chars`, in order.
fn string_of(chars: &Vec<char>) -> (out: String)
    ensures
        out@ == chars@,
{
    let mut out: String = String::new();
    let mut i: usize = 0;
    while i < chars.len()
        invariant
            i <= chars@.len(),
            out@ == chars@.take(i as int),
        decreases chars@.len() - i,
    {
        push_char(&mut out, chars[i]);
        i = i + 1;
        assert(chars@.take(i as int) == chars@.take(i - 1).push(chars@[i - 1]));
    }
    assert(chars@.take(chars@.len() as int) == chars@);
    out
}

/// Takes leading and trailing white space off `chars`.
fn trim_chars(chars: &Vec<char>) -> (out: Vec<char>)
    ensures
        out@ == trimmed(chars@),
{
    let len: usize = chars.len();
    let mut from: usize = 0;
    while from < len && is_space_char(chars[from])
        invariant
            len == chars@.len(),
            from <= len,
            forall|k: int| 0 <= k < from ==> is_space(chars@[k]),
        decreases len - from,
    {
        from = from + 1;
    }
    let mut to: usize = len;
    while to > from && is_space_char(chars[to - 1])
        invariant
            len == chars@.len(),
            from <= to <= len,
            forall|k: int| to <= k < len ==> is_space(chars@[k]),
        decreases to,
    {
        to = to - 1;
    }
    let mut out: Vec<char> = Vec::new();
    let mut i: usize = from;
    while i < to
        invariant
            from <= i <= to <= chars@.len(),
            out@ == chars@.subrange(from as int, i as int),
        decreases to - i,
    {
        out.push(chars[i]);
        i = i + 1;
        assert(chars@.subrange(from as int, i as int) == chars@.subrange(
            from as int,
            i - 1,
        ).push(chars@[i - 1]));
    }
    proof {
        let rest = chars@.skip(from as int);
        lemma_trim_start_skips(chars@, from as int);
        assert forall|k: int| to - from <= k < rest.len() implies is_space(rest[k]) by {
            assert(rest[k] == chars@[k + from]);
        }
        if to > from {
            assert(rest[to - from - 1] == chars@[to - 1]);
        }
        lemma_trim_end_takes(rest, to - from);
        assert(rest.take(to - from) == chars@.subrange(from as int, to as int));
    }
    out
}

/// The first position at or behind `from` at which `chars` holds `c`, or
/// the length of `chars` if there is none.
fn find_char(chars: &Vec<char>, c: char, from: usize) -> (at: usize)
    requires
        from <= chars@.len(),
    ensures
        at == find_from(chars@, c, from as int),
        from <= at <= chars@.len(),
{
    let mut at: usize = from;
    while at < chars.len() && chars[at] != c
        invariant
            from <= at <= chars@.len(),
            find_from(chars@, c, from as int) == find_from(chars@, c, at as int),
        decreases chars@.len() - at,
    {
        at = at + 1;
    }
    at
}

/// Takes the bracketed spans out of `chars`.
fn strip_chars(chars: &Vec<char>) -> (out: Vec<char>)
    ensures
        out@ == strip_spans(chars@),
{
    let len: usize = chars.len();
    let mut out: Vec<char> = Vec::new();
    let mut at: usize = 0;
    while at < len
        invariant
            len == chars@.len(),
            at <= len,
            out@ + strip_from(chars@, at as int) == strip_spans(chars@),
        decreases len - at,
    {
        let c: char = chars[at];
        let closing: usize = if c == '[' {
            find_char(chars, ']', at + 1)
        } else if c == '(' {
            find_char(chars, ')', at + 1)
        } else {
            len
        };
        if closing < len {
            at = closing + 1;
        } else {
            let ghost before = out@;
            out.push(c);
            assert(before.push(c) + strip_from(chars@, at + 1) == before + (seq![c] + strip_from(
                chars@,
                at + 1,
            )));
            at = at + 1;
        }
    }
    assert(out@ + Seq::<char>::empty() == out@);
    out
}

/// Keeps the characters of `chars` that may stand in dispatched text.
fn keep_chars(chars: &Vec<char>) -> (out: Vec<char>)
    ensures
        out@ == keep_allowed(chars@),
{
    let ghost pred = |c: char| allowed(c);
    let mut out: Vec<char> = Vec::new();
    let mut i: usize = 0;
    proof {
        reveal(Seq::filter);
        assert(chars@.take(0).filter(pred) == Seq::<char>::empty());
    }
    while i < chars.len()
        invariant
            i <= chars@.len(),
            pred == (|c: char| allowed(c)),
            out@ == chars@.take(i as int).filter(pred),
        decreases chars@.len() - i,
    {
        let c: char = chars[i];
        proof {
            chars@.take(i as int).lemma_filter_push(c, pred);
            assert(chars@.take(i as int).push(c) == chars@.take(i + 1));
        }
        if is_allowed_char(c) {
            out.push(c);
        }
        i = i + 1;
    }
    assert(chars@.take(chars@.len() as int) == chars@);
    out
}

/// Makes recognized text ready for dispatch: trims it, takes out every
/// span in square or round brackets, takes out every character that is not
/// allowed, and trims again.
pub fn clean_text(text: &str) -> (out: String)
    ensures
        out@ == cleaned(text@),
{
    let chars = chars_of(text);
    let inner = trim_chars(&chars);
    let bare = strip_chars(&inner);
    let kept = keep_chars(&bare);
    let tidy = trim_chars(&kept);
    string_of(&tidy)
}

/// The text to dispatch for the segments that a recognizer returned: the
/// first segment, cleaned. Nothing is dispatched if there is no segment or
/// if nothing is left of the first one.
pub fn emission(segments: &[String]) -> (out: Option<String>)
    ensures
        match out {
            Some(text) => emitted(segments@) == Some(text@),
            None => emitted(segments@) is None,
        },
{
    if segments.len() == 0 {
        return None;
    }
    let text = clean_text(segments[0].as_str());
    if text.as_str().is_empty() {
        None
    } else {
        Some(text)
    }
}

} // verus!
