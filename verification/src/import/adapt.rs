//! Source adaptations applied to legacy Typst posts at import time: page setup
//! calls are stripped and cetz canvases are wrapped in `html.frame(...)`.
use vstd::prelude::*;

use crate::text::{
    chars_of, find_first, find_from, find_from_exec, lemma_find_from_bounds, lemma_find_from_skip, occurs_at,
    string_from_chars,
};

verus! {

/// Which adaptations [`adapt_source`] applies.
#[derive(Clone, Copy, Debug)]
pub struct SourceAdaptation {
    pub strip_page_setup: bool,
    pub wrap_cetz_canvas: bool,
}

impl SourceAdaptation {
    /// Both adaptations switched on.
    pub fn default() -> (a: Self)
        ensures
            a.strip_page_setup,
            a.wrap_cetz_canvas,
    {
        SourceAdaptation { strip_page_setup: true, wrap_cetz_canvas: true }
    }
}

/// What happens to each balanced call that a pattern finds.
pub enum CallTransform {
    /// The call disappears.
    Strip,
    /// The call's opening `pattern` is replaced by the given head and one
    /// closing parenthesis is appended after the call.
    Wrap(Vec<char>),
}

pub open spec fn transform_view(t: CallTransform) -> Option<Seq<char>> {
    match t {
        CallTransform::Strip => None,
        CallTransform::Wrap(head) => Some(head@),
    }
}

/// Where the call that opens at `open` ends, scanning from position `i` with
/// the given parenthesis depth, string state and previous character: the
/// position just after the closing parenthesis that brings the depth to zero.
/// Inside a string literal parentheses do not count; a `"` that does not
/// follow a backslash closes the literal.
pub open spec fn call_end_from(text: Seq<char>, i: int, depth: int, in_string: bool, previous: char) -> Option<int>
    decreases text.len() - i,
{
    if i < 0 || i >= text.len() {
        None
    } else {
        let c = text[i];
        if in_string {
            call_end_from(text, i + 1, depth, !(c == '"' && previous != '\\'), c)
        } else if c == '"' {
            call_end_from(text, i + 1, depth, true, c)
        } else if c == '(' {
            call_end_from(text, i + 1, depth + 1, false, c)
        } else if c == ')' {
            if depth - 1 == 0 {
                Some(i + 1)
            } else {
                call_end_from(text, i + 1, depth - 1, false, c)
            }
        } else {
            call_end_from(text, i + 1, depth, false, c)
        }
    }
}

/// The end of the call whose opening parenthesis precedes position `open`.
pub open spec fn call_end(text: Seq<char>, open: int) -> Option<int> {
    call_end_from(text, open, 1, false, '\0')
}

proof fn lemma_call_end_from_bounds(text: Seq<char>, i: int, depth: int, in_string: bool, previous: char)
    ensures
        call_end_from(text, i, depth, in_string, previous) matches Some(e) ==> i < e <= text.len(),
    decreases text.len() - i,
{
    if 0 <= i < text.len() {
        let c = text[i];
        if in_string {
            lemma_call_end_from_bounds(text, i + 1, depth, !(c == '"' && previous != '\\'), c);
        } else if c == '"' {
            lemma_call_end_from_bounds(text, i + 1, depth, true, c);
        } else if c == '(' {
            lemma_call_end_from_bounds(text, i + 1, depth + 1, false, c);
        } else if c == ')' {
            lemma_call_end_from_bounds(text, i + 1, depth - 1, false, c);
        } else {
            lemma_call_end_from_bounds(text, i + 1, depth, false, c);
        }
    }
}

/// The position just after the parenthesis that closes the call opened right
/// before `open_index`, or `None` when the call is never closed.
pub fn balanced_call_end(text: &[char], open_index: usize) -> (r: Option<usize>)
    requires
        open_index <= text@.len(),
    ensures
        r matches Some(e) ==> call_end(text@, open_index as int) == Some(e as int),
        r is None ==> call_end(text@, open_index as int) is None,
{
    let mut depth: u128 = 1;
    let mut in_string = false;
    let mut previous = '\0';
    let mut i = open_index;
    while i < text.len()
        invariant
            open_index <= i <= text@.len(),
            1 <= depth <= i - open_index + 1,
            call_end(text@, open_index as int) == call_end_from(text@, i as int, depth as int, in_string, previous),
        decreases text.len() - i,
    {
        let c = text[i];
        if in_string {
            if c == '"' && previous != '\\' {
                in_string = false;
            }
        } else if c == '"' {
            in_string = true;
        } else if c == '(' {
            depth = depth + 1;
        } else if c == ')' {
            depth = depth - 1;
            if depth == 0 {
                return Some(i + 1);
            }
        }
        previous = c;
        i = i + 1;
    }
    None
}

/// The text from position `pos` of `source` on, with every balanced call that
/// starts with `pattern` transformed by `t`; from the first call that is never
/// closed on, the text is kept as it is.
pub open spec fn transformed_from(source: Seq<char>, pos: int, pattern: Seq<char>, t: Option<Seq<char>>) -> Seq<char>
    decreases source.len() - pos,
{
    if pos < 0 || pos > source.len() {
        Seq::empty()
    } else {
        match find_from(source, pattern, pos) {
            None => source.skip(pos),
            Some(index) => match call_end(source, index + pattern.len()) {
                None => source.skip(pos),
                Some(end) => if pos <= index && index < end <= source.len() {
                    source.subrange(pos, index) + transformed_call(source.subrange(index, end), pattern, t)
                        + transformed_from(source, end, pattern, t)
                } else {
                    source.skip(pos)
                },
            },
        }
    }
}

/// `source` with every balanced call that starts with `pattern` transformed.
pub open spec fn transformed(source: Seq<char>, pattern: Seq<char>, t: Option<Seq<char>>) -> Seq<char> {
    transformed_from(source, 0, pattern, t)
}

/// What one call becomes: nothing, or the head, the call's arguments and one
/// more closing parenthesis.
pub open spec fn transformed_call(call: Seq<char>, pattern: Seq<char>, t: Option<Seq<char>>) -> Seq<char> {
    match t {
        None => Seq::empty(),
        Some(head) => head + call.skip(pattern.len() as int) + seq![')'],
    }
}

/// Appends `source[from..to]` to `out`.
fn push_range(out: &mut Vec<char>, source: &[char], from: usize, to: usize)
    requires
        from <= to <= source@.len(),
    ensures
        final(out)@ == old(out)@ + source@.subrange(from as int, to as int),
{
    let ghost start = out@;
    let mut k = from;
    while k < to
        invariant
            from <= k <= to <= source@.len(),
            out@ == start + source@.subrange(from as int, k as int),
        decreases to - k,
    {
        out.push(source[k]);
        k = k + 1;
        assert(source@.subrange(from as int, k as int) == source@.subrange(from as int, k - 1).push(source@[k - 1]));
    }
}

/// Applies `transform` to every balanced call in `source` that begins with
/// `pattern`.
pub fn transform_calls(source: &[char], pattern: &[char], transform: &CallTransform) -> (r: Vec<char>)
    ensures
        r@ == transformed(source@, pattern@, transform_view(*transform)),
{
    let ghost t = transform_view(*transform);
    let mut result: Vec<char> = Vec::new();
    let mut pos: usize = 0;
    loop
        invariant
            pos <= source@.len(),
            t == transform_view(*transform),
            result@ + transformed_from(source@, pos as int, pattern@, t) == transformed(source@, pattern@, t),
        decreases source.len() - pos,
    {
        let found = find_from_exec(source, pattern, pos);
        match found {
            None => {
                push_range(&mut result, source, pos, source.len());
                return result;
            },
            Some(index) => {
                proof {
                    lemma_find_from_bounds(source@, pattern@, pos as int);
                }
                let open = index + pattern.len();
                match balanced_call_end(source, open) {
                    None => {
                        push_range(&mut result, source, pos, source.len());
                        return result;
                    },
                    Some(end) => {
                        proof {
                            lemma_call_end_from_bounds(source@, open as int, 1, false, '\0');
                        }
                        push_range(&mut result, source, pos, index);
                        match transform {
                            CallTransform::Strip => {},
                            CallTransform::Wrap(head) => {
                                push_range(&mut result, head.as_slice(), 0, head.len());
                                push_range(&mut result, source, open, end);
                                result.push(')');
                                assert(head@.subrange(0, head@.len() as int) == head@);
                                assert(source@.subrange(index as int, end as int).skip(pattern@.len() as int)
                                    == source@.subrange(open as int, end as int));
                            },
                        }
                        pos = end;
                    },
                }
            },
        }
    }
}

/// Removes every balanced call that begins with `pattern`.
fn strip_calls(source: &[char], pattern: &[char]) -> (r: Vec<char>)
    ensures
        r@ == transformed(source@, pattern@, None),
{
    transform_calls(source, pattern, &CallTransform::Strip)
}

/// Replaces the opening `pattern` of every balanced call by
/// `replacement_head` and closes the call with one more parenthesis.
fn wrap_calls(source: &[char], pattern: &[char], replacement_head: Vec<char>) -> (r: Vec<char>)
    ensures
        r@ == transformed(source@, pattern@, Some(replacement_head@)),
{
    transform_calls(source, pattern, &CallTransform::Wrap(replacement_head))
}

/// The adapted text: page setup calls stripped when asked, then cetz canvases
/// (with and without `context`) wrapped in `html.frame(...)` when asked.
pub open spec fn adapted(source: Seq<char>, strip_page_setup: bool, wrap_cetz_canvas: bool) -> Seq<char> {
    let stripped = if strip_page_setup {
        transformed(source, "#set page("@, None)
    } else {
        source
    };
    if wrap_cetz_canvas {
        transformed(
            transformed(stripped, "#context cetz.canvas("@, Some("#html.frame(context cetz.canvas("@)),
            "#cetz.canvas("@,
            Some("#html.frame(cetz.canvas("@),
        )
    } else {
        stripped
    }
}

/// Adapts a legacy post source for HTML export.
pub fn adapt_source(source: &str, adaptation: &SourceAdaptation) -> (r: String)
    ensures
        r@ == adapted(source@, adaptation.strip_page_setup, adaptation.wrap_cetz_canvas),
{
    let mut result = chars_of(source);
    if adaptation.strip_page_setup {
        result = strip_calls(result.as_slice(), chars_of("#set page(").as_slice());
    }
    if adaptation.wrap_cetz_canvas {
        result = wrap_calls(
            result.as_slice(),
            chars_of("#context cetz.canvas(").as_slice(),
            chars_of("#html.frame(context cetz.canvas("),
        );
        result = wrap_calls(
            result.as_slice(),
            chars_of("#cetz.canvas(").as_slice(),
            chars_of("#html.frame(cetz.canvas("),
        );
    }
    string_from_chars(result.as_slice())
}

proof fn lemma_call_end_prefix(a: Seq<char>, b: Seq<char>, i: int, depth: int, in_string: bool, previous: char)
    requires
        call_end_from(a, i, depth, in_string, previous) is Some,
    ensures
        call_end_from(a + b, i, depth, in_string, previous) == call_end_from(a, i, depth, in_string, previous),
    decreases a.len() - i,
{
    let c = a[i];
    assert((a + b)[i] == c);
    if in_string {
        lemma_call_end_prefix(a, b, i + 1, depth, !(c == '"' && previous != '\\'), c);
    } else if c == '"' {
        lemma_call_end_prefix(a, b, i + 1, depth, true, c);
    } else if c == '(' {
        lemma_call_end_prefix(a, b, i + 1, depth + 1, false, c);
    } else if c == ')' {
        if depth - 1 != 0 {
            lemma_call_end_prefix(a, b, i + 1, depth - 1, false, c);
        }
    } else {
        lemma_call_end_prefix(a, b, i + 1, depth, false, c);
    }
}

proof fn lemma_call_end_shift(x: Seq<char>, y: Seq<char>, i: int, depth: int, in_string: bool, previous: char)
    requires
        0 <= i,
    ensures
        call_end_from(x + y, x.len() + i, depth, in_string, previous) == (match call_end_from(
            y,
            i,
            depth,
            in_string,
            previous,
        ) {
            Some(e) => Some(e + x.len()),
            None => None,
        }),
    decreases y.len() - i,
{
    if i < y.len() {
        let c = y[i];
        assert((x + y)[x.len() + i] == c);
        if in_string {
            lemma_call_end_shift(x, y, i + 1, depth, !(c == '"' && previous != '\\'), c);
        } else if c == '"' {
            lemma_call_end_shift(x, y, i + 1, depth, true, c);
        } else if c == '(' {
            lemma_call_end_shift(x, y, i + 1, depth + 1, false, c);
        } else if c == ')' {
            lemma_call_end_shift(x, y, i + 1, depth - 1, false, c);
        } else {
            lemma_call_end_shift(x, y, i + 1, depth, false, c);
        }
    }
}

proof fn lemma_find_prefix(a: Seq<char>, b: Seq<char>, p: Seq<char>, i: int)
    requires
        0 <= i,
        find_from(a, p, i) is Some,
    ensures
        find_from(a + b, p, i) == find_from(a, p, i),
    decreases a.len() - i + 1,
{
    assert((a + b).subrange(i, i + p.len()) =~= a.subrange(i, i + p.len()));
    if !occurs_at(a, p, i) {
        lemma_find_prefix(a, b, p, i + 1);
    }
}

proof fn lemma_transformed_shift(x: Seq<char>, y: Seq<char>, i: int, pattern: Seq<char>, t: Option<Seq<char>>)
    requires
        0 <= i <= y.len(),
    ensures
        transformed_from(x + y, x.len() + i, pattern, t) == transformed_from(y, i, pattern, t),
    decreases y.len() - i,
{
    let w = x + y;
    let xl = x.len() as int;
    assert(w.skip(xl) =~= y);
    lemma_find_from_skip(w, pattern, xl, i);
    assert(w.skip(xl + i) =~= y.skip(i));
    lemma_find_from_bounds(y, pattern, i);
    match find_from(y, pattern, i) {
        None => {},
        Some(index) => {
            lemma_call_end_shift(x, y, index + pattern.len(), 1, false, '\0');
            match call_end(y, index + pattern.len()) {
                None => {},
                Some(end) => {
                    if i <= index && index < end <= y.len() {
                        assert(w.subrange(xl + i, xl + index) =~= y.subrange(i, index));
                        assert(w.subrange(xl + index, xl + end) =~= y.subrange(index, end));
                        lemma_transformed_shift(x, y, end, pattern, t);
                    }
                },
            }
        },
    }
}

/// Texts `seps[0]`, `calls[0]`, `seps[1]`, `calls[1]`, ... and then `tail`,
/// one after another.
pub open spec fn interleaved(seps: Seq<Seq<char>>, calls: Seq<Seq<char>>, tail: Seq<char>) -> Seq<char>
    decreases seps.len(),
{
    if seps.len() == 0 || calls.len() == 0 {
        tail
    } else {
        seps[0] + calls[0] + interleaved(seps.drop_first(), calls.drop_first(), tail)
    }
}

/// Whether each of `calls` is one whole balanced call that opens with
/// `pattern`, each of `seps` holds no occurrence of `pattern` (not even one
/// that runs on into the call after it), and `tail` holds none at all.
pub open spec fn calls_between(seps: Seq<Seq<char>>, calls: Seq<Seq<char>>, tail: Seq<char>, pattern: Seq<char>) -> bool {
    &&& pattern.len() > 0
    &&& seps.len() == calls.len()
    &&& forall|i: int| 0 <= i < calls.len() ==> pattern.is_prefix_of(#[trigger] calls[i]) && call_end(
        calls[i],
        pattern.len() as int,
    ) == Some(calls[i].len() as int)
    &&& forall|i: int| 0 <= i < seps.len() ==> find_first(#[trigger] seps[i] + pattern, pattern) == Some(
        seps[i].len() as int,
    )
    &&& find_first(tail, pattern) is None
}

proof fn lemma_every_call_transformed(
    seps: Seq<Seq<char>>,
    calls: Seq<Seq<char>>,
    tail: Seq<char>,
    pattern: Seq<char>,
    t: Option<Seq<char>>,
)
    requires
        calls_between(seps, calls, tail, pattern),
    ensures
        transformed(interleaved(seps, calls, tail), pattern, t) == interleaved(
            seps,
            calls.map_values(|c: Seq<char>| transformed_call(c, pattern, t)),
            tail,
        ),
    decreases seps.len(),
{
    let outs = calls.map_values(|c: Seq<char>| transformed_call(c, pattern, t));
    if seps.len() == 0 {
        assert(tail.skip(0) =~= tail);
    } else {
        let s0 = seps[0];
        let c0 = calls[0];
        let pl = pattern.len() as int;
        let rest = interleaved(seps.drop_first(), calls.drop_first(), tail);
        let whole = s0 + c0 + rest;
        assert(interleaved(seps, calls, tail) == whole);
        assert(pattern.is_prefix_of(c0));
        assert(call_end(c0, pl) == Some(c0.len() as int));
        assert(find_first(s0 + pattern, pattern) == Some(s0.len() as int));
        // the first occurrence is the one that opens `c0`
        assert(c0 =~= pattern + c0.skip(pl));
        assert(whole =~= (s0 + pattern) + (c0.skip(pl) + rest));
        lemma_find_prefix(s0 + pattern, c0.skip(pl) + rest, pattern, 0);
        assert(find_from(whole, pattern, 0) == Some(s0.len() as int));
        // and its call ends where `c0` does
        lemma_call_end_prefix(c0, rest, pl, 1, false, '\0');
        assert(whole =~= s0 + (c0 + rest));
        lemma_call_end_shift(s0, c0 + rest, pl, 1, false, '\0');
        let end: int = (s0.len() + c0.len()) as int;
        assert(call_end(whole, s0.len() + pl) == Some(end));
        lemma_call_end_from_bounds(c0, pl, 1, false, '\0');
        assert(whole.subrange(0, s0.len() as int) =~= s0);
        assert(whole.subrange(s0.len() as int, end) =~= c0);
        // the rest is transformed on its own
        assert(whole =~= (s0 + c0) + rest);
        lemma_transformed_shift(s0 + c0, rest, 0, pattern, t);
        let seps1 = seps.drop_first();
        let calls1 = calls.drop_first();
        assert forall|i: int| 0 <= i < calls1.len() implies pattern.is_prefix_of(#[trigger] calls1[i]) && call_end(
            calls1[i],
            pl,
        ) == Some(calls1[i].len() as int) by {
            assert(calls1[i] == calls[i + 1]);
        }
        assert forall|i: int| 0 <= i < seps1.len() implies find_first(#[trigger] seps1[i] + pattern, pattern)
            == Some(seps1[i].len() as int) by {
            assert(seps1[i] == seps[i + 1]);
        }
        lemma_every_call_transformed(seps1, calls1, tail, pattern, t);
        assert(calls1.map_values(|c: Seq<char>| transformed_call(c, pattern, t)) =~= outs.drop_first());
        assert(outs[0] == transformed_call(c0, pattern, t));
        assert(interleaved(seps, outs, tail) == s0 + outs[0] + interleaved(seps1, outs.drop_first(), tail));
        assert(transformed(whole, pattern, t) =~= s0 + transformed_call(c0, pattern, t) + transformed(rest, pattern, t));
    }
}

/// Every call is stripped, not just the first: in a text made of balanced
/// calls opening with `pattern` and of pieces that hold no occurrence of
/// it, stripping removes each call and keeps everything else.
pub proof fn lemma_strip_removes_every_call(
    seps: Seq<Seq<char>>,
    calls: Seq<Seq<char>>,
    tail: Seq<char>,
    pattern: Seq<char>,
)
    requires
        calls_between(seps, calls, tail, pattern),
    ensures
        transformed(interleaved(seps, calls, tail), pattern, None) == interleaved(
            seps,
            Seq::new(calls.len(), |i: int| Seq::<char>::empty()),
            tail,
        ),
{
    lemma_every_call_transformed(seps, calls, tail, pattern, None);
    assert(calls.map_values(|c: Seq<char>| transformed_call(c, pattern, None)) =~= Seq::new(
        calls.len(),
        |i: int| Seq::<char>::empty(),
    ));
}

/// Every call is wrapped, not just the first: in a text made of balanced
/// calls opening with `pattern` and of pieces that hold no occurrence of
/// it, each call's opening `pattern` becomes `head` and the call gains one
/// closing parenthesis, and everything else is kept.
pub proof fn lemma_wrap_wraps_every_call(
    seps: Seq<Seq<char>>,
    calls: Seq<Seq<char>>,
    tail: Seq<char>,
    pattern: Seq<char>,
    head: Seq<char>,
)
    requires
        calls_between(seps, calls, tail, pattern),
    ensures
        transformed(interleaved(seps, calls, tail), pattern, Some(head)) == interleaved(
            seps,
            calls.map_values(|c: Seq<char>| head + c.skip(pattern.len() as int) + seq![')']),
            tail,
        ),
{
    lemma_every_call_transformed(seps, calls, tail, pattern, Some(head));
    assert(calls.map_values(|c: Seq<char>| transformed_call(c, pattern, Some(head))) =~= calls.map_values(
        |c: Seq<char>| head + c.skip(pattern.len() as int) + seq![')'],
    ));
}

/// Page setup is stripped everywhere: a source made of `#set page(...)`
/// calls and of text holding no other `#set page(`, adapted with only the
/// stripping on, is that text alone.
pub proof fn lemma_every_page_setup_stripped(seps: Seq<Seq<char>>, calls: Seq<Seq<char>>, tail: Seq<char>)
    requires
        calls_between(seps, calls, tail, "#set page("@),
    ensures
        adapted(interleaved(seps, calls, tail), true, false) == interleaved(
            seps,
            Seq::new(calls.len(), |i: int| Seq::<char>::empty()),
            tail,
        ),
{
    lemma_strip_removes_every_call(seps, calls, tail, "#set page("@);
}

/// With both adaptations switched off, a source passes through unchanged.
pub proof fn lemma_disabled_adaptation_is_identity(source: Seq<char>)
    ensures
        adapted(source, false, false) == source,
{
}

/// A source without page setup calls and without cetz canvases passes
/// through every adaptation unchanged.
pub proof fn lemma_adaptation_keeps_plain_sources(source: Seq<char>, strip_page_setup: bool, wrap_cetz_canvas: bool)
    requires
        find_first(source, "#set page("@) is None,
        find_first(source, "#context cetz.canvas("@) is None,
        find_first(source, "#cetz.canvas("@) is None,
    ensures
        adapted(source, strip_page_setup, wrap_cetz_canvas) == source,
{
    assert(source.skip(0) =~= source);
}

} // verus!
