//! Placeholders in text.
//!
//! A placeholder in contents is `{{`, any number of spaces, a variable name,
//! any number of spaces, and `}}`. A placeholder in a path is `$$`, a variable
//! name, and `$$`. Text is read from left to right; a placeholder is taken
//! where the first one starts, and reading goes on behind it.

use vstd::prelude::*;
use crate::ident::{check_identifier, is_identifier, is_name_char, lemma_identifier_chars, name_char};
use crate::text::{string_of, to_chars};

verus! {

/// The two forms of placeholder.
#[derive(Clone, Copy, Debug, PartialEq, Eq, Structural)]
pub enum Grammar {
    /// `{{ name }}`, as it stands in the contents of a file.
    Content,
    /// `$$name$$`, as it stands in the path of a file.
    Path,
}

/// What opens a placeholder.
pub open spec fn opening(grammar: Grammar) -> Seq<char> {
    match grammar {
        Grammar::Content => seq!['{', '{'],
        Grammar::Path => seq!['$', '$'],
    }
}

/// What closes a placeholder.
pub open spec fn closing(grammar: Grammar) -> Seq<char> {
    match grammar {
        Grammar::Content => seq!['}', '}'],
        Grammar::Path => seq!['$', '$'],
    }
}

/// Whether spaces may stand between the name and what opens and closes the
/// placeholder.
pub open spec fn allows_padding(grammar: Grammar) -> bool {
    grammar == Grammar::Content
}

/// Where a placeholder stands in a text: it fills `start..end`, and its name
/// fills `name_start..name_end`.
pub struct Span {
    pub start: int,
    pub end: int,
    pub name_start: int,
    pub name_end: int,
}

/// Where a placeholder stands in a text: it fills `start..end`, and its name
/// fills `name_start..name_end`.
#[derive(Clone, Copy, Debug, PartialEq, Eq, Structural)]
pub struct Placeholder {
    pub start: usize,
    pub end: usize,
    pub name_start: usize,
    pub name_end: usize,
}

impl View for Placeholder {
    type V = Span;

    open spec fn view(&self) -> Span {
        Span {
            start: self.start as int,
            end: self.end as int,
            name_start: self.name_start as int,
            name_end: self.name_end as int,
        }
    }
}

impl DeepView for Placeholder {
    type V = Span;

    open spec fn deep_view(&self) -> Span {
        self@
    }
}

/// `span` marks a placeholder of `grammar` in `text`.
pub open spec fn is_placeholder(grammar: Grammar, text: Seq<char>, span: Span) -> bool {
    &&& 0 <= span.start
    &&& span.start + 2 <= span.name_start <= span.name_end
    &&& span.name_end + 2 <= span.end <= text.len()
    &&& text.subrange(span.start, span.start + 2) == opening(grammar)
    &&& forall|i: int| span.start + 2 <= i < span.name_start ==> text[i] == ' '
    &&& is_identifier(text.subrange(span.name_start, span.name_end))
    &&& forall|i: int| span.name_end <= i < span.end - 2 ==> text[i] == ' '
    &&& text.subrange(span.end - 2, span.end) == closing(grammar)
    &&& !allows_padding(grammar) ==> span.name_start == span.start + 2 && span.name_end + 2
        == span.end
}

/// The name of the placeholder at `span`.
pub open spec fn name_of(text: Seq<char>, span: Span) -> Seq<char> {
    text.subrange(span.name_start, span.name_end)
}

/// The end of the run of characters that `member` accepts and that starts at
/// `from`.
pub open spec fn run_end(text: Seq<char>, from: int, member: spec_fn(char) -> bool) -> int
    decreases text.len() - from,
{
    if 0 <= from < text.len() && member(text[from]) {
        run_end(text, from + 1, member)
    } else {
        from
    }
}

/// The end of the run of spaces that starts at `from`.
pub open spec fn spaces_end(text: Seq<char>, from: int) -> int {
    run_end(text, from, |c: char| c == ' ')
}

/// The end of the run of name characters that starts at `from`.
pub open spec fn name_end(text: Seq<char>, from: int) -> int {
    run_end(text, from, |c: char| is_name_char(c))
}

/// The placeholder of `grammar` that starts at `start` in `text`, if one
/// starts there.
pub open spec fn placeholder_at(grammar: Grammar, text: Seq<char>, start: int) -> Option<Span> {
    let first = if allows_padding(grammar) {
        spaces_end(text, start + 2)
    } else {
        start + 2
    };
    let last = name_end(text, first);
    let close = if allows_padding(grammar) {
        spaces_end(text, last)
    } else {
        last
    };
    if 0 <= start && start + 2 <= text.len() && text.subrange(start, start + 2) == opening(grammar)
        && is_identifier(text.subrange(first, last)) && close + 2 <= text.len() && text.subrange(
        close,
        close + 2,
    ) == closing(grammar) {
        Some(Span { start, end: close + 2, name_start: first, name_end: last })
    } else {
        None
    }
}

/// The first placeholder of `grammar` in `text` that starts at `from` or
/// behind it.
pub open spec fn next_placeholder(grammar: Grammar, text: Seq<char>, from: int) -> Option<Span>
    decreases text.len() - from,
{
    if from < 0 || from >= text.len() {
        None
    } else {
        match placeholder_at(grammar, text, from) {
            Some(span) => Some(span),
            None => next_placeholder(grammar, text, from + 1),
        }
    }
}

/// The placeholders of `grammar` in `text` from `from` on, as a reading from
/// left to right meets them: each is the first that starts where the one
/// before it ended, or behind that.
pub open spec fn placeholders(grammar: Grammar, text: Seq<char>, from: int) -> Seq<Span>
    decreases text.len() - from,
{
    match next_placeholder(grammar, text, from) {
        Some(span) => if from < span.end <= text.len() {
            seq![span] + placeholders(grammar, text, span.end)
        } else {
            Seq::empty()
        },
        None => Seq::empty(),
    }
}

/// The placeholders `spans` lie inside a text of `len` characters, one
/// behind the other.
pub open spec fn well_placed(len: int, spans: Seq<Span>) -> bool {
    &&& forall|k: int|
        0 <= k < spans.len() ==> 0 <= (#[trigger] spans[k]).start <= spans[k].name_start
            <= spans[k].name_end <= spans[k].end <= len
    &&& forall|k: int| 0 < k < spans.len() ==> spans[k - 1].end <= (#[trigger] spans[k]).start
}

/// A run ends at or behind its start and inside the text; all of it is
/// accepted, and what follows it is not.
pub proof fn lemma_run_end(text: Seq<char>, from: int, member: spec_fn(char) -> bool)
    requires
        0 <= from <= text.len(),
    ensures
        from <= run_end(text, from, member) <= text.len(),
        forall|i: int| from <= i < run_end(text, from, member) ==> member(#[trigger] text[i]),
        run_end(text, from, member) < text.len() ==> !member(text[run_end(text, from, member)]),
    decreases text.len() - from,
{
    if from < text.len() && member(text[from]) {
        lemma_run_end(text, from + 1, member);
    }
}

/// A position behind `from` with only accepted characters before it, and
/// none at it, is where the run ends.
pub proof fn lemma_run_end_is(text: Seq<char>, from: int, member: spec_fn(char) -> bool, end: int)
    requires
        0 <= from <= end <= text.len(),
        forall|i: int| from <= i < end ==> member(#[trigger] text[i]),
        end < text.len() ==> !member(text[end]),
    ensures
        run_end(text, from, member) == end,
    decreases end - from,
{
    if from < end {
        assert(member(text[from]));
        lemma_run_end_is(text, from + 1, member, end);
    }
}

/// What `placeholder_at` finds is a placeholder, and starts where it was
/// looked for.
pub proof fn lemma_placeholder_at_sound(grammar: Grammar, text: Seq<char>, start: int)
    requires
        placeholder_at(grammar, text, start) is Some,
    ensures
        is_placeholder(grammar, text, placeholder_at(grammar, text, start)->0),
        placeholder_at(grammar, text, start)->0.start == start,
{
    let span = placeholder_at(grammar, text, start)->0;
    let space = |c: char| c == ' ';
    let named = |c: char| is_name_char(c);
    if allows_padding(grammar) {
        lemma_run_end(text, start + 2, space);
    }
    lemma_run_end(text, span.name_start, named);
    if allows_padding(grammar) {
        lemma_run_end(text, span.name_end, space);
    }
}

/// Every placeholder is found by `placeholder_at` where it starts: at one
/// position at most one placeholder starts.
pub proof fn lemma_placeholder_at_complete(grammar: Grammar, text: Seq<char>, span: Span)
    requires
        is_placeholder(grammar, text, span),
    ensures
        placeholder_at(grammar, text, span.start) == Some(span),
{
    let space = |c: char| c == ' ';
    let named = |c: char| is_name_char(c);
    let name = text.subrange(span.name_start, span.name_end);
    lemma_identifier_chars(name);
    assert(name[0] == text[span.name_start]);
    assert forall|i: int| span.name_start <= i < span.name_end implies named(#[trigger] text[i]) by {
        assert(name[i - span.name_start] == text[i]);
    }
    let close = text.subrange(span.end - 2, span.end);
    assert(close[0] == text[span.end - 2]);
    if allows_padding(grammar) {
        lemma_run_end_is(text, span.start + 2, space, span.name_start);
        lemma_run_end_is(text, span.name_end, space, span.end - 2);
    }
    lemma_run_end_is(text, span.name_start, named, span.name_end);
}

/// A placeholder holds what opens it, what closes it, the characters of its
/// name and, where the form allows them, spaces: no line break, no tab and
/// no other white space.
pub proof fn lemma_placeholder_chars(grammar: Grammar, text: Seq<char>, span: Span)
    requires
        is_placeholder(grammar, text, span),
    ensures
        forall|i: int|
            span.start <= i < span.end ==> {
                ||| #[trigger] text[i] == opening(grammar)[0]
                ||| text[i] == closing(grammar)[0]
                ||| is_name_char(text[i])
                ||| allows_padding(grammar) && text[i] == ' '
            },
        forall|i: int| span.start <= i < span.end ==> #[trigger] text[i] != '\n' && text[i] != '\t'
            && text[i] != '\r',
{
    let name = text.subrange(span.name_start, span.name_end);
    lemma_identifier_chars(name);
    let open = text.subrange(span.start, span.start + 2);
    let close = text.subrange(span.end - 2, span.end);
    assert forall|i: int| span.start <= i < span.end implies {
        ||| #[trigger] text[i] == opening(grammar)[0]
        ||| text[i] == closing(grammar)[0]
        ||| is_name_char(text[i])
        ||| allows_padding(grammar) && text[i] == ' '
    } by {
        if i < span.start + 2 {
            assert(open[i - span.start] == text[i]);
        } else if i < span.name_start {
        } else if i < span.name_end {
            assert(name[i - span.name_start] == text[i]);
        } else if i < span.end - 2 {
        } else {
            assert(close[i - (span.end - 2)] == text[i]);
        }
    }
}

/// `next_placeholder` finds the first placeholder that starts at `from` or
/// behind it, and finds none only where none starts there.
pub proof fn lemma_next_placeholder(grammar: Grammar, text: Seq<char>, from: int)
    requires
        0 <= from,
    ensures
        match next_placeholder(grammar, text, from) {
            Some(span) => {
                &&& from <= span.start
                &&& is_placeholder(grammar, text, span)
                &&& forall|p: int| from <= p < span.start ==> placeholder_at(grammar, text, p) is None
            },
            None => forall|p: int| from <= p ==> placeholder_at(grammar, text, p) is None,
        },
    decreases text.len() - from,
{
    if from >= text.len() {
    } else {
        match placeholder_at(grammar, text, from) {
            Some(span) => {
                lemma_placeholder_at_sound(grammar, text, from);
            },
            None => {
                lemma_next_placeholder(grammar, text, from + 1);
            },
        }
    }
}

/// The placeholders that a reading meets are placeholders, stand in order
/// and do not overlap.
pub proof fn lemma_placeholders_in_order(grammar: Grammar, text: Seq<char>, from: int)
    requires
        0 <= from,
    ensures
        forall|k: int|
            0 <= k < placeholders(grammar, text, from).len() ==> {
                &&& is_placeholder(grammar, text, #[trigger] placeholders(grammar, text, from)[k])
                &&& from <= placeholders(grammar, text, from)[k].start
            },
        forall|j: int, k: int|
            0 <= j < k < placeholders(grammar, text, from).len() ==> placeholders(
                grammar,
                text,
                from,
            )[j].end <= placeholders(grammar, text, from)[k].start,
    decreases text.len() - from,
{
    let spans = placeholders(grammar, text, from);
    lemma_next_placeholder(grammar, text, from);
    match next_placeholder(grammar, text, from) {
        Some(span) => {
            let rest = placeholders(grammar, text, span.end);
            lemma_placeholders_in_order(grammar, text, span.end);
            assert(spans =~= seq![span] + rest);
            assert forall|k: int| 0 <= k < spans.len() implies {
                &&& is_placeholder(grammar, text, #[trigger] spans[k])
                &&& from <= spans[k].start
            } by {
                if k > 0 {
                    assert(spans[k] == rest[k - 1]);
                }
            }
            assert forall|j: int, k: int| 0 <= j < k < spans.len() implies spans[j].end
                <= spans[k].start by {
                assert(spans[k] == rest[k - 1]);
                if j > 0 {
                    assert(spans[j] == rest[j - 1]);
                }
            }
        },
        None => {},
    }
}

/// A reading meets every placeholder but those that start inside one that
/// it met before.
pub proof fn lemma_placeholders_complete(grammar: Grammar, text: Seq<char>, from: int, span: Span)
    requires
        0 <= from <= span.start,
        is_placeholder(grammar, text, span),
    ensures
        exists|k: int|
            0 <= k < placeholders(grammar, text, from).len() && (#[trigger] placeholders(
                grammar,
                text,
                from,
            )[k] == span || placeholders(grammar, text, from)[k].start < span.start < placeholders(
                grammar,
                text,
                from,
            )[k].end),
    decreases text.len() - from,
{
    let spans = placeholders(grammar, text, from);
    lemma_placeholder_at_complete(grammar, text, span);
    lemma_next_placeholder(grammar, text, from);
    let first = next_placeholder(grammar, text, from)->0;
    let rest = placeholders(grammar, text, first.end);
    assert(spans =~= seq![first] + rest);
    assert(spans[0] == first);
    if span.start == first.start {
        lemma_placeholder_at_complete(grammar, text, first);
    } else if span.start < first.end {
    } else {
        lemma_placeholders_complete(grammar, text, first.end, span);
        let k = choose|k: int|
            0 <= k < rest.len() && (#[trigger] rest[k] == span || rest[k].start < span.start
                < rest[k].end);
        assert(spans[k + 1] == rest[k]);
    }
}

/// The placeholders that a reading meets lie inside the text, one behind the
/// other.
pub proof fn lemma_placeholders_well_placed(grammar: Grammar, text: Seq<char>)
    ensures
        well_placed(text.len() as int, placeholders(grammar, text, 0)),
{
    lemma_placeholders_in_order(grammar, text, 0);
    let spans = placeholders(grammar, text, 0);
    assert forall|k: int| 0 <= k < spans.len() implies 0 <= (#[trigger] spans[k]).start
        <= spans[k].name_start <= spans[k].name_end <= spans[k].end <= text.len() by {
        assert(is_placeholder(grammar, text, spans[k]));
    }
}

/// The end of the run of spaces that starts at `from`.
fn spaces_run(chars: &Vec<char>, from: usize) -> (end: usize)
    requires
        from <= chars.len(),
    ensures
        end == spaces_end(chars@, from as int),
        from <= end <= chars.len(),
{
    let mut i: usize = from;
    while i < chars.len() && chars[i] == ' '
        invariant
            from <= i <= chars.len(),
            forall|k: int| from <= k < i ==> chars@[k] == ' ',
        decreases chars.len() - i,
    {
        i += 1;
    }
    proof {
        lemma_run_end_is(chars@, from as int, |c: char| c == ' ', i as int);
    }
    i
}

/// The end of the run of name characters that starts at `from`.
fn name_run(chars: &Vec<char>, from: usize) -> (end: usize)
    requires
        from <= chars.len(),
    ensures
        end == name_end(chars@, from as int),
        from <= end <= chars.len(),
{
    let mut i: usize = from;
    while i < chars.len() && name_char(chars[i])
        invariant
            from <= i <= chars.len(),
            forall|k: int| from <= k < i ==> is_name_char(chars@[k]),
        decreases chars.len() - i,
    {
        i += 1;
    }
    proof {
        lemma_run_end_is(chars@, from as int, |c: char| is_name_char(c), i as int);
    }
    i
}

/// Whether `c` stands at `at` and again behind it.
fn twice(chars: &Vec<char>, at: usize, c: char) -> (r: bool)
    requires
        at <= chars.len(),
    ensures
        r == (at + 2 <= chars.len() && chars@.subrange(at as int, at + 2) == seq![c, c]),
{
    if chars.len() - at < 2 {
        return false;
    }
    let ghost pair = chars@.subrange(at as int, at + 2);
    assert(pair[0] == chars@[at as int] && pair[1] == chars@[at + 1]);
    if chars[at] == c && chars[at + 1] == c {
        assert(pair =~= seq![c, c]);
        true
    } else {
        false
    }
}

/// The placeholder of `grammar` that starts at `start`, if one starts there.
fn match_at(grammar: Grammar, chars: &Vec<char>, start: usize) -> (r: Option<Placeholder>)
    requires
        start <= chars.len(),
    ensures
        r.deep_view() == placeholder_at(grammar, chars@, start as int),
{
    let (open, close, padded) = match grammar {
        Grammar::Content => ('{', '}', true),
        Grammar::Path => ('$', '$', false),
    };
    if !twice(chars, start, open) {
        return None;
    }
    let name_start = if padded {
        spaces_run(chars, start + 2)
    } else {
        start + 2
    };
    let name_end = name_run(chars, name_start);
    let end = if padded {
        spaces_run(chars, name_end)
    } else {
        name_end
    };
    if check_identifier(chars, name_start, name_end) && twice(chars, end, close) {
        Some(Placeholder { start, end: end + 2, name_start, name_end })
    } else {
        None
    }
}

/// The first placeholder of `grammar` that starts at `from` or behind it.
fn next_match(grammar: Grammar, chars: &Vec<char>, from: usize) -> (r: Option<Placeholder>)
    requires
        from <= chars.len(),
    ensures
        r.deep_view() == next_placeholder(grammar, chars@, from as int),
        r matches Some(found) ==> from <= found.start && is_placeholder(grammar, chars@, found@),
{
    let mut i: usize = from;
    while i < chars.len()
        invariant
            from <= i <= chars.len(),
            next_placeholder(grammar, chars@, from as int) == next_placeholder(
                grammar,
                chars@,
                i as int,
            ),
        decreases chars.len() - i,
    {
        let found = match_at(grammar, chars, i);
        if found.is_some() {
            proof {
                lemma_placeholder_at_sound(grammar, chars@, i as int);
            }
            return found;
        }
        i += 1;
    }
    None
}

/// The first placeholder of `grammar` in `text`, with its name.
pub fn first_match(grammar: Grammar, text: &str) -> (r: Option<(Placeholder, String)>)
    ensures
        match r {
            Some((found, name)) => next_placeholder(grammar, text@, 0) == Some(found@) && name@
                == name_of(text@, found@),
            None => next_placeholder(grammar, text@, 0) is None,
        },
{
    let chars = to_chars(text);
    match next_match(grammar, &chars, 0) {
        Some(found) => {
            let name = string_of(&chars, found.name_start, found.name_end);
            Some((found, name))
        },
        None => None,
    }
}

/// The placeholders of `grammar` in `chars`, as a reading from left to right
/// meets them.
pub(crate) fn find_all(grammar: Grammar, chars: &Vec<char>) -> (found: Vec<Placeholder>)
    ensures
        found.deep_view() == placeholders(grammar, chars@, 0),
{
    let mut found: Vec<Placeholder> = Vec::new();
    assert(found.deep_view() =~= Seq::<Span>::empty());
    let mut at: usize = 0;
    loop
        invariant
            at <= chars.len(),
            found.deep_view() + placeholders(grammar, chars@, at as int) == placeholders(
                grammar,
                chars@,
                0,
            ),
        ensures
            found.deep_view() == placeholders(grammar, chars@, 0),
        decreases chars.len() - at,
    {
        match next_match(grammar, chars, at) {
            Some(next) => {
                let ghost before = found.deep_view();
                let ghost rest = placeholders(grammar, chars@, next.end as int);
                found.push(next);
                assert(found.deep_view() =~= before.push(next@));
                assert(before.push(next@) + rest =~= before + (seq![next@] + rest));
                at = next.end;
            },
            None => {
                assert(found.deep_view() + Seq::<Span>::empty() =~= found.deep_view());
                break ;
            },
        }
    }
    found
}

} // verus!
