//! The substitution of placeholders.
//!
//! Each placeholder is replaced by the value of its name, and stays as it is
//! where its name has no value. The text is read once: what is put in is not
//! read again.

use vstd::prelude::*;
use crate::context::Context;
use crate::ident::is_identifier;
use crate::placeholder::{
    find_all, is_placeholder, lemma_next_placeholder, lemma_placeholders_in_order,
    lemma_placeholders_well_placed, name_of, next_placeholder, placeholders, well_placed, Grammar,
    Placeholder, Span,
};
use crate::text::{push_range, push_str, string_of, to_chars};

verus! {

/// What `context` gives for `name`.
pub open spec fn lookup(context: Map<Seq<char>, Seq<char>>, name: Seq<char>) -> Option<Seq<char>> {
    if context.contains_key(name) {
        Some(context[name])
    } else {
        None
    }
}

/// What stands in the place of the placeholder at `span`: the value of its
/// name, or the placeholder itself where the name has no value.
pub open spec fn replacement(
    text: Seq<char>,
    span: Span,
    context: Map<Seq<char>, Seq<char>>,
) -> Seq<char> {
    if context.contains_key(name_of(text, span)) {
        context[name_of(text, span)]
    } else {
        text.subrange(span.start, span.end)
    }
}

/// The text from `from` on, with each of `spans` replaced.
pub open spec fn splice(
    text: Seq<char>,
    spans: Seq<Span>,
    context: Map<Seq<char>, Seq<char>>,
    from: int,
) -> Seq<char>
    decreases spans.len(),
{
    if spans.len() == 0 {
        text.subrange(from, text.len() as int)
    } else {
        text.subrange(from, spans[0].start) + replacement(text, spans[0], context) + splice(
            text,
            spans.skip(1),
            context,
            spans[0].end,
        )
    }
}

/// `text` with each placeholder of `grammar` replaced by the value that
/// `context` gives to its name. A placeholder whose name has no value stays
/// as it is. What is put in is not read again.
pub open spec fn substituted(
    grammar: Grammar,
    text: Seq<char>,
    context: Map<Seq<char>, Seq<char>>,
) -> Seq<char> {
    splice(text, placeholders(grammar, text, 0), context, 0)
}

/// `each` may give `value` when it is called for `name`.
pub open spec fn gives<F: Fn(&str) -> Option<String>>(
    each: F,
    name: Seq<char>,
    value: Option<Seq<char>>,
) -> bool {
    exists|asked: &str, given: Option<String>|
        asked@ == name && given.deep_view() == value && call_ensures(each, (asked,), given)
}

/// What stands in the place of the placeholder at `span` where `value` was
/// given for its name: the value, or the placeholder itself where none was
/// given.
pub open spec fn put(text: Seq<char>, span: Span, value: Option<Seq<char>>) -> Seq<char> {
    match value {
        Some(v) => v,
        None => text.subrange(span.start, span.end),
    }
}

/// The text from `from` on, with each of `spans` replaced by what `values`
/// holds for it.
pub open spec fn splice_values(
    text: Seq<char>,
    spans: Seq<Span>,
    values: Seq<Option<Seq<char>>>,
    from: int,
) -> Seq<char>
    decreases spans.len(),
{
    if spans.len() == 0 || values.len() == 0 {
        text.subrange(from, text.len() as int)
    } else {
        text.subrange(from, spans[0].start) + put(text, spans[0], values[0]) + splice_values(
            text,
            spans.skip(1),
            values.skip(1),
            spans[0].end,
        )
    }
}

/// `result` is `text` with each placeholder of `grammar` replaced by what
/// `each` gave for its name, and left in place where `each` gave nothing.
pub open spec fn replaced_by<F: Fn(&str) -> Option<String>>(
    each: F,
    grammar: Grammar,
    text: Seq<char>,
    result: Seq<char>,
) -> bool {
    exists|values: Seq<Option<Seq<char>>>|
        {
            &&& values.len() == placeholders(grammar, text, 0).len()
            &&& forall|k: int|
                0 <= k < values.len() ==> gives(
                    each,
                    name_of(text, placeholders(grammar, text, 0)[k]),
                    #[trigger] values[k],
                )
            &&& result == splice_values(text, placeholders(grammar, text, 0), values, 0)
        }
}

/// Where no placeholder from `from` on has a name with a value, the text
/// from `from` on stays as it is.
pub proof fn lemma_splice_unchanged(
    grammar: Grammar,
    text: Seq<char>,
    context: Map<Seq<char>, Seq<char>>,
    from: int,
)
    requires
        0 <= from <= text.len(),
        forall|k: int|
            0 <= k < placeholders(grammar, text, from).len() ==> !context.contains_key(
                name_of(text, #[trigger] placeholders(grammar, text, from)[k]),
            ),
    ensures
        splice(text, placeholders(grammar, text, from), context, from) == text.subrange(
            from,
            text.len() as int,
        ),
    decreases text.len() - from,
{
    let spans = placeholders(grammar, text, from);
    lemma_next_placeholder(grammar, text, from);
    match next_placeholder(grammar, text, from) {
        Some(span) => {
            let rest = placeholders(grammar, text, span.end);
            assert(spans =~= seq![span] + rest);
            assert(spans.skip(1) =~= rest);
            assert(spans[0] == span);
            assert forall|k: int| 0 <= k < rest.len() implies !context.contains_key(
                name_of(text, #[trigger] rest[k]),
            ) by {
                assert(rest[k] == spans[k + 1]);
            }
            lemma_splice_unchanged(grammar, text, context, span.end);
            assert(text.subrange(from, span.start) + text.subrange(span.start, span.end)
                + text.subrange(span.end, text.len() as int) =~= text.subrange(
                from,
                text.len() as int,
            ));
        },
        None => {},
    }
}

/// Where one placeholder from `from` on has a name with a value, and no
/// other has, the value stands in the place of that placeholder and the rest
/// of the text from `from` on stays as it is.
pub proof fn lemma_splice_one(
    grammar: Grammar,
    text: Seq<char>,
    context: Map<Seq<char>, Seq<char>>,
    from: int,
    k: int,
)
    requires
        0 <= from <= text.len(),
        0 <= k < placeholders(grammar, text, from).len(),
        context.contains_key(name_of(text, placeholders(grammar, text, from)[k])),
        forall|j: int|
            0 <= j < placeholders(grammar, text, from).len() && j != k ==> !context.contains_key(
                name_of(text, #[trigger] placeholders(grammar, text, from)[j]),
            ),
    ensures
        from <= placeholders(grammar, text, from)[k].start <= placeholders(grammar, text, from)[k].end
            <= text.len(),
        splice(text, placeholders(grammar, text, from), context, from) == text.subrange(
            from,
            placeholders(grammar, text, from)[k].start,
        ) + context[name_of(text, placeholders(grammar, text, from)[k])] + text.subrange(
            placeholders(grammar, text, from)[k].end,
            text.len() as int,
        ),
    decreases k,
{
    let spans = placeholders(grammar, text, from);
    lemma_next_placeholder(grammar, text, from);
    let span = next_placeholder(grammar, text, from)->0;
    let rest = placeholders(grammar, text, span.end);
    assert(spans =~= seq![span] + rest);
    assert(spans.skip(1) =~= rest);
    assert(spans[0] == span);
    if k == 0 {
        assert forall|j: int| 0 <= j < rest.len() implies !context.contains_key(
            name_of(text, #[trigger] rest[j]),
        ) by {
            assert(rest[j] == spans[j + 1]);
        }
        lemma_splice_unchanged(grammar, text, context, span.end);
    } else {
        assert(rest[k - 1] == spans[k]);
        assert forall|j: int| 0 <= j < rest.len() && j != k - 1 implies !context.contains_key(
            name_of(text, #[trigger] rest[j]),
        ) by {
            assert(rest[j] == spans[j + 1]);
        }
        lemma_splice_one(grammar, text, context, span.end, k - 1);
        assert(!context.contains_key(name_of(text, spans[0])));
        assert(text.subrange(from, span.start) + text.subrange(span.start, span.end)
            + text.subrange(span.end, spans[k].start) =~= text.subrange(from, spans[k].start));
    }
}

/// Substitution changes nothing in a text none of whose placeholders has a
/// name with a value: a placeholder for an unknown name stays, character for
/// character.
pub proof fn lemma_unknown_names_stay(
    grammar: Grammar,
    text: Seq<char>,
    context: Map<Seq<char>, Seq<char>>,
)
    requires
        forall|k: int|
            0 <= k < placeholders(grammar, text, 0).len() ==> !context.contains_key(
                name_of(text, #[trigger] placeholders(grammar, text, 0)[k]),
            ),
    ensures
        substituted(grammar, text, context) == text,
{
    lemma_splice_unchanged(grammar, text, context, 0);
    assert(text.subrange(0, text.len() as int) =~= text);
}

/// In a text with one placeholder for a name that has a value, and no other
/// placeholder whose name has one, substitution puts the value in the place
/// of that placeholder and changes nothing else.
pub proof fn lemma_one_known_name(
    grammar: Grammar,
    text: Seq<char>,
    context: Map<Seq<char>, Seq<char>>,
    k: int,
)
    requires
        0 <= k < placeholders(grammar, text, 0).len(),
        context.contains_key(name_of(text, placeholders(grammar, text, 0)[k])),
        forall|j: int|
            0 <= j < placeholders(grammar, text, 0).len() && j != k ==> !context.contains_key(
                name_of(text, #[trigger] placeholders(grammar, text, 0)[j]),
            ),
    ensures
        substituted(grammar, text, context) == text.take(placeholders(grammar, text, 0)[k].start)
            + context[name_of(text, placeholders(grammar, text, 0)[k])] + text.skip(
            placeholders(grammar, text, 0)[k].end,
        ),
{
    lemma_splice_one(grammar, text, context, 0, k);
    let span = placeholders(grammar, text, 0)[k];
    assert(text.subrange(0, span.start) =~= text.take(span.start));
    assert(text.subrange(span.end, text.len() as int) =~= text.skip(span.end));
}

/// Where each value is what `context` gives for the name of its placeholder,
/// the replacing is the substitution with `context`.
pub proof fn lemma_splice_lookups(
    text: Seq<char>,
    spans: Seq<Span>,
    values: Seq<Option<Seq<char>>>,
    context: Map<Seq<char>, Seq<char>>,
    from: int,
)
    requires
        values.len() == spans.len(),
        forall|k: int|
            0 <= k < spans.len() ==> #[trigger] values[k] == lookup(context, name_of(text, spans[k])),
    ensures
        splice_values(text, spans, values, from) == splice(text, spans, context, from),
    decreases spans.len(),
{
    if spans.len() > 0 {
        assert(values[0] == lookup(context, name_of(text, spans[0])));
        assert forall|k: int| 0 <= k < spans.skip(1).len() implies #[trigger] values.skip(1)[k]
            == lookup(context, name_of(text, spans.skip(1)[k])) by {
            assert(values[k + 1] == lookup(context, name_of(text, spans[k + 1])));
        }
        lemma_splice_lookups(text, spans.skip(1), values.skip(1), context, spans[0].end);
    }
}

/// The replacing from the `i`-th placeholder on starts with the text before
/// it and with what is put in its place.
proof fn lemma_splice_values_step(
    text: Seq<char>,
    spans: Seq<Span>,
    values: Seq<Option<Seq<char>>>,
    i: int,
    from: int,
)
    requires
        0 <= i < spans.len(),
        spans.len() == values.len(),
    ensures
        splice_values(text, spans.skip(i), values.skip(i), from) == text.subrange(
            from,
            spans[i].start,
        ) + put(text, spans[i], values[i]) + splice_values(
            text,
            spans.skip(i + 1),
            values.skip(i + 1),
            spans[i].end,
        ),
{
    assert(spans.skip(i).skip(1) =~= spans.skip(i + 1));
    assert(values.skip(i).skip(1) =~= values.skip(i + 1));
    assert(spans.skip(i)[0] == spans[i]);
    assert(values.skip(i)[0] == values[i]);
}

/// Calls `each` for the name of each placeholder of `grammar` in `text`, from
/// left to right, and puts what it gives in the place of the placeholder; a
/// placeholder for which it gives nothing stays as it is. What is put in is
/// not read again. A text without placeholders is handed back as it came.
pub fn for_each<F: Fn(&str) -> Option<String>>(
    grammar: Grammar,
    text: String,
    each: F,
) -> (r: String)
    requires
        forall|name: &str| is_identifier(name@) ==> call_requires(each, (name,)),
    ensures
        replaced_by(each, grammar, text@, r@),
{
    let chars = to_chars(text.as_str());
    let found = find_all(grammar, &chars);
    let ghost spans = placeholders(grammar, chars@, 0);
    proof {
        lemma_placeholders_well_placed(grammar, chars@);
    }
    if found.len() == 0 {
        assert(chars@.subrange(0, chars.len() as int) =~= chars@);
        assert(replaced_by(each, grammar, text@, text@)) by {
            let none = Seq::<Option<Seq<char>>>::empty();
            assert(text@ == splice_values(text@, spans, none, 0));
        }
        return text;
    }
    assert forall|k: int| 0 <= k < found.len() implies is_identifier(
        name_of(chars@, #[trigger] found.deep_view()[k]),
    ) by {
        lemma_placeholders_in_order(grammar, chars@, 0);
        assert(is_placeholder(grammar, chars@, spans[k]));
    }
    let given = ask_each(&chars, &found, &each);
    let ghost values = given.deep_view();
    let mut out: Vec<char> = Vec::new();
    let mut at: usize = 0;
    let mut i: usize = 0;
    assert(spans.skip(0) =~= spans);
    assert(values.skip(0) =~= values);
    while i < found.len()
        invariant
            i <= found.len(),
            at <= chars.len(),
            given.len() == found.len(),
            values == given.deep_view(),
            found.deep_view() == spans,
            well_placed(chars.len() as int, spans),
            i == 0 ==> at == 0,
            i > 0 ==> at == spans[i - 1].end,
            out@ + splice_values(chars@, spans.skip(i as int), values.skip(i as int), at as int)
                == splice_values(chars@, spans, values, 0),
        decreases found.len() - i,
    {
        let next = found[i];
        assert(found.deep_view()[i as int] == next@);
        assert(values[i as int] == given[i as int].deep_view());
        assert(at <= spans[i as int].start <= spans[i as int].end <= chars.len());
        let ghost before = out@;
        push_range(&mut out, &chars, at, next.start);
        match &given[i] {
            Some(value) => {
                push_str(&mut out, value.as_str());
            },
            None => {
                push_range(&mut out, &chars, next.start, next.end);
            },
        }
        proof {
            lemma_splice_values_step(chars@, spans, values, i as int, at as int);
            assert(out@ =~= before + (chars@.subrange(at as int, next.start as int) + put(
                chars@,
                next@,
                values[i as int],
            )));
            let rest = splice_values(
                chars@,
                spans.skip(i + 1),
                values.skip(i + 1),
                next.end as int,
            );
            assert(out@ + rest =~= before + (chars@.subrange(at as int, next.start as int) + put(
                chars@,
                next@,
                values[i as int],
            ) + rest));
        }
        at = next.end;
        i += 1;
    }
    assert(spans.skip(found.len() as int) =~= Seq::<Span>::empty());
    push_range(&mut out, &chars, at, chars.len());
    let r = string_of(&out, 0, out.len());
    assert(r@ == splice_values(chars@, spans, values, 0));
    r
}

/// Calls `each` for the name of each of `found`, in order.
fn ask_each<F: Fn(&str) -> Option<String>>(
    chars: &Vec<char>,
    found: &Vec<Placeholder>,
    each: &F,
) -> (given: Vec<Option<String>>)
    requires
        well_placed(chars.len() as int, found.deep_view()),
        forall|k: int|
            0 <= k < found.len() ==> is_identifier(name_of(chars@, #[trigger] found.deep_view()[k])),
        forall|name: &str| is_identifier(name@) ==> call_requires(*each, (name,)),
    ensures
        given.len() == found.len(),
        forall|k: int|
            0 <= k < found.len() ==> gives(
                *each,
                name_of(chars@, found.deep_view()[k]),
                #[trigger] given.deep_view()[k],
            ),
{
    let mut given: Vec<Option<String>> = Vec::new();
    let mut i: usize = 0;
    while i < found.len()
        invariant
            i <= found.len(),
            given.len() == i,
            well_placed(chars.len() as int, found.deep_view()),
            forall|k: int|
                0 <= k < found.len() ==> is_identifier(
                    name_of(chars@, #[trigger] found.deep_view()[k]),
                ),
            forall|name: &str| is_identifier(name@) ==> call_requires(*each, (name,)),
            forall|k: int|
                0 <= k < i ==> gives(
                    *each,
                    name_of(chars@, found.deep_view()[k]),
                    #[trigger] given.deep_view()[k],
                ),
        decreases found.len() - i,
    {
        let next = found[i];
        assert(found.deep_view()[i as int] == next@);
        let name = string_of(chars, next.name_start, next.name_end);
        let asked = name.as_str();
        let value = each(asked);
        assert(gives(*each, name_of(chars@, next@), value.deep_view()));
        let ghost before = given.deep_view();
        given.push(value);
        assert(given.deep_view() =~= before.push(value.deep_view()));
        i += 1;
    }
    given
}

/// Replaces each placeholder of `grammar` in `text` by the value that
/// `context` gives to its name, and leaves in place each placeholder whose
/// name has no value.
pub fn substitute(grammar: Grammar, text: String, context: &Context) -> (r: String)
    ensures
        r@ == substituted(grammar, text@, context@),
{
    let each = |name: &str| -> (value: Option<String>)
        ensures
            value.deep_view() == lookup(context@, name@),
        {
            match context.get(name) {
                Some(value) => Some(value.clone()),
                None => None,
            }
        };
    let r = for_each(grammar, text, each);
    proof {
        let spans = placeholders(grammar, text@, 0);
        let values = choose|values: Seq<Option<Seq<char>>>|
            {
                &&& values.len() == spans.len()
                &&& forall|k: int|
                    0 <= k < values.len() ==> gives(each, name_of(text@, spans[k]), #[trigger] values[k])
                &&& r@ == splice_values(text@, spans, values, 0)
            };
        assert forall|k: int| 0 <= k < spans.len() implies #[trigger] values[k] == lookup(
            context@,
            name_of(text@, spans[k]),
        ) by {
            assert(gives(each, name_of(text@, spans[k]), values[k]));
        }
        lemma_splice_lookups(text@, spans, values, context@, 0);
    }
    r
}

} // verus!
