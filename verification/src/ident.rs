//! The grammar of variable names.
//!
//! A name is a list of segments separated by single dots. A segment is either
//! a word or a number. A word starts with a letter or an underscore and goes
//! on with any number of letters, digits, underscores and hyphens. A number
//! is one or more digits. The first segment is a word.

use vstd::prelude::*;
use crate::text::{find_first, first_index, lemma_first_index, lemma_first_index_is, to_chars};

verus! {

/// An ASCII letter.
pub open spec fn is_letter(c: char) -> bool {
    ('a' <= c <= 'z') || ('A' <= c <= 'Z')
}

/// An ASCII decimal digit.
pub open spec fn is_digit(c: char) -> bool {
    '0' <= c <= '9'
}

/// A letter or a digit.
pub open spec fn is_alnum(c: char) -> bool {
    is_letter(c) || is_digit(c)
}

/// A character that may start a word.
pub open spec fn is_word_start(c: char) -> bool {
    is_letter(c) || c == '_'
}

/// A character that may stand inside a word.
pub open spec fn is_word_char(c: char) -> bool {
    is_alnum(c) || c == '_' || c == '-'
}

/// A character that may stand inside a name: a word character or a dot.
pub open spec fn is_name_char(c: char) -> bool {
    is_word_char(c) || c == '.'
}

/// `s` is a word: a letter or an underscore, then any number of letters,
/// digits, underscores and hyphens.
pub open spec fn is_word(s: Seq<char>) -> bool {
    &&& s.len() > 0
    &&& is_word_start(s[0])
    &&& forall|i: int| 0 <= i < s.len() ==> is_word_char(#[trigger] s[i])
}

/// `s` is a number: one or more digits.
pub open spec fn is_number(s: Seq<char>) -> bool {
    &&& s.len() > 0
    &&& forall|i: int| 0 <= i < s.len() ==> is_digit(#[trigger] s[i])
}

/// `s` is a segment: a word or a number.
pub open spec fn is_segment(s: Seq<char>) -> bool {
    is_word(s) || is_number(s)
}

/// `s` is one or more segments, separated by single dots.
pub open spec fn is_segment_list(s: Seq<char>) -> bool
    decreases s.len(),
{
    let n = first_index(s, '.');
    &&& is_segment(s.take(n))
    &&& 0 <= n < s.len() ==> is_segment_list(s.skip(n + 1))
}

/// `s` is a variable name: a word, then any number of segments, each after a
/// dot.
pub open spec fn is_identifier(s: Seq<char>) -> bool {
    let n = first_index(s, '.');
    &&& is_word(s.take(n))
    &&& 0 <= n < s.len() ==> is_segment_list(s.skip(n + 1))
}

/// A segment holds no dot.
pub proof fn lemma_segment_has_no_dot(s: Seq<char>)
    requires
        is_segment(s),
    ensures
        first_index(s, '.') == s.len(),
{
    assert forall|k: int| 0 <= k < s.len() implies s[k] != '.' by {
        assert(is_word_char(s[k]) || is_digit(s[k]));
    }
    lemma_first_index_is(s, '.', s.len() as int);
}

/// A segment alone is a list of segments.
pub proof fn lemma_segment_is_list(s: Seq<char>)
    requires
        is_segment(s),
    ensures
        is_segment_list(s),
{
    lemma_segment_has_no_dot(s);
    assert(s.take(s.len() as int) =~= s);
}

/// A segment, a dot and a list of segments are a list of segments.
pub proof fn lemma_list_extends(head: Seq<char>, tail: Seq<char>)
    requires
        is_segment(head),
        is_segment_list(tail),
    ensures
        is_segment_list(head + seq!['.'] + tail),
{
    let s = head + seq!['.'] + tail;
    lemma_segment_has_no_dot(head);
    assert forall|k: int| 0 <= k < head.len() implies s[k] != '.' by {
        assert(s[k] == head[k]);
        assert(is_word_char(head[k]) || is_digit(head[k]));
    }
    lemma_first_index_is(s, '.', head.len() as int);
    assert(s.take(head.len() as int) =~= head);
    assert(s.skip(head.len() as int + 1) =~= tail);
}

/// A word alone is a variable name.
pub proof fn lemma_word_is_identifier(s: Seq<char>)
    requires
        is_word(s),
    ensures
        is_identifier(s),
{
    lemma_segment_has_no_dot(s);
    assert(s.take(s.len() as int) =~= s);
}

/// A word, a dot and a list of segments are a variable name.
pub proof fn lemma_identifier_extends(head: Seq<char>, tail: Seq<char>)
    requires
        is_word(head),
        is_segment_list(tail),
    ensures
        is_identifier(head + seq!['.'] + tail),
{
    let s = head + seq!['.'] + tail;
    assert forall|k: int| 0 <= k < head.len() implies s[k] != '.' by {
        assert(s[k] == head[k]);
        assert(is_word_char(head[k]));
    }
    lemma_first_index_is(s, '.', head.len() as int);
    assert(s.take(head.len() as int) =~= head);
    assert(s.skip(head.len() as int + 1) =~= tail);
}

/// A list of segments is not empty and holds name characters only.
pub proof fn lemma_segment_list_chars(s: Seq<char>)
    requires
        is_segment_list(s),
    ensures
        s.len() > 0,
        forall|i: int| 0 <= i < s.len() ==> is_name_char(#[trigger] s[i]),
    decreases s.len(),
{
    let n = first_index(s, '.');
    lemma_first_index(s, '.');
    let head = s.take(n);
    assert(is_segment(head));
    assert forall|i: int| 0 <= i < n implies is_name_char(#[trigger] s[i]) by {
        assert(head[i] == s[i]);
    }
    if n < s.len() {
        let rest = s.skip(n + 1);
        lemma_segment_list_chars(rest);
        assert forall|i: int| n < i < s.len() implies is_name_char(#[trigger] s[i]) by {
            assert(rest[i - n - 1] == s[i]);
        }
    }
}

/// A variable name is not empty and holds name characters only.
pub proof fn lemma_identifier_chars(s: Seq<char>)
    requires
        is_identifier(s),
    ensures
        s.len() > 0,
        forall|i: int| 0 <= i < s.len() ==> is_name_char(#[trigger] s[i]),
{
    let n = first_index(s, '.');
    lemma_first_index(s, '.');
    let head = s.take(n);
    assert(is_word(head));
    assert forall|i: int| 0 <= i < n implies is_name_char(#[trigger] s[i]) by {
        assert(head[i] == s[i]);
    }
    if n < s.len() {
        let rest = s.skip(n + 1);
        lemma_segment_list_chars(rest);
        assert forall|i: int| n < i < s.len() implies is_name_char(#[trigger] s[i]) by {
            assert(rest[i - n - 1] == s[i]);
        }
    }
}

fn letter(c: char) -> (r: bool)
    ensures
        r == is_letter(c),
{
    ('a' <= c && c <= 'z') || ('A' <= c && c <= 'Z')
}

fn digit(c: char) -> (r: bool)
    ensures
        r == is_digit(c),
{
    '0' <= c && c <= '9'
}

fn word_char(c: char) -> (r: bool)
    ensures
        r == is_word_char(c),
{
    letter(c) || digit(c) || c == '_' || c == '-'
}

/// Whether `c` may stand inside a name.
pub(crate) fn name_char(c: char) -> (r: bool)
    ensures
        r == is_name_char(c),
{
    word_char(c) || c == '.'
}

/// Whether `chars[from..to]` is a word.
fn check_word(chars: &Vec<char>, from: usize, to: usize) -> (r: bool)
    requires
        from <= to <= chars.len(),
    ensures
        r == is_word(chars@.subrange(from as int, to as int)),
{
    let ghost s = chars@.subrange(from as int, to as int);
    if from == to {
        return false;
    }
    let first = chars[from];
    if !(letter(first) || first == '_') {
        assert(s[0] == first);
        return false;
    }
    let mut i: usize = from;
    while i < to
        invariant
            from <= i <= to <= chars.len(),
            s == chars@.subrange(from as int, to as int),
            forall|k: int| 0 <= k < i - from ==> is_word_char(#[trigger] s[k]),
        decreases to - i,
    {
        if !word_char(chars[i]) {
            assert(s[i - from] == chars@[i as int]);
            return false;
        }
        i += 1;
    }
    true
}

/// Whether `chars[from..to]` is a number.
fn check_number(chars: &Vec<char>, from: usize, to: usize) -> (r: bool)
    requires
        from <= to <= chars.len(),
    ensures
        r == is_number(chars@.subrange(from as int, to as int)),
{
    let ghost s = chars@.subrange(from as int, to as int);
    if from == to {
        return false;
    }
    let mut i: usize = from;
    while i < to
        invariant
            from <= i <= to <= chars.len(),
            s == chars@.subrange(from as int, to as int),
            forall|k: int| 0 <= k < i - from ==> is_digit(#[trigger] s[k]),
        decreases to - i,
    {
        if !digit(chars[i]) {
            assert(s[i - from] == chars@[i as int]);
            return false;
        }
        i += 1;
    }
    true
}

/// Whether `chars[from..to]` is a variable name.
pub(crate) fn check_identifier(chars: &Vec<char>, from: usize, to: usize) -> (r: bool)
    requires
        from <= to <= chars.len(),
    ensures
        r == is_identifier(chars@.subrange(from as int, to as int)),
{
    let ghost s = chars@.subrange(from as int, to as int);
    let n = find_first(chars, from, to, '.');
    assert(s.take(n as int) =~= chars@.subrange(from as int, from + n));
    if !check_word(chars, from, from + n) {
        return false;
    }
    let mut i: usize = from + n;
    assert(i < to ==> s.skip(n + 1) =~= chars@.subrange(i + 1, to as int));
    while i < to
        invariant
            from <= i <= to <= chars.len(),
            is_identifier(chars@.subrange(from as int, to as int)) == (i < to ==> is_segment_list(
                chars@.subrange(i + 1, to as int),
            )),
        decreases to - i,
    {
        let start = i + 1;
        let ghost rest = chars@.subrange(start as int, to as int);
        let n = find_first(chars, start, to, '.');
        assert(rest.take(n as int) =~= chars@.subrange(start as int, start + n));
        assert(start + n < to ==> rest.skip(n + 1) =~= chars@.subrange(start + n + 1, to as int));
        if !(check_word(chars, start, start + n) || check_number(chars, start, start + n)) {
            return false;
        }
        i = start + n;
    }
    true
}

/// Whether `name` is a variable name.
pub fn is_variable_name(name: &str) -> (r: bool)
    ensures
        r == is_identifier(name@),
{
    let chars = to_chars(name);
    assert(chars@.subrange(0, chars.len() as int) =~= name@);
    check_identifier(&chars, 0, chars.len())
}

} // verus!
