//! The calls into other crates and into parts of the standard library that
//! have no contract yet.
//!
//! Nothing here is proved: each contract states what the source or the
//! documentation of the item shows, and the proofs of the library rest on
//! it. What such a call gives is stated in full where a few lines can say
//! it. Where they cannot, and the call reads its arguments only, what it
//! gives has a name, of which nothing more is known.

use vstd::prelude::*;

verus! {

/// `String::push` appends one character to the end of the string.
pub assume_specification[ String::push ](s: &mut String, c: char)
    ensures
        final(s)@ == old(s)@.push(c),
;

/// The address that the url crate resolves `reference` to against the
/// address `base`, or what it says where it resolves it to none.
pub uninterp spec fn joined(base: Seq<char>, reference: Seq<char>) -> Result<Seq<char>, Seq<char>>;

/// Parses `base` with `Url::parse` and resolves `reference` against it with
/// `Url::join`; `Url` is the type of the url crate, as reqwest hands it on.
/// Both calls read their arguments only, so the outcome has a name: the text
/// of the address that comes out, or the text of the error of the call that
/// failed.
#[verifier::external_body]
pub(crate) fn join(base: &str, reference: &str) -> (r: Result<String, String>)
    ensures
        match r {
            Ok(url) => joined(base@, reference@) == Ok::<Seq<char>, Seq<char>>(url@),
            Err(detail) => joined(base@, reference@) == Err::<Seq<char>, Seq<char>>(detail@),
        },
{
    match reqwest::Url::parse(base) {
        Ok(base) => match base.join(reference) {
            Ok(url) => Ok(String::from(url)),
            Err(e) => Err(e.to_string()),
        },
        Err(e) => Err(e.to_string()),
    }
}

/// The current year in the local time zone, as `Local::now` and
/// `Datelike::year` of chrono give it. Nothing is stated of the result: it
/// depends on the clock and on the time zone of the machine. chrono panics
/// where the clock of the machine stands before 1970.
#[verifier::external_body]
pub(crate) fn current_year() -> (year: i32) {
    chrono::Datelike::year(&chrono::Local::now())
}

/// A TOML document of toml_edit, which can be edited and keeps its layout.
/// The library has its documents from `parse_document` alone, so the root of
/// each is a table, as the calls below take for granted.
#[verifier::external_type_specification]
#[verifier::external_body]
pub struct ExDocumentMut(toml_edit::DocumentMut);

/// The names under which the root of `doc` holds a table.
pub uninterp spec fn document_tables(doc: toml_edit::DocumentMut) -> Set<Seq<char>>;

/// The strings that the tables at the root of `doc` hold: for a table and a
/// key in it whose value is a string, that string.
pub uninterp spec fn document_strings(doc: toml_edit::DocumentMut) -> Map<(Seq<char>, Seq<char>), Seq<char>>;

/// The keys of each table at the root of `doc`, in the order in which the
/// table holds them.
pub uninterp spec fn document_keys(doc: toml_edit::DocumentMut) -> Map<Seq<char>, Seq<Seq<char>>>;

/// The text that `doc` is written as.
pub uninterp spec fn document_text(doc: toml_edit::DocumentMut) -> Seq<char>;

/// What the text of a document holds.
pub struct DocumentModel {
    /// The names of the tables at its root.
    pub tables: Set<Seq<char>>,
    /// The strings in those tables, by table and key.
    pub strings: Map<(Seq<char>, Seq<char>), Seq<char>>,
}

/// What toml_edit reads `text` as: where it is a TOML document, what that
/// document holds, and where it is not, what the parser says.
pub uninterp spec fn parsed_toml(text: Seq<char>) -> Result<DocumentModel, Seq<char>>;

/// `a` is `b` or stands before it in the order of strings.
pub open spec fn precedes(a: Seq<char>, b: Seq<char>) -> bool
    decreases a.len(),
{
    if a.len() == 0 {
        true
    } else if b.len() == 0 {
        false
    } else if a[0] != b[0] {
        a[0] < b[0]
    } else {
        precedes(a.skip(1), b.skip(1))
    }
}

/// `keys` stand in the order of strings.
pub open spec fn sorted(keys: Seq<Seq<char>>) -> bool {
    forall|i: int, j: int| 0 <= i < j < keys.len() ==> precedes(keys[i], keys[j])
}

/// `strings` without what the table `table` holds.
pub open spec fn without_table(
    strings: Map<(Seq<char>, Seq<char>), Seq<char>>,
    table: Seq<char>,
) -> Map<(Seq<char>, Seq<char>), Seq<char>> {
    Map::new(
        |at: (Seq<char>, Seq<char>)| at.0 != table && strings.contains_key(at),
        |at: (Seq<char>, Seq<char>)| strings[at],
    )
}

/// Parses `text` as `str::parse::<DocumentMut>` of toml_edit does. The
/// outcome depends on the text alone: a document that holds what
/// `parsed_toml` names, or the text of the parser's error.
#[verifier::external_body]
pub(crate) fn parse_document(text: &str) -> (r: Result<toml_edit::DocumentMut, String>)
    ensures
        match r {
            Ok(doc) => parsed_toml(text@) == Ok::<DocumentModel, Seq<char>>(
                DocumentModel { tables: document_tables(doc), strings: document_strings(doc) },
            ),
            Err(detail) => parsed_toml(text@) == Err::<DocumentModel, Seq<char>>(detail@),
        },
{
    match text.parse::<toml_edit::DocumentMut>() {
        Ok(doc) => Ok(doc),
        Err(e) => Err(e.to_string()),
    }
}

/// `Table::contains_table` on the root of `doc`: whether the root holds a
/// table under `name`.
#[verifier::external_body]
pub(crate) fn contains_table(doc: &toml_edit::DocumentMut, name: &str) -> (r: bool)
    ensures
        r == document_tables(*doc).contains(name@),
{
    doc.contains_table(name)
}

/// Puts an empty table under `name` at the root of `doc`, by assignment to
/// `doc[name]`. What stood under `name` is gone; all else stays.
#[verifier::external_body]
pub(crate) fn insert_table(doc: &mut toml_edit::DocumentMut, name: &str)
    ensures
        document_tables(*final(doc)) == document_tables(*old(doc)).insert(name@),
        document_strings(*final(doc)) == without_table(document_strings(*old(doc)), name@),
{
    doc[name] = toml_edit::Item::Table(toml_edit::Table::new());
}

/// Gives `key` the string `value` in the table `table` of `doc`, by
/// assignment to `doc[table][key]`; all else stays. The index panics where
/// what `doc` holds under `table` is neither a table nor an inline table.
#[verifier::external_body]
pub(crate) fn set_string(doc: &mut toml_edit::DocumentMut, table: &str, key: &str, value: &str)
    requires
        document_tables(*old(doc)).contains(table@),
    ensures
        document_tables(*final(doc)) == document_tables(*old(doc)),
        document_strings(*final(doc)) == document_strings(*old(doc)).insert(
            (table@, key@),
            value@,
        ),
{
    doc[table][key] = toml_edit::value(value);
}

/// `Table::sort_values` on the table `table` of `doc`: its keys come to
/// stand in the order of strings, and it holds what it held. A table holds
/// each of its keys once, the keys of its strings among them. The call
/// panics where `doc` holds no table under `table`.
#[verifier::external_body]
pub(crate) fn sort_table(doc: &mut toml_edit::DocumentMut, table: &str)
    requires
        document_tables(*old(doc)).contains(table@),
    ensures
        document_tables(*final(doc)) == document_tables(*old(doc)),
        document_strings(*final(doc)) == document_strings(*old(doc)),
        document_keys(*final(doc)).contains_key(table@),
        sorted(document_keys(*final(doc))[table@]),
        document_keys(*final(doc))[table@].no_duplicates(),
        forall|key: Seq<char>|
            document_strings(*final(doc)).contains_key((table@, key)) ==> document_keys(
                *final(doc),
            )[table@].contains(key),
{
    doc[table].as_table_mut().unwrap().sort_values();
}

/// The text of `doc`, as its `to_string` gives it.
#[verifier::external_body]
pub(crate) fn render(doc: &toml_edit::DocumentMut) -> (r: String)
    ensures
        r@ == document_text(*doc),
{
    doc.to_string()
}

} // verus!
