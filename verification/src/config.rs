//! The persisted configuration: the definitions that hold for every run.

use vstd::prelude::*;
use vstd::string::*;
use crate::context::Context;
use crate::ident::is_identifier;
use crate::keys::{lemma_keys, GITHUB_USERNAME};
use crate::outside::{
    contains_table, document_keys, document_strings, document_tables, document_text,
    insert_table, parse_document, parsed_toml, render, set_string, sort_table, sorted,
    without_table, DocumentModel,
};

verus! {

/// The persisted configuration.
#[derive(Debug)]
pub struct Config {
    /// The definitions that were persisted.
    pub context: Context,
}

impl Clone for Config {
    /// A configuration with the same definitions.
    fn clone(&self) -> (r: Config)
        ensures
            r.context@ == self.context@,
    {
        Config { context: self.context.clone() }
    }
}

/// The mapping that the persisted entries `entries` give: a later entry
/// replaces an earlier one of the same name, and an entry whose name is no
/// variable name is left out.
pub open spec fn loaded(entries: Seq<(Seq<char>, Seq<char>)>) -> Map<Seq<char>, Seq<char>>
    decreases entries.len(),
{
    if entries.len() == 0 {
        Map::empty()
    } else if is_identifier(entries.last().0) {
        loaded(entries.drop_last()).insert(entries.last().0, entries.last().1)
    } else {
        loaded(entries.drop_last())
    }
}

/// The name of the table of the configuration file that holds the
/// definitions.
pub const CONTEXT_TABLE: &'static str = "context";

/// A configuration file that is no TOML document; `detail` is what the
/// parser said.
#[derive(Debug)]
pub struct ConfigError {
    pub detail: String,
}

impl ConfigError {
    /// The text of the error.
    pub fn message(&self) -> (r: String)
        ensures
            r@ == self.detail@,
    {
        self.detail.clone()
    }
}

/// `strings` after each of `values`, a key with its string, was written into
/// the table `table`, one after the other.
pub open spec fn with_values(
    strings: Map<(Seq<char>, Seq<char>), Seq<char>>,
    table: Seq<char>,
    values: Seq<(Seq<char>, Seq<char>)>,
) -> Map<(Seq<char>, Seq<char>), Seq<char>>
    decreases values.len(),
{
    if values.len() == 0 {
        strings
    } else {
        with_values(strings, table, values.drop_last()).insert(
            (table, values.last().0),
            values.last().1,
        )
    }
}

/// What a document that held `model` holds once `values` were written into
/// its table of definitions. Where it had no such table it gets an empty
/// one first, in the place of whatever stood under that name.
pub open spec fn updated(model: DocumentModel, values: Seq<(Seq<char>, Seq<char>)>) -> DocumentModel {
    let strings = if model.tables.contains(CONTEXT_TABLE@) {
        model.strings
    } else {
        without_table(model.strings, CONTEXT_TABLE@)
    };
    DocumentModel {
        tables: model.tables.insert(CONTEXT_TABLE@),
        strings: with_values(strings, CONTEXT_TABLE@, values),
    }
}

/// After the writing, the key of each entry of `values` has a string in the
/// table: the string of that entry, where no later entry has the same key.
pub proof fn lemma_with_values_holds(
    strings: Map<(Seq<char>, Seq<char>), Seq<char>>,
    table: Seq<char>,
    values: Seq<(Seq<char>, Seq<char>)>,
    i: int,
)
    requires
        0 <= i < values.len(),
    ensures
        with_values(strings, table, values).contains_key((table, values[i].0)),
        (forall|j: int| i < j < values.len() ==> (#[trigger] values[j]).0 != values[i].0)
            ==> with_values(strings, table, values)[(table, values[i].0)] == values[i].1,
    decreases values.len(),
{
    let init = values.drop_last();
    if i < init.len() {
        lemma_with_values_holds(strings, table, init, i);
        assert(init[i] == values[i]);
        if forall|j: int| i < j < values.len() ==> (#[trigger] values[j]).0 != values[i].0 {
            assert(values[values.len() - 1].0 != values[i].0);
            assert forall|j: int| i < j < init.len() implies (#[trigger] init[j]).0
                != init[i].0 by {
                assert(init[j] == values[j]);
            }
        }
    }
}

/// The writing leaves alone what no entry of `values` names.
pub proof fn lemma_with_values_frame(
    strings: Map<(Seq<char>, Seq<char>), Seq<char>>,
    table: Seq<char>,
    values: Seq<(Seq<char>, Seq<char>)>,
    at: (Seq<char>, Seq<char>),
)
    requires
        forall|i: int| 0 <= i < values.len() ==> (table, (#[trigger] values[i]).0) != at,
    ensures
        with_values(strings, table, values).contains_key(at) == strings.contains_key(at),
        strings.contains_key(at) ==> with_values(strings, table, values)[at] == strings[at],
    decreases values.len(),
{
    if values.len() > 0 {
        let init = values.drop_last();
        assert forall|i: int| 0 <= i < init.len() implies (table, (#[trigger] init[i]).0)
            != at by {
            assert(init[i] == values[i]);
        }
        lemma_with_values_frame(strings, table, init, at);
        assert((table, values[values.len() - 1].0) != at);
    }
}

impl Config {
    /// The text of the configuration file once `values` are written into
    /// its table of definitions, where `content` is the text of the file
    /// before. The table is made where there is none. A later value for a
    /// key replaces an earlier one. The keys of the table come out sorted,
    /// each once, and each key of `values` is among them. The layout of the
    /// rest of the file is left to toml_edit.
    pub fn set_context(content: &str, values: &Vec<(String, String)>) -> (r: Result<
        String,
        ConfigError,
    >)
        ensures
            match r {
                Ok(text) => parsed_toml(content@) is Ok && exists|doc: toml_edit::DocumentMut|
                    {
                        &&& text@ == #[trigger] document_text(doc)
                        &&& (DocumentModel {
                            tables: document_tables(doc),
                            strings: document_strings(doc),
                        }) == updated(parsed_toml(content@)->Ok_0, values.deep_view())
                        &&& document_keys(doc).contains_key(CONTEXT_TABLE@)
                        &&& sorted(document_keys(doc)[CONTEXT_TABLE@])
                        &&& document_keys(doc)[CONTEXT_TABLE@].no_duplicates()
                        &&& forall|i: int|
                            0 <= i < values.len() ==> document_keys(doc)[CONTEXT_TABLE@].contains(
                                #[trigger] values.deep_view()[i].0,
                            )
                    },
                Err(e) => parsed_toml(content@) == Err::<DocumentModel, Seq<char>>(e.detail@),
            },
    {
        let mut doc = match parse_document(content) {
            Ok(doc) => doc,
            Err(detail) => {
                return Err(ConfigError { detail });
            },
        };
        if !contains_table(&doc, CONTEXT_TABLE) {
            insert_table(&mut doc, CONTEXT_TABLE);
        }
        let ghost base = document_strings(doc);
        let ghost all = values.deep_view();
        let mut i: usize = 0;
        while i < values.len()
            invariant
                i <= values.len(),
                all == values.deep_view(),
                document_tables(doc) == parsed_toml(content@)->Ok_0.tables.insert(CONTEXT_TABLE@),
                document_strings(doc) == with_values(base, CONTEXT_TABLE@, all.take(i as int)),
            decreases values.len() - i,
        {
            set_string(&mut doc, CONTEXT_TABLE, values[i].0.as_str(), values[i].1.as_str());
            i += 1;
            assert(all.take(i as int).drop_last() =~= all.take(i - 1));
        }
        assert(all.take(i as int) =~= all);
        sort_table(&mut doc, CONTEXT_TABLE);
        proof {
            assert forall|i: int| 0 <= i < values.len() implies document_keys(
                doc,
            )[CONTEXT_TABLE@].contains(#[trigger] all[i].0) by {
                lemma_with_values_holds(base, CONTEXT_TABLE@, all, i);
                assert(document_strings(doc).contains_key((CONTEXT_TABLE@, all[i].0)));
            }
        }
        Ok(render(&doc))
    }

    /// The configuration of a first run, made from the answer to the
    /// question for the GitHub user name, and whether the answer is to be
    /// persisted: an empty answer is not.
    pub fn init(github_username: String) -> (r: (Config, bool))
        ensures
            r.0.context@ == Map::<Seq<char>, Seq<char>>::empty().insert(
                GITHUB_USERNAME@,
                github_username@,
            ),
            r.1 == (github_username@.len() > 0),
    {
        let persist = !github_username.as_str().is_empty();
        let mut context = Context::new();
        proof {
            lemma_keys();
        }
        context.insert(String::from_str(GITHUB_USERNAME), github_username);
        (Config { context }, persist)
    }

    /// The configuration that holds the persisted entries `entries`.
    pub fn load(entries: &Vec<(String, String)>) -> (r: Config)
        ensures
            r.context@ == loaded(entries.deep_view()),
    {
        let mut context = Context::new();
        let mut i: usize = 0;
        while i < entries.len()
            invariant
                i <= entries.len(),
                context@ == loaded(entries.deep_view().take(i as int)),
            decreases entries.len() - i,
        {
            let key = entries[i].0.clone();
            let value = entries[i].1.clone();
            context.insert(key, value);
            i += 1;
            assert(entries.deep_view().take(i as int).drop_last() =~= entries.deep_view().take(i - 1));
        }
        assert(entries.deep_view().take(i as int) =~= entries.deep_view());
        Config { context }
    }
}

} // verus!
