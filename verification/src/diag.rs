//! What the building of a context may warn of. No warning ends a run.

use vstd::prelude::*;
use vstd::string::*;

verus! {

/// A warning that the building of a context gives.
#[derive(Debug)]
pub enum Warning {
    /// `name` has no value, and none could be inferred.
    NameUnset,
    /// `author.name` has no value, and none could be inferred.
    AuthorNameUnset,
    /// `author.email` has no value, and none could be inferred.
    AuthorEmailUnset,
    /// The alias of a rule already has a value: the rule is skipped.
    AliasOccupied { alias: String, canonical: String },
    /// The canonical name of a rule has no value: the rule is skipped.
    AliasUnresolved { alias: String, canonical: String },
}

/// What a `Warning` says, as contracts speak of it.
pub enum Notice {
    NameUnset,
    AuthorNameUnset,
    AuthorEmailUnset,
    AliasOccupied { alias: Seq<char>, canonical: Seq<char> },
    AliasUnresolved { alias: Seq<char>, canonical: Seq<char> },
}

impl View for Warning {
    type V = Notice;

    open spec fn view(&self) -> Notice {
        match self {
            Warning::NameUnset => Notice::NameUnset,
            Warning::AuthorNameUnset => Notice::AuthorNameUnset,
            Warning::AuthorEmailUnset => Notice::AuthorEmailUnset,
            Warning::AliasOccupied { alias, canonical } => Notice::AliasOccupied {
                alias: alias@,
                canonical: canonical@,
            },
            Warning::AliasUnresolved { alias, canonical } => Notice::AliasUnresolved {
                alias: alias@,
                canonical: canonical@,
            },
        }
    }
}

impl DeepView for Warning {
    type V = Notice;

    open spec fn deep_view(&self) -> Notice {
        self@
    }
}

impl Notice {
    /// The text of the warning.
    pub open spec fn message(self) -> Seq<char> {
        match self {
            Notice::NameUnset => "name is unset, but is used by many templates"@,
            Notice::AuthorNameUnset => "author.name is unset, but is used by many templates"@,
            Notice::AuthorEmailUnset => "author.email is unset, but is used by many templates"@,
            Notice::AliasOccupied { alias, canonical } => alias + " was aliased to "@ + canonical
                + ", but "@ + alias + " is already set"@,
            Notice::AliasUnresolved { alias, canonical } => alias + " was aliased to "@ + canonical
                + ", but "@ + canonical + " is not set"@,
        }
    }

    /// What can be done about the warning, one text for each way.
    pub open spec fn hints(self) -> Seq<Seq<char>> {
        match self {
            Notice::NameUnset => seq![
                "try running:\n    bai [files...] -define \"name=my_project\""@,
            ],
            Notice::AuthorNameUnset => seq![
                "author.name can be set by running\n    bai -set \"author.name=James Baxter\""@,
                "author.name can also be inferred from git\n    git config --global user.name \"James Baxter\""@,
            ],
            Notice::AuthorEmailUnset => seq![
                "author.email can be set by running\n    bai -set \"author.email=jamesbaxter@hey.com\""@,
                "author.email can also be inferred from git\n    git config --global user.email \"jamesbaxter@hey.com\""@,
            ],
            Notice::AliasOccupied { .. } => Seq::empty(),
            Notice::AliasUnresolved { .. } => Seq::empty(),
        }
    }
}

impl Warning {
    /// The text of the warning.
    pub fn message(&self) -> (r: String)
        ensures
            r@ == self@.message(),
    {
        match self {
            Warning::NameUnset => String::from_str("name is unset, but is used by many templates"),
            Warning::AuthorNameUnset => String::from_str(
                "author.name is unset, but is used by many templates",
            ),
            Warning::AuthorEmailUnset => String::from_str(
                "author.email is unset, but is used by many templates",
            ),
            Warning::AliasOccupied { alias, canonical } => {
                let mut r = String::from_str(alias.as_str());
                r.append(" was aliased to ");
                r.append(canonical.as_str());
                r.append(", but ");
                r.append(alias.as_str());
                r.append(" is already set");
                r
            },
            Warning::AliasUnresolved { alias, canonical } => {
                let mut r = String::from_str(alias.as_str());
                r.append(" was aliased to ");
                r.append(canonical.as_str());
                r.append(", but ");
                r.append(canonical.as_str());
                r.append(" is not set");
                r
            },
        }
    }

    /// What can be done about the warning, one text for each way.
    pub fn hints(&self) -> (r: Vec<&'static str>)
        ensures
            r.deep_view() == self@.hints(),
    {
        let mut r: Vec<&'static str> = Vec::new();
        match self {
            Warning::NameUnset => {
                r.push("try running:\n    bai [files...] -define \"name=my_project\"");
            },
            Warning::AuthorNameUnset => {
                r.push("author.name can be set by running\n    bai -set \"author.name=James Baxter\"");
                r.push(
                    "author.name can also be inferred from git\n    git config --global user.name \"James Baxter\"",
                );
            },
            Warning::AuthorEmailUnset => {
                r.push(
                    "author.email can be set by running\n    bai -set \"author.email=jamesbaxter@hey.com\"",
                );
                r.push(
                    "author.email can also be inferred from git\n    git config --global user.email \"jamesbaxter@hey.com\"",
                );
            },
            Warning::AliasOccupied { .. } => {},
            Warning::AliasUnresolved { .. } => {},
        }
        assert(r.deep_view() =~= self@.hints());
        r
    }
}

} // verus!
