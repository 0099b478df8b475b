//! The variable names that the library itself reads and sets.

use vstd::prelude::*;
use crate::ident::{
    is_identifier, is_word, lemma_identifier_extends, lemma_segment_is_list,
    lemma_word_is_identifier,
};

verus! {

/// The name of the project.
pub const NAME: &'static str = "name";

/// The default branch of a new repository.
pub const GIT_BRANCH: &'static str = "git.branch";

/// The author's name.
pub const AUTHOR_NAME: &'static str = "author.name";

/// The author's e-mail address.
pub const AUTHOR_EMAIL: &'static str = "author.email";

/// The current year.
pub const DATE_YEAR: &'static str = "date.year";

/// The user name on GitHub.
pub const GITHUB_USERNAME: &'static str = "github.username";

/// The owner of the repository on GitHub.
pub const GITHUB_OWNER: &'static str = "github.owner";

/// The holder of the license, in American spelling.
pub const LICENSE_OWNER: &'static str = "license.owner";

/// The holder of the licence, in British spelling.
pub const LICENCE_OWNER: &'static str = "licence.owner";

/// Two words with a dot between them are a variable name.
proof fn lemma_two_words(name: Seq<char>, first: Seq<char>, second: Seq<char>)
    requires
        is_word(first),
        is_word(second),
        name == first + seq!['.'] + second,
    ensures
        is_identifier(name),
{
    lemma_segment_is_list(second);
    lemma_identifier_extends(first, second);
}

/// The names of this module.
pub open spec fn known_keys() -> Seq<Seq<char>> {
    seq![
        NAME@,
        GIT_BRANCH@,
        AUTHOR_NAME@,
        AUTHOR_EMAIL@,
        DATE_YEAR@,
        GITHUB_USERNAME@,
        GITHUB_OWNER@,
        LICENSE_OWNER@,
        LICENCE_OWNER@,
    ]
}

/// Each name of this module is a variable name, and no two of them are the
/// same.
pub proof fn lemma_keys()
    ensures
        forall|i: int| 0 <= i < known_keys().len() ==> is_identifier(#[trigger] known_keys()[i]),
        known_keys().no_duplicates(),
        is_identifier(NAME@),
        is_identifier(GIT_BRANCH@),
        is_identifier(AUTHOR_NAME@),
        is_identifier(AUTHOR_EMAIL@),
        is_identifier(DATE_YEAR@),
        is_identifier(GITHUB_USERNAME@),
        is_identifier(GITHUB_OWNER@),
        is_identifier(LICENSE_OWNER@),
        is_identifier(LICENCE_OWNER@),
        GITHUB_USERNAME@ != GITHUB_OWNER@,
        AUTHOR_NAME@ != LICENSE_OWNER@,
        AUTHOR_NAME@ != LICENCE_OWNER@,
        LICENSE_OWNER@ != LICENCE_OWNER@,
{
    reveal_strlit("name");
    reveal_strlit("git.branch");
    reveal_strlit("author.name");
    reveal_strlit("author.email");
    reveal_strlit("date.year");
    reveal_strlit("github.username");
    reveal_strlit("github.owner");
    reveal_strlit("license.owner");
    reveal_strlit("licence.owner");
    reveal_strlit("git");
    reveal_strlit("branch");
    reveal_strlit("author");
    reveal_strlit("email");
    reveal_strlit("date");
    reveal_strlit("year");
    reveal_strlit("github");
    reveal_strlit("username");
    reveal_strlit("owner");
    reveal_strlit("license");
    reveal_strlit("licence");
    lemma_word_is_identifier("name"@);
    assert("git.branch"@ =~= "git"@ + seq!['.'] + "branch"@);
    lemma_two_words("git.branch"@, "git"@, "branch"@);
    assert("author.name"@ =~= "author"@ + seq!['.'] + "name"@);
    lemma_two_words("author.name"@, "author"@, "name"@);
    assert("author.email"@ =~= "author"@ + seq!['.'] + "email"@);
    lemma_two_words("author.email"@, "author"@, "email"@);
    assert("date.year"@ =~= "date"@ + seq!['.'] + "year"@);
    lemma_two_words("date.year"@, "date"@, "year"@);
    assert("github.username"@ =~= "github"@ + seq!['.'] + "username"@);
    lemma_two_words("github.username"@, "github"@, "username"@);
    assert("github.owner"@ =~= "github"@ + seq!['.'] + "owner"@);
    lemma_two_words("github.owner"@, "github"@, "owner"@);
    assert("license.owner"@ =~= "license"@ + seq!['.'] + "owner"@);
    lemma_two_words("license.owner"@, "license"@, "owner"@);
    assert("licence.owner"@ =~= "licence"@ + seq!['.'] + "owner"@);
    lemma_two_words("licence.owner"@, "licence"@, "owner"@);
    assert("github.username"@[7] != "github.owner"@[7]);
    assert("author.name"@[7] != "author.email"@[7]);
    assert("license.owner"@[5] != "licence.owner"@[5]);
    assert("name"@[0] == 'n' && "git.branch"@[0] == 'g' && "author.name"@[0] == 'a'
        && "date.year"@[0] == 'd' && "license.owner"@[0] == 'l');
    assert("git.branch"@[3] != "github.owner"@[3]);
    assert("author.email"@[0] == 'a' && "github.username"@[0] == 'g' && "github.owner"@[0] == 'g'
        && "licence.owner"@[0] == 'l');
    assert("git.branch"@[3] != "github.username"@[3]);
}

} // verus!
