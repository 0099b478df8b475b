//! The building of the context of a run.
//!
//! The persisted configuration is the base, and the definitions of the run
//! stand over it. After that a value is only ever given to a name that has
//! none: the defaults that the environment gives, the owner on GitHub, the
//! alias rules and the two spellings of the license holder, in this order.

use vstd::prelude::*;
use vstd::string::*;
use crate::config::Config;
use crate::context::Context;
use crate::diag::{Notice, Warning};
use crate::ident::is_identifier;
use crate::keys::{
    lemma_keys, AUTHOR_EMAIL, AUTHOR_NAME, DATE_YEAR, GITHUB_OWNER, GITHUB_USERNAME, GIT_BRANCH,
    LICENCE_OWNER, LICENSE_OWNER, NAME,
};
use crate::options::AliasRule;
use crate::outside::current_year;
use crate::text::{decimal, decimal_string};

verus! {

/// What the environment gave for each default that was asked of it; `None`
/// where it gave nothing.
#[derive(Debug)]
pub struct Inferred {
    /// The name of the working directory.
    pub name: Option<String>,
    /// The default branch that version control is configured with.
    pub git_branch: Option<String>,
    /// The name that version control is configured with.
    pub author_name: Option<String>,
    /// The e-mail address that version control is configured with.
    pub author_email: Option<String>,
}

/// What an `Inferred` holds, as contracts speak of it.
pub struct Found {
    pub name: Option<Seq<char>>,
    pub git_branch: Option<Seq<char>>,
    pub author_name: Option<Seq<char>>,
    pub author_email: Option<Seq<char>>,
}

impl View for Inferred {
    type V = Found;

    open spec fn view(&self) -> Found {
        Found {
            name: self.name.deep_view(),
            git_branch: self.git_branch.deep_view(),
            author_name: self.author_name.deep_view(),
            author_email: self.author_email.deep_view(),
        }
    }
}

/// Which defaults the environment is to be asked for: those of the names
/// that have no value yet.
#[derive(Clone, Copy, Debug, PartialEq, Eq, Structural)]
pub struct Wanted {
    pub name: bool,
    pub git_branch: bool,
    pub author_name: bool,
    pub author_email: bool,
}

/// The branch that stands for `git.branch` where version control names none.
pub open spec fn fallback_branch() -> Seq<char> {
    "master"@
}

/// `m`, with `value` for `key` where `key` has no value yet.
pub open spec fn filled(
    m: Map<Seq<char>, Seq<char>>,
    key: Seq<char>,
    value: Option<Seq<char>>,
) -> Map<Seq<char>, Seq<char>> {
    match value {
        Some(v) if !m.contains_key(key) => m.insert(key, v),
        _ => m,
    }
}

/// `m`, with the value of `from` for `to` where `from` has a value and `to`
/// has none.
pub open spec fn copied(
    m: Map<Seq<char>, Seq<char>>,
    from: Seq<char>,
    to: Seq<char>,
) -> Map<Seq<char>, Seq<char>> {
    if m.contains_key(from) && !m.contains_key(to) {
        m.insert(to, m[from])
    } else {
        m
    }
}

/// `m` with the defaults filled in: the name, the branch (the fallback where
/// none was found), the author's name and e-mail address, and the year.
pub open spec fn with_defaults(
    m: Map<Seq<char>, Seq<char>>,
    found: Found,
    year: int,
) -> Map<Seq<char>, Seq<char>> {
    let m = filled(m, NAME@, found.name);
    let m = filled(
        m,
        GIT_BRANCH@,
        Some(
            match found.git_branch {
                Some(branch) => branch,
                None => fallback_branch(),
            },
        ),
    );
    let m = filled(m, AUTHOR_NAME@, found.author_name);
    let m = filled(m, AUTHOR_EMAIL@, found.author_email);
    filled(m, DATE_YEAR@, Some(decimal(year)))
}

/// `seq![notice]` where `given`, and nothing where not.
pub open spec fn notice_if(given: bool, notice: Notice) -> Seq<Notice> {
    if given {
        seq![notice]
    } else {
        Seq::empty()
    }
}

/// The warnings of the defaults: one for each of the name, the author's name
/// and the author's e-mail address that has no value and got none.
pub open spec fn default_notices(m: Map<Seq<char>, Seq<char>>, found: Found) -> Seq<Notice> {
    notice_if(!m.contains_key(NAME@) && found.name is None, Notice::NameUnset) + notice_if(
        !m.contains_key(AUTHOR_NAME@) && found.author_name is None,
        Notice::AuthorNameUnset,
    ) + notice_if(
        !m.contains_key(AUTHOR_EMAIL@) && found.author_email is None,
        Notice::AuthorEmailUnset,
    )
}

/// `m` after the rule `rule`, an alias with its canonical name.
pub open spec fn alias_applied(
    m: Map<Seq<char>, Seq<char>>,
    rule: (Seq<char>, Seq<char>),
) -> Map<Seq<char>, Seq<char>> {
    copied(m, rule.1, rule.0)
}

/// The warning that the rule `rule` gives on `m`: one where the canonical
/// name has no value, another where the alias already has one.
pub open spec fn alias_notice(m: Map<Seq<char>, Seq<char>>, rule: (Seq<char>, Seq<char>)) -> Option<
    Notice,
> {
    if !m.contains_key(rule.1) {
        Some(Notice::AliasUnresolved { alias: rule.0, canonical: rule.1 })
    } else if m.contains_key(rule.0) {
        Some(Notice::AliasOccupied { alias: rule.0, canonical: rule.1 })
    } else {
        None
    }
}

/// `m` after the rules `rules`, one after the other.
pub open spec fn aliases_applied(
    m: Map<Seq<char>, Seq<char>>,
    rules: Seq<(Seq<char>, Seq<char>)>,
) -> Map<Seq<char>, Seq<char>>
    decreases rules.len(),
{
    if rules.len() == 0 {
        m
    } else {
        alias_applied(aliases_applied(m, rules.drop_last()), rules.last())
    }
}

/// The warnings that the rules `rules` give on `m`, one after the other.
pub open spec fn alias_notices(
    m: Map<Seq<char>, Seq<char>>,
    rules: Seq<(Seq<char>, Seq<char>)>,
) -> Seq<Notice>
    decreases rules.len(),
{
    if rules.len() == 0 {
        Seq::empty()
    } else {
        let before = aliases_applied(m, rules.drop_last());
        match alias_notice(before, rules.last()) {
            Some(notice) => alias_notices(m, rules.drop_last()).push(notice),
            None => alias_notices(m, rules.drop_last()),
        }
    }
}

/// `m` with the two spellings of the license holder reconciled. Where
/// neither has a value and the author's name has one, both take it. After
/// that, where one of the two has a value and the other has none, the other
/// takes it.
pub open spec fn license_reconciled(m: Map<Seq<char>, Seq<char>>) -> Map<Seq<char>, Seq<char>> {
    let m = if m.contains_key(AUTHOR_NAME@) && !m.contains_key(LICENCE_OWNER@) && !m.contains_key(
        LICENSE_OWNER@,
    ) {
        m.insert(LICENCE_OWNER@, m[AUTHOR_NAME@]).insert(LICENSE_OWNER@, m[AUTHOR_NAME@])
    } else {
        m
    };
    let m = copied(m, LICENSE_OWNER@, LICENCE_OWNER@);
    copied(m, LICENCE_OWNER@, LICENSE_OWNER@)
}

/// `m` with the owner on GitHub taken from the user name there, where the
/// owner has no value.
pub open spec fn owner_inherited(m: Map<Seq<char>, Seq<char>>) -> Map<Seq<char>, Seq<char>> {
    copied(m, GITHUB_USERNAME@, GITHUB_OWNER@)
}

/// The context of a run, from `m`, which holds the persisted configuration
/// under the definitions of the run.
pub open spec fn completed(
    m: Map<Seq<char>, Seq<char>>,
    found: Found,
    year: int,
    rules: Seq<(Seq<char>, Seq<char>)>,
) -> Map<Seq<char>, Seq<char>> {
    license_reconciled(aliases_applied(owner_inherited(with_defaults(m, found, year)), rules))
}

/// The warnings that the building of the context gives, in order.
pub open spec fn completion_notices(
    m: Map<Seq<char>, Seq<char>>,
    found: Found,
    year: int,
    rules: Seq<(Seq<char>, Seq<char>)>,
) -> Seq<Notice> {
    default_notices(m, found) + alias_notices(owner_inherited(with_defaults(m, found, year)), rules)
}

/// After the reconciling, the two spellings of the license holder have a
/// value or have none together. Where they did not both have one before,
/// they have the same. No other name is touched.
pub proof fn lemma_license_reconciled(m: Map<Seq<char>, Seq<char>>)
    ensures
        license_reconciled(m).contains_key(LICENSE_OWNER@) == license_reconciled(m).contains_key(
            LICENCE_OWNER@,
        ),
        license_reconciled(m).contains_key(LICENSE_OWNER@) == (m.contains_key(LICENSE_OWNER@)
            || m.contains_key(LICENCE_OWNER@) || m.contains_key(AUTHOR_NAME@)),
        !(m.contains_key(LICENSE_OWNER@) && m.contains_key(LICENCE_OWNER@)) && license_reconciled(
            m,
        ).contains_key(LICENSE_OWNER@) ==> license_reconciled(m)[LICENSE_OWNER@]
            == license_reconciled(m)[LICENCE_OWNER@],
        m.contains_key(LICENSE_OWNER@) ==> license_reconciled(m)[LICENSE_OWNER@]
            == m[LICENSE_OWNER@],
        m.contains_key(LICENCE_OWNER@) ==> license_reconciled(m)[LICENCE_OWNER@]
            == m[LICENCE_OWNER@],
        !m.contains_key(LICENSE_OWNER@) && !m.contains_key(LICENCE_OWNER@) && m.contains_key(
            AUTHOR_NAME@,
        ) ==> license_reconciled(m)[LICENSE_OWNER@] == m[AUTHOR_NAME@],
        forall|k: Seq<char>|
            k != LICENSE_OWNER@ && k != LICENCE_OWNER@ ==> license_reconciled(m).contains_key(k)
                == m.contains_key(k) && (m.contains_key(k) ==> license_reconciled(m)[k] == m[k]),
{
    lemma_keys();
}

/// A rule whose canonical name has a value and whose alias has none gives
/// the alias that value; any other rule changes nothing. A rule gives no
/// warning exactly where it gives the alias a value.
pub proof fn lemma_alias_applied(m: Map<Seq<char>, Seq<char>>, rule: (Seq<char>, Seq<char>))
    ensures
        m.contains_key(rule.1) && !m.contains_key(rule.0) ==> alias_applied(m, rule) == m.insert(
            rule.0,
            m[rule.1],
        ) && alias_notice(m, rule) is None,
        !m.contains_key(rule.1) ==> alias_applied(m, rule) == m && alias_notice(m, rule) == Some(
            Notice::AliasUnresolved { alias: rule.0, canonical: rule.1 },
        ),
        m.contains_key(rule.1) && m.contains_key(rule.0) ==> alias_applied(m, rule) == m
            && alias_notice(m, rule) == Some(
            Notice::AliasOccupied { alias: rule.0, canonical: rule.1 },
        ),
{
}

/// A name that has a value keeps it through the whole building: nothing
/// that is set is ever replaced.
pub proof fn lemma_completed_keeps(
    m: Map<Seq<char>, Seq<char>>,
    found: Found,
    year: int,
    rules: Seq<(Seq<char>, Seq<char>)>,
    key: Seq<char>,
)
    requires
        m.contains_key(key),
    ensures
        completed(m, found, year, rules).contains_key(key),
        completed(m, found, year, rules)[key] == m[key],
{
    let a = with_defaults(m, found, year);
    let b = owner_inherited(a);
    lemma_aliases_keep(b, rules, key);
}

/// The order of precedence: a definition of the run stands over the
/// persisted configuration, and both stand over all that the building
/// fills in.
pub proof fn lemma_precedence(
    config: Map<Seq<char>, Seq<char>>,
    definitions: Map<Seq<char>, Seq<char>>,
    found: Found,
    year: int,
    rules: Seq<(Seq<char>, Seq<char>)>,
    key: Seq<char>,
)
    ensures
        definitions.contains_key(key) ==> completed(
            config.union_prefer_right(definitions),
            found,
            year,
            rules,
        )[key] == definitions[key],
        config.contains_key(key) && !definitions.contains_key(key) ==> completed(
            config.union_prefer_right(definitions),
            found,
            year,
            rules,
        )[key] == config[key],
{
    let base = config.union_prefer_right(definitions);
    if base.contains_key(key) {
        lemma_completed_keeps(base, found, year, rules, key);
    }
}

/// A name that has a value keeps it through the alias rules.
pub proof fn lemma_aliases_keep(
    m: Map<Seq<char>, Seq<char>>,
    rules: Seq<(Seq<char>, Seq<char>)>,
    key: Seq<char>,
)
    requires
        m.contains_key(key),
    ensures
        aliases_applied(m, rules).contains_key(key),
        aliases_applied(m, rules)[key] == m[key],
    decreases rules.len(),
{
    if rules.len() > 0 {
        lemma_aliases_keep(m, rules.drop_last(), key);
    }
}

/// Gives `key` the value `value` where `key` has none.
fn fill(context: &mut Context, key: &str, value: Option<String>)
    requires
        is_identifier(key@),
    ensures
        final(context)@ == filled(old(context)@, key@, value.deep_view()),
{
    match value {
        Some(v) => {
            if !context.contains_key(key) {
                context.insert(String::from_str(key), v);
            }
        },
        None => {},
    }
}

/// Gives `to` the value of `from` where `from` has a value and `to` has
/// none.
fn copy(context: &mut Context, from: &str, to: &str)
    requires
        is_identifier(to@),
    ensures
        final(context)@ == copied(old(context)@, from@, to@),
{
    let value = match context.get(from) {
        Some(v) => Some(v.clone()),
        None => None,
    };
    match value {
        Some(v) => {
            if !context.contains_key(to) {
                context.insert(String::from_str(to), v);
            }
        },
        None => {},
    }
}

/// The persisted configuration with the definitions of the run over it: a
/// name that both hold has the value of the definitions.
pub fn overlay(config: Config, definitions: &Context) -> (r: Context)
    ensures
        r@ == config.context@.union_prefer_right(definitions@),
{
    let mut context = config.context;
    context.extend(definitions);
    context
}

/// The defaults that are worth asking the environment for.
pub fn wanted(context: &Context) -> (r: Wanted)
    ensures
        r.name == !context@.contains_key(NAME@),
        r.git_branch == !context@.contains_key(GIT_BRANCH@),
        r.author_name == !context@.contains_key(AUTHOR_NAME@),
        r.author_email == !context@.contains_key(AUTHOR_EMAIL@),
{
    Wanted {
        name: !context.contains_key(NAME),
        git_branch: !context.contains_key(GIT_BRANCH),
        author_name: !context.contains_key(AUTHOR_NAME),
        author_email: !context.contains_key(AUTHOR_EMAIL),
    }
}

/// Fills in the defaults, and warns of each of the name, the author's name
/// and the author's e-mail address that stays without a value.
pub fn fill_defaults(context: &mut Context, found: Inferred, year: i32) -> (warnings: Vec<Warning>)
    ensures
        final(context)@ == with_defaults(old(context)@, found@, year as int),
        warnings.deep_view() == default_notices(old(context)@, found@),
{
    proof {
        lemma_keys();
        reveal_strlit("name");
        reveal_strlit("git.branch");
        reveal_strlit("author.name");
        reveal_strlit("author.email");
        reveal_strlit("date.year");
    }
    let mut warnings: Vec<Warning> = Vec::new();
    let Inferred { name, git_branch, author_name, author_email } = found;
    if !context.contains_key(NAME) && name.is_none() {
        warnings.push(Warning::NameUnset);
    }
    if !context.contains_key(AUTHOR_NAME) && author_name.is_none() {
        warnings.push(Warning::AuthorNameUnset);
    }
    if !context.contains_key(AUTHOR_EMAIL) && author_email.is_none() {
        warnings.push(Warning::AuthorEmailUnset);
    }
    assert(warnings.deep_view() =~= default_notices(old(context)@, found@));
    fill(context, NAME, name);
    let branch = match git_branch {
        Some(branch) => branch,
        None => String::from_str("master"),
    };
    fill(context, GIT_BRANCH, Some(branch));
    fill(context, AUTHOR_NAME, author_name);
    fill(context, AUTHOR_EMAIL, author_email);
    fill(context, DATE_YEAR, Some(decimal_string(year)));
    warnings
}

/// Gives the owner on GitHub the user name there, where the owner has no
/// value.
pub fn inherit_owner(context: &mut Context)
    ensures
        final(context)@ == owner_inherited(old(context)@),
{
    proof {
        lemma_keys();
    }
    copy(context, GITHUB_USERNAME, GITHUB_OWNER);
}

/// Applies one alias rule, and gives its warning where it is skipped.
pub fn apply_alias(context: &mut Context, rule: &AliasRule) -> (warning: Option<Warning>)
    ensures
        final(context)@ == alias_applied(old(context)@, rule@),
        warning.deep_view() == alias_notice(old(context)@, rule@),
{
    let alias = rule.alias();
    let canonical = rule.canonical();
    if !context.contains_key(canonical) {
        Some(
            Warning::AliasUnresolved {
                alias: String::from_str(alias),
                canonical: String::from_str(canonical),
            },
        )
    } else if context.contains_key(alias) {
        Some(
            Warning::AliasOccupied {
                alias: String::from_str(alias),
                canonical: String::from_str(canonical),
            },
        )
    } else {
        copy(context, canonical, alias);
        None
    }
}

/// Applies the alias rules in order, and gives the warnings of those that
/// are skipped.
pub fn apply_aliases(context: &mut Context, rules: &Vec<AliasRule>) -> (warnings: Vec<Warning>)
    ensures
        final(context)@ == aliases_applied(old(context)@, rules.deep_view()),
        warnings.deep_view() == alias_notices(old(context)@, rules.deep_view()),
{
    let ghost all = rules.deep_view();
    let mut warnings: Vec<Warning> = Vec::new();
    assert(warnings.deep_view() =~= Seq::<Notice>::empty());
    let mut i: usize = 0;
    while i < rules.len()
        invariant
            i <= rules.len(),
            all == rules.deep_view(),
            context@ == aliases_applied(old(context)@, all.take(i as int)),
            warnings.deep_view() == alias_notices(old(context)@, all.take(i as int)),
        decreases rules.len() - i,
    {
        assert(all.take(i + 1).drop_last() =~= all.take(i as int));
        assert(all.take(i + 1).last() == rules[i as int]@);
        let ghost before = warnings.deep_view();
        match apply_alias(context, &rules[i]) {
            Some(warning) => {
                warnings.push(warning);
                assert(warnings.deep_view() =~= before.push(warning@));
            },
            None => {},
        }
        i += 1;
    }
    assert(all.take(i as int) =~= all);
    warnings
}

/// Reconciles the two spellings of the license holder.
pub fn reconcile_license(context: &mut Context)
    ensures
        final(context)@ == license_reconciled(old(context)@),
{
    proof {
        lemma_keys();
    }
    if context.contains_key(AUTHOR_NAME) && !context.contains_key(LICENCE_OWNER)
        && !context.contains_key(LICENSE_OWNER) {
        copy(context, AUTHOR_NAME, LICENCE_OWNER);
        copy(context, AUTHOR_NAME, LICENSE_OWNER);
    }
    copy(context, LICENSE_OWNER, LICENCE_OWNER);
    copy(context, LICENCE_OWNER, LICENSE_OWNER);
}

/// Completes the context of a run in the year `year`: the defaults, the
/// owner on GitHub, the alias rules and the license holder. Returns the
/// warnings in the order in which they arise.
pub fn complete_in_year(
    context: &mut Context,
    found: Inferred,
    year: i32,
    rules: &Vec<AliasRule>,
) -> (warnings: Vec<Warning>)
    ensures
        final(context)@ == completed(old(context)@, found@, year as int, rules.deep_view()),
        warnings.deep_view() == completion_notices(
            old(context)@,
            found@,
            year as int,
            rules.deep_view(),
        ),
{
    let mut warnings = fill_defaults(context, found, year);
    inherit_owner(context);
    let mut more = apply_aliases(context, rules);
    let ghost first = warnings.deep_view();
    let ghost second = more.deep_view();
    warnings.append(&mut more);
    assert(warnings.deep_view() =~= first + second);
    reconcile_license(context);
    warnings
}

/// Completes the context of a run. The year is asked of the clock, and only
/// where `date.year` has no value.
pub fn complete(context: &mut Context, found: Inferred, rules: &Vec<AliasRule>) -> (warnings: Vec<
    Warning,
>)
    ensures
        exists|year: i32|
            {
                &&& final(context)@ == #[trigger] completed(
                    old(context)@,
                    found@,
                    year as int,
                    rules.deep_view(),
                )
                &&& warnings.deep_view() == completion_notices(
                    old(context)@,
                    found@,
                    year as int,
                    rules.deep_view(),
                )
            },
{
    let year = if context.contains_key(DATE_YEAR) {
        0
    } else {
        current_year()
    };
    complete_in_year(context, found, year, rules)
}

} // verus!
