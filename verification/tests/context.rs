use bai::builder::{
    apply_alias, apply_aliases, complete, complete_in_year, fill_defaults, inherit_owner, overlay,
    reconcile_license, wanted, Inferred, Wanted,
};
use bai::config::Config;
use bai::context::Context;
use bai::diag::Warning;
use bai::options::AliasRule;
use bai::text::decimal_string;

fn context_of(pairs: &[(&str, &str)]) -> Context {
    let mut context = Context::new();
    for (key, value) in pairs {
        assert!(context.insert(key.to_string(), value.to_string()));
    }
    context
}

fn entries_of(context: &Context) -> Vec<(&str, &str)> {
    context.entries().iter().map(|(k, v)| (k.as_str(), v.as_str())).collect()
}

fn rule(alias: &str, canonical: &str) -> AliasRule {
    AliasRule::new(alias.to_string(), canonical.to_string()).unwrap()
}

fn nothing_found() -> Inferred {
    Inferred { name: None, git_branch: None, author_name: None, author_email: None }
}

#[test]
fn context_keeps_one_value_for_each_name() {
    let mut context = Context::new();
    assert_eq!(context.len(), 0);
    assert!(context.get("a").is_none());
    assert!(!context.contains_key("a"));
    assert!(context.insert("a".to_string(), "1".to_string()));
    assert!(context.insert("b".to_string(), "2".to_string()));
    assert!(context.insert("a".to_string(), "3".to_string()));
    assert_eq!(entries_of(&context), vec![("a", "3"), ("b", "2")]);
    assert_eq!(context.get("a").unwrap(), "3");
    assert!(context.contains_key("b"));
    assert!(!context.contains_key("A"));
    context.well_formed();
}

#[test]
fn context_refuses_what_is_no_variable_name() {
    let mut context = context_of(&[("a", "1")]);
    assert!(!context.insert("a.".to_string(), "x".to_string()));
    assert!(!context.insert("".to_string(), "x".to_string()));
    assert!(!context.insert("0".to_string(), "x".to_string()));
    assert_eq!(entries_of(&context), vec![("a", "1")]);
}

#[test]
fn definitions_stand_over_the_configuration() {
    let config = Config { context: context_of(&[("a", "config"), ("b", "config")]) };
    let definitions = context_of(&[("b", "run"), ("c", "run")]);
    let context = overlay(config, &definitions);
    assert_eq!(entries_of(&context), vec![("a", "config"), ("b", "run"), ("c", "run")]);
}

#[test]
fn wanted_defaults_are_those_without_a_value() {
    assert_eq!(
        wanted(&Context::new()),
        Wanted { name: true, git_branch: true, author_name: true, author_email: true }
    );
    let context = context_of(&[("name", "x"), ("author.email", "y"), ("date.year", "z")]);
    assert_eq!(
        wanted(&context),
        Wanted { name: false, git_branch: true, author_name: true, author_email: false }
    );
}

#[test]
fn defaults_fill_the_gaps_only() {
    let mut context = context_of(&[("name", "mine"), ("date.year", "2112")]);
    let found = Inferred {
        name: Some("directory".to_string()),
        git_branch: Some("trunk".to_string()),
        author_name: Some("Ada".to_string()),
        author_email: None,
    };
    let warnings = fill_defaults(&mut context, found, 1999);
    assert_eq!(
        entries_of(&context),
        vec![("name", "mine"), ("date.year", "2112"), ("git.branch", "trunk"), ("author.name", "Ada")]
    );
    assert!(matches!(warnings.as_slice(), [Warning::AuthorEmailUnset]));
}

#[test]
fn branch_falls_back_to_master_and_year_is_decimal() {
    let mut context = Context::new();
    let warnings = fill_defaults(&mut context, nothing_found(), 2024);
    assert_eq!(entries_of(&context), vec![("git.branch", "master"), ("date.year", "2024")]);
    assert!(matches!(
        warnings.as_slice(),
        [Warning::NameUnset, Warning::AuthorNameUnset, Warning::AuthorEmailUnset]
    ));
}

#[test]
fn decimal_notation_is_exact() {
    for n in [0, 7, 10, 99, 100, 2024, 2112, -1, -10, -2024, i32::MAX, i32::MIN, i32::MIN + 1] {
        assert_eq!(decimal_string(n), n.to_string());
    }
    assert_eq!(decimal_string(-2147483648), "-2147483648");
    assert_eq!(decimal_string(1000000), "1000000");
}

#[test]
fn warnings_say_what_the_program_said() {
    assert_eq!(Warning::NameUnset.message(), "name is unset, but is used by many templates");
    assert_eq!(
        Warning::NameUnset.hints(),
        vec!["try running:\n    bai [files...] -define \"name=my_project\""]
    );
    assert_eq!(
        Warning::AuthorNameUnset.message(),
        "author.name is unset, but is used by many templates"
    );
    assert_eq!(
        Warning::AuthorNameUnset.hints(),
        vec![
            "author.name can be set by running\n    bai -set \"author.name=James Baxter\"",
            "author.name can also be inferred from git\n    git config --global user.name \"James Baxter\"",
        ]
    );
    assert_eq!(
        Warning::AuthorEmailUnset.message(),
        "author.email is unset, but is used by many templates"
    );
    assert_eq!(
        Warning::AuthorEmailUnset.hints(),
        vec![
            "author.email can be set by running\n    bai -set \"author.email=jamesbaxter@hey.com\"",
            "author.email can also be inferred from git\n    git config --global user.email \"jamesbaxter@hey.com\"",
        ]
    );
    let occupied =
        Warning::AliasOccupied { alias: "bar".to_string(), canonical: "foo".to_string() };
    assert_eq!(occupied.message(), "bar was aliased to foo, but bar is already set");
    assert!(occupied.hints().is_empty());
    let unresolved =
        Warning::AliasUnresolved { alias: "bar".to_string(), canonical: "foo".to_string() };
    assert_eq!(unresolved.message(), "bar was aliased to foo, but foo is not set");
    assert!(unresolved.hints().is_empty());
}

#[test]
fn owner_is_taken_from_the_user_name() {
    let mut context = context_of(&[("github.username", "ada")]);
    inherit_owner(&mut context);
    assert_eq!(entries_of(&context), vec![("github.username", "ada"), ("github.owner", "ada")]);
    let mut context = context_of(&[("github.username", "ada"), ("github.owner", "org")]);
    inherit_owner(&mut context);
    assert_eq!(context.get("github.owner").unwrap(), "org");
    let mut context = context_of(&[("github.owner", "org")]);
    inherit_owner(&mut context);
    assert_eq!(entries_of(&context), vec![("github.owner", "org")]);
}

#[test]
fn alias_takes_the_value_of_its_canonical_name() {
    let mut context = context_of(&[("foo", "x")]);
    assert!(apply_alias(&mut context, &rule("bar", "foo")).is_none());
    assert_eq!(entries_of(&context), vec![("foo", "x"), ("bar", "x")]);
}

#[test]
fn alias_without_canonical_value_stays_unset() {
    let mut context = context_of(&[("other", "x")]);
    let warning = apply_alias(&mut context, &rule("bar", "foo")).unwrap();
    assert!(matches!(
        &warning,
        Warning::AliasUnresolved { alias, canonical } if alias == "bar" && canonical == "foo"
    ));
    assert_eq!(entries_of(&context), vec![("other", "x")]);
}

#[test]
fn alias_that_is_set_is_skipped() {
    let mut context = context_of(&[("foo", "x"), ("bar", "y")]);
    let warning = apply_alias(&mut context, &rule("bar", "foo")).unwrap();
    assert!(matches!(
        &warning,
        Warning::AliasOccupied { alias, canonical } if alias == "bar" && canonical == "foo"
    ));
    assert_eq!(entries_of(&context), vec![("foo", "x"), ("bar", "y")]);
}

#[test]
fn alias_rules_apply_in_order() {
    let mut context = context_of(&[("a", "1")]);
    let rules = vec![rule("c", "b"), rule("b", "a"), rule("c", "b"), rule("c", "a")];
    let warnings = apply_aliases(&mut context, &rules);
    assert_eq!(entries_of(&context), vec![("a", "1"), ("b", "1"), ("c", "1")]);
    let messages: Vec<String> = warnings.iter().map(|w| w.message()).collect();
    assert_eq!(
        messages,
        vec!["c was aliased to b, but b is not set", "c was aliased to a, but c is already set"]
    );
}

#[test]
fn license_owner_comes_from_the_author() {
    let mut context = context_of(&[("author.name", "Ada")]);
    reconcile_license(&mut context);
    assert_eq!(
        entries_of(&context),
        vec![("author.name", "Ada"), ("licence.owner", "Ada"), ("license.owner", "Ada")]
    );
}

#[test]
fn license_spellings_fill_each_other() {
    let mut context = context_of(&[("license.owner", "Bee")]);
    reconcile_license(&mut context);
    assert_eq!(entries_of(&context), vec![("license.owner", "Bee"), ("licence.owner", "Bee")]);
    let mut context = context_of(&[("author.name", "Ada"), ("licence.owner", "Cee")]);
    reconcile_license(&mut context);
    assert_eq!(context.get("license.owner").unwrap(), "Cee");
    assert_eq!(context.get("licence.owner").unwrap(), "Cee");
    let mut context = context_of(&[("license.owner", "Bee"), ("licence.owner", "Cee")]);
    reconcile_license(&mut context);
    assert_eq!(entries_of(&context), vec![("license.owner", "Bee"), ("licence.owner", "Cee")]);
    let mut context = Context::new();
    reconcile_license(&mut context);
    assert_eq!(context.len(), 0);
}

#[test]
fn context_is_completed_in_order() {
    let mut context = context_of(&[("github.username", "ada"), ("owner", "x")]);
    let found = Inferred {
        name: Some("demo".to_string()),
        git_branch: None,
        author_name: Some("Ada".to_string()),
        author_email: None,
    };
    let rules = vec![rule("license.owner", "github.owner"), rule("me", "nobody"), rule("name", "owner")];
    let warnings = complete_in_year(&mut context, found, 2112, &rules);
    assert_eq!(
        entries_of(&context),
        vec![
            ("github.username", "ada"),
            ("owner", "x"),
            ("name", "demo"),
            ("git.branch", "master"),
            ("author.name", "Ada"),
            ("date.year", "2112"),
            ("github.owner", "ada"),
            ("license.owner", "ada"),
            ("licence.owner", "ada"),
        ]
    );
    let messages: Vec<String> = warnings.iter().map(|w| w.message()).collect();
    assert_eq!(
        messages,
        vec![
            "author.email is unset, but is used by many templates",
            "me was aliased to nobody, but nobody is not set",
            "name was aliased to owner, but name is already set",
        ]
    );
}

#[test]
fn year_comes_from_the_clock_where_it_is_not_set() {
    let mut context = Context::new();
    let before = chrono::Datelike::year(&chrono::Local::now());
    complete(&mut context, nothing_found(), &Vec::new());
    let after = chrono::Datelike::year(&chrono::Local::now());
    let year: i32 = context.get("date.year").unwrap().parse().unwrap();
    assert!(before <= year && year <= after);
    assert!(year >= 2024);

    let mut context = context_of(&[("date.year", "2112")]);
    complete(&mut context, nothing_found(), &Vec::new());
    assert_eq!(context.get("date.year").unwrap(), "2112");
}

#[test]
fn first_configuration_holds_the_user_name() {
    let (config, persist) = Config::init("ada".to_string());
    assert!(persist);
    assert_eq!(entries_of(&config.context), vec![("github.username", "ada")]);
    let (config, persist) = Config::init(String::new());
    assert!(!persist);
    assert_eq!(entries_of(&config.context), vec![("github.username", "")]);
}

#[test]
fn configuration_is_loaded_from_its_entries() {
    let entries = vec![
        ("b".to_string(), "1".to_string()),
        ("not a name".to_string(), "2".to_string()),
        ("a.c".to_string(), "3".to_string()),
        ("b".to_string(), "4".to_string()),
    ];
    let config = Config::load(&entries);
    assert_eq!(entries_of(&config.context), vec![("b", "4"), ("a.c", "3")]);
    assert_eq!(Config::load(&Vec::new()).context.len(), 0);
}

#[test]
fn clones_hold_the_same() {
    let context = context_of(&[("a", "1"), ("b.c", "2")]);
    let copy = context.clone();
    assert_eq!(entries_of(&copy), entries_of(&context));
    let config = Config { context };
    assert_eq!(entries_of(&config.clone().context), vec![("a", "1"), ("b.c", "2")]);
    let rule = rule("x", "y").clone();
    assert_eq!((rule.alias(), rule.canonical()), ("x", "y"));
    let options = bai::options::Options::try_from(&["-d", "k=v", "-A", "p=q", "/nope", "f"]).unwrap();
    let copy = options.clone();
    assert_eq!(copy.files, options.files);
    assert_eq!(entries_of(&copy.context), vec![("k", "v")]);
    assert_eq!(copy.aliases.len(), 1);
    assert_eq!(copy.aliases[0].alias(), "p");
    assert_eq!(copy.unrecognized[0].group, "/nope");
}
