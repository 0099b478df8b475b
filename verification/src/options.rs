//! The command line: definitions, alias rules and file specifiers.

use vstd::prelude::*;
use vstd::string::*;
use crate::context::Context;
use crate::groups::{expand_group, group_files, GroupError};
use crate::ident::{is_identifier, is_variable_name};
use crate::text::{split_first, split_once, starts_with_char, str_eq, to_chars};

verus! {

/// What is wrong with an argument.
#[derive(Clone, Copy, Debug, PartialEq, Eq, Structural)]
pub enum ArgumentErrorKind {
    /// A definition flag is the last argument.
    MissingDefinition,
    /// A definition holds no `=`.
    InvalidDefinition,
    /// The name in a definition is no variable name.
    InvalidKey,
    /// An alias flag is the last argument.
    MissingAlias,
    /// An alias rule holds no `=`.
    InvalidAlias,
    /// The alias in an alias rule is no variable name.
    InvalidAliasName,
    /// The canonical name in an alias rule is no variable name.
    InvalidCanonicalName,
    /// An argument starts with a dash and is no known flag.
    UnrecognizedOption,
}

/// An argument that was refused: what is wrong, and the text that is wrong.
#[derive(Debug)]
pub struct ArgumentError {
    pub kind: ArgumentErrorKind,
    pub text: String,
}

/// What an `ArgumentError` says, as contracts speak of it.
pub struct Fault {
    pub kind: ArgumentErrorKind,
    pub text: Seq<char>,
}

impl View for ArgumentError {
    type V = Fault;

    open spec fn view(&self) -> Fault {
        Fault { kind: self.kind, text: self.text@ }
    }
}

impl DeepView for ArgumentError {
    type V = Fault;

    open spec fn deep_view(&self) -> Fault {
        self@
    }
}

/// What a message says before the text that is wrong.
pub open spec fn message_head(kind: ArgumentErrorKind) -> Seq<char> {
    match kind {
        ArgumentErrorKind::MissingDefinition => "expected a definition after "@,
        ArgumentErrorKind::InvalidDefinition => "invalid definition \""@,
        ArgumentErrorKind::InvalidKey => "key \""@,
        ArgumentErrorKind::MissingAlias => "expected an alias after "@,
        ArgumentErrorKind::InvalidAlias => "invalid alias \""@,
        ArgumentErrorKind::InvalidAliasName => "alias \""@,
        ArgumentErrorKind::InvalidCanonicalName => "canonical name \""@,
        ArgumentErrorKind::UnrecognizedOption => "unrecognized option: "@,
    }
}

/// What a message says after the text that is wrong.
pub open spec fn message_tail(kind: ArgumentErrorKind) -> Seq<char> {
    match kind {
        ArgumentErrorKind::MissingDefinition => ""@,
        ArgumentErrorKind::InvalidDefinition => "\", must contain a \"=\" to separate the name and value"@,
        ArgumentErrorKind::InvalidKey => "\" is invalid"@,
        ArgumentErrorKind::MissingAlias => ""@,
        ArgumentErrorKind::InvalidAlias => "\", must contain a \"=\" to separate the alias and canonical name"@,
        ArgumentErrorKind::InvalidAliasName => "\" is invalid"@,
        ArgumentErrorKind::InvalidCanonicalName => "\" is invalid"@,
        ArgumentErrorKind::UnrecognizedOption => ""@,
    }
}

impl Fault {
    /// The text of the error.
    pub open spec fn message(self) -> Seq<char> {
        message_head(self.kind) + self.text + message_tail(self.kind)
    }
}

impl ArgumentError {
    /// The text of the error.
    pub fn message(&self) -> (r: String)
        ensures
            r@ == self@.message(),
    {
        let head = match self.kind {
            ArgumentErrorKind::MissingDefinition => "expected a definition after ",
            ArgumentErrorKind::InvalidDefinition => "invalid definition \"",
            ArgumentErrorKind::InvalidKey => "key \"",
            ArgumentErrorKind::MissingAlias => "expected an alias after ",
            ArgumentErrorKind::InvalidAlias => "invalid alias \"",
            ArgumentErrorKind::InvalidAliasName => "alias \"",
            ArgumentErrorKind::InvalidCanonicalName => "canonical name \"",
            ArgumentErrorKind::UnrecognizedOption => "unrecognized option: ",
        };
        let tail = match self.kind {
            ArgumentErrorKind::MissingDefinition => "",
            ArgumentErrorKind::InvalidDefinition => "\", must contain a \"=\" to separate the name and value",
            ArgumentErrorKind::InvalidKey => "\" is invalid",
            ArgumentErrorKind::MissingAlias => "",
            ArgumentErrorKind::InvalidAlias => "\", must contain a \"=\" to separate the alias and canonical name",
            ArgumentErrorKind::InvalidAliasName => "\" is invalid",
            ArgumentErrorKind::InvalidCanonicalName => "\" is invalid",
            ArgumentErrorKind::UnrecognizedOption => "",
        };
        let mut r = String::from_str(head);
        r.append(self.text.as_str());
        r.append(tail);
        r
    }
}

/// `arg` is a flag that announces a definition.
pub open spec fn is_define_flag(arg: Seq<char>) -> bool {
    arg == "-d"@ || arg == "-D"@ || arg == "-define"@ || arg == "--define"@
}

/// `arg` is a flag that announces an alias rule.
pub open spec fn is_alias_flag(arg: Seq<char>) -> bool {
    arg == "-use"@ || arg == "--use"@ || arg == "-alias"@ || arg == "--alias"@ || arg == "-A"@
}

/// `arg` has the shape of an option: a dash and at least one more character.
pub open spec fn is_option_like(arg: Seq<char>) -> bool {
    arg.len() >= 2 && arg[0] == '-'
}

/// `arg` names a group: it starts with a slash.
pub open spec fn is_group_reference(arg: Seq<char>) -> bool {
    arg.len() > 0 && arg[0] == '/'
}

/// The name and the value that the definition `text` gives, or what is wrong
/// with it.
pub open spec fn definition(text: Seq<char>) -> Result<(Seq<char>, Seq<char>), Fault> {
    match split_first(text, '=') {
        None => Err(Fault { kind: ArgumentErrorKind::InvalidDefinition, text }),
        Some((key, value)) => if is_identifier(key) {
            Ok((key, value))
        } else {
            Err(Fault { kind: ArgumentErrorKind::InvalidKey, text: key })
        },
    }
}

/// The alias and the canonical name that the rule `text` gives, or what is
/// wrong with it.
pub open spec fn alias_rule(text: Seq<char>) -> Result<(Seq<char>, Seq<char>), Fault> {
    match split_first(text, '=') {
        None => Err(Fault { kind: ArgumentErrorKind::InvalidAlias, text }),
        Some((alias, canonical)) => if !is_identifier(alias) {
            Err(Fault { kind: ArgumentErrorKind::InvalidAliasName, text: alias })
        } else if !is_identifier(canonical) {
            Err(Fault { kind: ArgumentErrorKind::InvalidCanonicalName, text: canonical })
        } else {
            Ok((alias, canonical))
        },
    }
}

/// An alias rule: where the canonical name has a value and the alias has
/// none, the alias takes the value of the canonical name. Both are variable
/// names.
#[derive(Debug)]
pub struct AliasRule {
    alias: String,
    canonical: String,
}

impl View for AliasRule {
    type V = (Seq<char>, Seq<char>);

    closed spec fn view(&self) -> (Seq<char>, Seq<char>) {
        (self.alias@, self.canonical@)
    }
}

impl DeepView for AliasRule {
    type V = (Seq<char>, Seq<char>);

    open spec fn deep_view(&self) -> (Seq<char>, Seq<char>) {
        self@
    }
}

impl Clone for AliasRule {
    /// The same rule.
    fn clone(&self) -> (r: AliasRule)
        ensures
            r@ == self@,
    {
        proof {
            use_type_invariant(self);
        }
        AliasRule { alias: self.alias.clone(), canonical: self.canonical.clone() }
    }
}

impl AliasRule {
    #[verifier::type_invariant]
    spec fn inv(self) -> bool {
        is_identifier(self.alias@) && is_identifier(self.canonical@)
    }

    /// The rule that gives `alias` the value of `canonical`; `None` where
    /// one of the two is no variable name.
    pub fn new(alias: String, canonical: String) -> (r: Option<AliasRule>)
        ensures
            r is Some == (is_identifier(alias@) && is_identifier(canonical@)),
            r matches Some(rule) ==> rule@ == (alias@, canonical@),
    {
        if is_variable_name(alias.as_str()) && is_variable_name(canonical.as_str()) {
            Some(AliasRule { alias, canonical })
        } else {
            None
        }
    }

    /// The name that takes a value.
    pub fn alias(&self) -> (r: &str)
        ensures
            r@ == self@.0,
            is_identifier(r@),
    {
        proof {
            use_type_invariant(self);
        }
        self.alias.as_str()
    }

    /// The name that gives its value.
    pub fn canonical(&self) -> (r: &str)
        ensures
            r@ == self@.1,
            is_identifier(r@),
    {
        proof {
            use_type_invariant(self);
        }
        self.canonical.as_str()
    }
}

/// What the arguments read so far have given.
pub struct Scan {
    /// The arguments that are no flags, in order.
    pub files: Seq<Seq<char>>,
    /// The definitions; a later one replaces an earlier one of the same name.
    pub context: Map<Seq<char>, Seq<char>>,
    /// The alias rules, each an alias with its canonical name, in order.
    pub aliases: Seq<(Seq<char>, Seq<char>)>,
}

/// Reads the arguments from the `i`-th on, after `so_far`. A definition flag
/// and an alias flag each take the argument that follows them. The first
/// argument that is wrong ends the reading.
pub open spec fn scan(args: Seq<Seq<char>>, i: int, so_far: Scan) -> Result<Scan, Fault>
    decreases args.len() - i,
{
    if i < 0 || i >= args.len() {
        Ok(so_far)
    } else if is_define_flag(args[i]) {
        if i + 1 >= args.len() {
            Err(Fault { kind: ArgumentErrorKind::MissingDefinition, text: args[i] })
        } else {
            match definition(args[i + 1]) {
                Err(fault) => Err(fault),
                Ok((key, value)) => scan(
                    args,
                    i + 2,
                    Scan { context: so_far.context.insert(key, value), ..so_far },
                ),
            }
        }
    } else if is_alias_flag(args[i]) {
        if i + 1 >= args.len() {
            Err(Fault { kind: ArgumentErrorKind::MissingAlias, text: args[i] })
        } else {
            match alias_rule(args[i + 1]) {
                Err(fault) => Err(fault),
                Ok(rule) => scan(args, i + 2, Scan { aliases: so_far.aliases.push(rule), ..so_far }),
            }
        }
    } else if is_option_like(args[i]) {
        Err(Fault { kind: ArgumentErrorKind::UnrecognizedOption, text: args[i] })
    } else {
        scan(args, i + 1, Scan { files: so_far.files.push(args[i]), ..so_far })
    }
}

/// The file specifiers that `file` stands for: the members of the group that
/// it names, none where it names a group that does not exist, and itself
/// where it names no group.
pub open spec fn expand_one(file: Seq<char>) -> Seq<Seq<char>> {
    if is_group_reference(file) {
        match group_files(file) {
            Some(members) => members,
            None => Seq::empty(),
        }
    } else {
        seq![file]
    }
}

/// Each of `files` expanded in its place: the order stays, and what occurs
/// twice stays twice.
pub open spec fn expand_files(files: Seq<Seq<char>>) -> Seq<Seq<char>>
    decreases files.len(),
{
    if files.len() == 0 {
        Seq::empty()
    } else {
        expand_files(files.drop_last()) + expand_one(files.last())
    }
}

/// Those of `files` that name a group that does not exist, in order.
pub open spec fn unknown_groups(files: Seq<Seq<char>>) -> Seq<Seq<char>>
    decreases files.len(),
{
    if files.len() == 0 {
        Seq::empty()
    } else if is_group_reference(files.last()) && group_files(files.last()) is None {
        unknown_groups(files.drop_last()).push(files.last())
    } else {
        unknown_groups(files.drop_last())
    }
}

/// What `Options` hold, as contracts speak of them.
pub struct Parsed {
    pub files: Seq<Seq<char>>,
    pub context: Map<Seq<char>, Seq<char>>,
    pub aliases: Seq<(Seq<char>, Seq<char>)>,
    pub unrecognized: Seq<Seq<char>>,
}

/// What the arguments `args` ask for, or the first thing wrong with them.
pub open spec fn parse(args: Seq<Seq<char>>) -> Result<Parsed, Fault> {
    match scan(
        args,
        0,
        Scan { files: Seq::empty(), context: Map::empty(), aliases: Seq::empty() },
    ) {
        Err(fault) => Err(fault),
        Ok(read) => Ok(
            Parsed {
                files: expand_files(read.files),
                context: read.context,
                aliases: read.aliases,
                unrecognized: unknown_groups(read.files),
            },
        ),
    }
}

/// What a run was asked to do.
#[derive(Debug)]
pub struct Options {
    /// The file specifiers, groups expanded, in the order given.
    pub files: Vec<String>,
    /// The definitions.
    pub context: Context,
    /// The alias rules, in the order given.
    pub aliases: Vec<AliasRule>,
    /// The group lookups that failed, in the order given.
    pub unrecognized: Vec<GroupError>,
}

impl DeepView for GroupError {
    type V = Seq<char>;

    open spec fn deep_view(&self) -> Seq<char> {
        self.group@
    }
}

impl View for Options {
    type V = Parsed;

    open spec fn view(&self) -> Parsed {
        Parsed {
            files: self.files.deep_view(),
            context: self.context@,
            aliases: self.aliases.deep_view(),
            unrecognized: self.unrecognized.deep_view(),
        }
    }
}

impl Clone for Options {
    /// Options that hold the same.
    fn clone(&self) -> (r: Options)
        ensures
            r@ == self@,
    {
        let mut files: Vec<String> = Vec::new();
        let mut i: usize = 0;
        while i < self.files.len()
            invariant
                i <= self.files.len(),
                files.deep_view() == self.files.deep_view().take(i as int),
            decreases self.files.len() - i,
        {
            let ghost before = files.deep_view();
            files.push(self.files[i].clone());
            i += 1;
            assert(files.deep_view() =~= before.push(self.files[i - 1]@));
            assert(self.files.deep_view().take(i as int) =~= self.files.deep_view().take(i - 1).push(
                self.files[i - 1]@,
            ));
        }
        assert(files.deep_view() =~= self.files.deep_view());
        let mut aliases: Vec<AliasRule> = Vec::new();
        let mut i: usize = 0;
        while i < self.aliases.len()
            invariant
                i <= self.aliases.len(),
                aliases.deep_view() == self.aliases.deep_view().take(i as int),
            decreases self.aliases.len() - i,
        {
            let ghost before = aliases.deep_view();
            aliases.push(self.aliases[i].clone());
            i += 1;
            assert(aliases.deep_view() =~= before.push(self.aliases[i - 1]@));
            assert(self.aliases.deep_view().take(i as int) =~= self.aliases.deep_view().take(i - 1).push(
                self.aliases[i - 1]@,
            ));
        }
        assert(aliases.deep_view() =~= self.aliases.deep_view());
        let mut unrecognized: Vec<GroupError> = Vec::new();
        let mut i: usize = 0;
        while i < self.unrecognized.len()
            invariant
                i <= self.unrecognized.len(),
                unrecognized.deep_view() == self.unrecognized.deep_view().take(i as int),
            decreases self.unrecognized.len() - i,
        {
            let ghost before = unrecognized.deep_view();
            unrecognized.push(self.unrecognized[i].clone());
            i += 1;
            assert(unrecognized.deep_view() =~= before.push(self.unrecognized[i - 1].group@));
            assert(self.unrecognized.deep_view().take(i as int) =~= self.unrecognized.deep_view().take(i - 1).push(
                self.unrecognized[i - 1].group@,
            ));
        }
        assert(unrecognized.deep_view() =~= self.unrecognized.deep_view());
        Options { files, context: self.context.clone(), aliases, unrecognized }
    }
}

fn define_flag(arg: &str) -> (r: bool)
    ensures
        r == is_define_flag(arg@),
{
    str_eq(arg, "-d") || str_eq(arg, "-D") || str_eq(arg, "-define") || str_eq(arg, "--define")
}

fn alias_flag(arg: &str) -> (r: bool)
    ensures
        r == is_alias_flag(arg@),
{
    str_eq(arg, "-use") || str_eq(arg, "--use") || str_eq(arg, "-alias") || str_eq(arg, "--alias")
        || str_eq(arg, "-A")
}

fn option_like(arg: &str) -> (r: bool)
    ensures
        r == is_option_like(arg@),
{
    let chars = to_chars(arg);
    chars.len() >= 2 && chars[0] == '-'
}

/// Reads the definition `text`.
pub fn parse_definition(text: &str) -> (r: Result<(String, String), ArgumentError>)
    ensures
        match r {
            Ok((key, value)) => definition(text@) == Ok::<_, Fault>((key@, value@)),
            Err(e) => definition(text@) == Err::<(Seq<char>, Seq<char>), _>(e@),
        },
{
    match split_once(text, '=') {
        None => Err(
            ArgumentError { kind: ArgumentErrorKind::InvalidDefinition, text: String::from_str(text) },
        ),
        Some((key, value)) => {
            if is_variable_name(key.as_str()) {
                Ok((key, value))
            } else {
                Err(ArgumentError { kind: ArgumentErrorKind::InvalidKey, text: key })
            }
        },
    }
}

/// Reads the alias rule `text`.
pub fn parse_alias(text: &str) -> (r: Result<AliasRule, ArgumentError>)
    ensures
        match r {
            Ok(rule) => alias_rule(text@) == Ok::<_, Fault>(rule@),
            Err(e) => alias_rule(text@) == Err::<(Seq<char>, Seq<char>), _>(e@),
        },
{
    match split_once(text, '=') {
        None => Err(
            ArgumentError { kind: ArgumentErrorKind::InvalidAlias, text: String::from_str(text) },
        ),
        Some((alias, canonical)) => {
            if !is_variable_name(alias.as_str()) {
                Err(ArgumentError { kind: ArgumentErrorKind::InvalidAliasName, text: alias })
            } else if !is_variable_name(canonical.as_str()) {
                Err(ArgumentError { kind: ArgumentErrorKind::InvalidCanonicalName, text: canonical })
            } else {
                Ok(AliasRule { alias, canonical })
            }
        },
    }
}

impl Options {
    /// Reads the arguments of a run: definitions, alias rules and file
    /// specifiers, in any order. Groups among the file specifiers are
    /// expanded in their place; one that does not exist gives no file and is
    /// kept in `unrecognized`. The first argument that is wrong is the error.
    pub fn try_from(args: &[&str]) -> (r: Result<Options, ArgumentError>)
        ensures
            match r {
                Ok(options) => parse(args.deep_view()) == Ok::<_, Fault>(options@),
                Err(e) => parse(args.deep_view()) == Err::<Parsed, _>(e@),
            },
    {
        let ghost all = args.deep_view();
        let mut named: Vec<String> = Vec::new();
        let mut context = Context::new();
        let mut aliases: Vec<AliasRule> = Vec::new();
        let ghost start = Scan { files: Seq::empty(), context: Map::empty(), aliases: Seq::empty() };
        assert(named.deep_view() =~= Seq::<Seq<char>>::empty());
        assert(aliases.deep_view() =~= Seq::<(Seq<char>, Seq<char>)>::empty());
        let mut i: usize = 0;
        while i < args.len()
            invariant
                i <= args.len(),
                all == args.deep_view(),
                all.len() == args.len(),
                start == (Scan { files: Seq::empty(), context: Map::empty(), aliases: Seq::empty() }),
                scan(all, 0, start) == scan(
                    all,
                    i as int,
                    Scan {
                        files: named.deep_view(),
                        context: context@,
                        aliases: aliases.deep_view(),
                    },
                ),
            decreases args.len() - i,
        {
            let arg = args[i];
            assert(all[i as int] == arg@);
            if define_flag(arg) {
                if i + 1 >= args.len() {
                    return Err(
                        ArgumentError {
                            kind: ArgumentErrorKind::MissingDefinition,
                            text: String::from_str(arg),
                        },
                    );
                }
                assert(all[i + 1] == args[i + 1]@);
                match parse_definition(args[i + 1]) {
                    Err(e) => {
                        return Err(e);
                    },
                    Ok((key, value)) => {
                        context.insert(key, value);
                    },
                }
                i += 2;
            } else if alias_flag(arg) {
                if i + 1 >= args.len() {
                    return Err(
                        ArgumentError {
                            kind: ArgumentErrorKind::MissingAlias,
                            text: String::from_str(arg),
                        },
                    );
                }
                assert(all[i + 1] == args[i + 1]@);
                match parse_alias(args[i + 1]) {
                    Err(e) => {
                        return Err(e);
                    },
                    Ok(rule) => {
                        let ghost before = aliases.deep_view();
                        let ghost added = rule@;
                        aliases.push(rule);
                        assert(aliases.deep_view() =~= before.push(added));
                    },
                }
                i += 2;
            } else if option_like(arg) {
                return Err(
                    ArgumentError {
                        kind: ArgumentErrorKind::UnrecognizedOption,
                        text: String::from_str(arg),
                    },
                );
            } else {
                let ghost before = named.deep_view();
                named.push(String::from_str(arg));
                assert(named.deep_view() =~= before.push(arg@));
                i += 1;
            }
        }
        let (files, unrecognized) = expand(&named);
        Ok(Options { files, context, aliases, unrecognized })
    }
}

/// Expands the groups among `named`, each in its place.
pub fn expand(named: &Vec<String>) -> (r: (Vec<String>, Vec<GroupError>))
    ensures
        r.0.deep_view() == expand_files(named.deep_view()),
        r.1.deep_view() == unknown_groups(named.deep_view()),
{
    let ghost all = named.deep_view();
    let mut files: Vec<String> = Vec::new();
    let mut unrecognized: Vec<GroupError> = Vec::new();
    assert(files.deep_view() =~= Seq::<Seq<char>>::empty());
    assert(unrecognized.deep_view() =~= Seq::<Seq<char>>::empty());
    let mut i: usize = 0;
    while i < named.len()
        invariant
            i <= named.len(),
            all == named.deep_view(),
            files.deep_view() == expand_files(all.take(i as int)),
            unrecognized.deep_view() == unknown_groups(all.take(i as int)),
        decreases named.len() - i,
    {
        let file = named[i].as_str();
        assert(all.take(i + 1).drop_last() =~= all.take(i as int));
        assert(all.take(i + 1).last() == file@);
        if starts_with_char(file, '/') {
            match expand_group(file) {
                Ok(members) => {
                    let mut j: usize = 0;
                    let ghost before = files.deep_view();
                    while j < members.len()
                        invariant
                            j <= members.len(),
                            files.deep_view() == before + members.deep_view().take(j as int),
                        decreases members.len() - j,
                    {
                        let ghost prev = files.deep_view();
                        files.push(String::from_str(members[j]));
                        assert(files.deep_view() =~= prev.push(members[j as int]@));
                        j += 1;
                        assert(members.deep_view().take(j as int) =~= members.deep_view().take(
                            j - 1,
                        ).push(members[j - 1]@));
                    }
                    assert(members.deep_view().take(j as int) =~= members.deep_view());
                },
                Err(e) => {
                    let ghost before = unrecognized.deep_view();
                    unrecognized.push(e);
                    assert(unrecognized.deep_view() =~= before.push(file@));
                    assert(files.deep_view() + Seq::<Seq<char>>::empty() =~= files.deep_view());
                },
            }
        } else {
            let ghost before = files.deep_view();
            files.push(String::from_str(file));
            assert(files.deep_view() =~= before + seq![file@]);
        }
        i += 1;
    }
    assert(all.take(i as int) =~= all);
    (files, unrecognized)
}

/// `files` without what occurred before: of file specifiers that are the
/// same the first stays, and the order stays.
pub open spec fn without_repeats(files: Seq<Seq<char>>) -> Seq<Seq<char>>
    decreases files.len(),
{
    if files.len() == 0 {
        Seq::empty()
    } else if without_repeats(files.drop_last()).contains(files.last()) {
        without_repeats(files.drop_last())
    } else {
        without_repeats(files.drop_last()).push(files.last())
    }
}

/// `without_repeats` holds every file specifier of `files`, none that is not
/// in `files`, and none twice.
pub proof fn lemma_without_repeats(files: Seq<Seq<char>>)
    ensures
        forall|file: Seq<char>| without_repeats(files).contains(file) <==> files.contains(file),
        without_repeats(files).no_duplicates(),
    decreases files.len(),
{
    if files.len() > 0 {
        let init = files.drop_last();
        let last = files.last();
        lemma_without_repeats(init);
        let kept = without_repeats(init);
        let all = without_repeats(files);
        assert forall|file: Seq<char>| all.contains(file) <==> files.contains(file) by {
            if all.contains(file) {
                let i = choose|i: int| 0 <= i < all.len() && all[i] == file;
                if i < kept.len() {
                    assert(kept[i] == file);
                    assert(kept.contains(file));
                    assert(init.contains(file));
                    let j = choose|j: int| 0 <= j < init.len() && init[j] == file;
                    assert(files[j] == file);
                } else {
                    assert(files[files.len() - 1] == file);
                }
            }
            if files.contains(file) {
                let j = choose|j: int| 0 <= j < files.len() && files[j] == file;
                if j < init.len() {
                    assert(init[j] == file);
                    assert(init.contains(file));
                    assert(kept.contains(file));
                    let i = choose|i: int| 0 <= i < kept.len() && kept[i] == file;
                    assert(all[i] == file);
                } else if kept.contains(last) {
                } else {
                    assert(all[all.len() - 1] == file);
                }
            }
        }
    }
}

/// The file specifiers `files` without repeats.
pub fn distinct(files: &Vec<String>) -> (r: Vec<String>)
    ensures
        r.deep_view() == without_repeats(files.deep_view()),
{
    let ghost all = files.deep_view();
    let mut kept: Vec<String> = Vec::new();
    assert(kept.deep_view() =~= Seq::<Seq<char>>::empty());
    let mut i: usize = 0;
    while i < files.len()
        invariant
            i <= files.len(),
            all == files.deep_view(),
            kept.deep_view() == without_repeats(all.take(i as int)),
        decreases files.len() - i,
    {
        assert(all.take(i + 1).drop_last() =~= all.take(i as int));
        assert(all.take(i + 1).last() == files[i as int]@);
        let mut seen = false;
        let mut j: usize = 0;
        while j < kept.len() && !seen
            invariant
                j <= kept.len(),
                i < files.len(),
                seen ==> kept.deep_view().contains(files[i as int]@),
                !seen ==> forall|k: int| 0 <= k < j ==> kept.deep_view()[k] != files[i as int]@,
            decreases kept.len() - j + if seen { 0int } else { 1int },
        {
            if str_eq(kept[j].as_str(), files[i].as_str()) {
                assert(kept.deep_view()[j as int] == files[i as int]@);
                seen = true;
            } else {
                j += 1;
            }
        }
        if !seen {
            let ghost before = kept.deep_view();
            kept.push(files[i].clone());
            assert(kept.deep_view() =~= before.push(files[i as int]@));
        }
        i += 1;
    }
    assert(all.take(i as int) =~= all);
    kept
}

/// `arg` asks for help.
pub open spec fn is_help_flag(arg: Seq<char>) -> bool {
    arg == "-h"@ || arg == "-help"@ || arg == "--help"@ || arg == "-?"@ || arg == "help"@
}

/// `arg` asks for the version.
pub open spec fn is_version_flag(arg: Seq<char>) -> bool {
    arg == "-v"@ || arg == "-V"@ || arg == "-version"@ || arg == "--version"@ || arg == "version"@
}

/// `arg` asks for the path of the configuration file.
pub open spec fn is_config_flag(arg: Seq<char>) -> bool {
    arg == "-config"@ || arg == "--config"@ || arg == "-get-config-path"@ || arg
        == "--get-config-path"@
}

/// `arg` asks to persist definitions.
pub open spec fn is_set_flag(arg: Seq<char>) -> bool {
    arg == "-set"@ || arg == "--set"@
}

/// The definitions among `texts` that are well formed, in order.
pub open spec fn accepted(texts: Seq<Seq<char>>) -> Seq<(Seq<char>, Seq<char>)>
    decreases texts.len(),
{
    if texts.len() == 0 {
        Seq::empty()
    } else {
        match definition(texts.last()) {
            Ok(pair) => accepted(texts.drop_last()).push(pair),
            Err(_) => accepted(texts.drop_last()),
        }
    }
}

/// What is wrong with each of `texts` that is no well-formed definition, in
/// order.
pub open spec fn rejected(texts: Seq<Seq<char>>) -> Seq<Fault>
    decreases texts.len(),
{
    if texts.len() == 0 {
        Seq::empty()
    } else {
        match definition(texts.last()) {
            Ok(_) => rejected(texts.drop_last()),
            Err(fault) => rejected(texts.drop_last()).push(fault),
        }
    }
}

/// The definitions to persist: those that are well formed, and what is
/// wrong with the others, which are skipped.
#[derive(Debug)]
pub struct SetRequest {
    pub definitions: Vec<(String, String)>,
    pub rejected: Vec<ArgumentError>,
}

/// What the program was asked to do.
#[derive(Debug)]
pub enum Invocation {
    /// Print the help text.
    Help,
    /// Print the name and the version.
    Version,
    /// Print the path of the configuration file.
    ConfigPath,
    /// Persist definitions.
    Persist(SetRequest),
    /// Make files.
    Run(Options),
}

/// What an `Invocation` asks for, as contracts speak of it.
pub enum Request {
    Help,
    Version,
    ConfigPath,
    Persist { definitions: Seq<(Seq<char>, Seq<char>)>, rejected: Seq<Fault> },
    Run(Parsed),
}

impl View for Invocation {
    type V = Request;

    open spec fn view(&self) -> Request {
        match self {
            Invocation::Help => Request::Help,
            Invocation::Version => Request::Version,
            Invocation::ConfigPath => Request::ConfigPath,
            Invocation::Persist(request) => Request::Persist {
                definitions: request.definitions.deep_view(),
                rejected: request.rejected.deep_view(),
            },
            Invocation::Run(options) => Request::Run(options@),
        }
    }
}

/// What the arguments `args` ask the program to do. No argument at all asks
/// for help. A flag for help, for the version or for the path of the
/// configuration file counts only where it is the one argument. A flag to
/// persist counts where it is the first argument: what follows are
/// definitions, and one that is wrong is skipped. All else is a run.
pub open spec fn request(args: Seq<Seq<char>>) -> Result<Request, Fault> {
    if args.len() == 0 {
        Ok(Request::Help)
    } else if args.len() == 1 && is_help_flag(args[0]) {
        Ok(Request::Help)
    } else if args.len() == 1 && is_version_flag(args[0]) {
        Ok(Request::Version)
    } else if args.len() == 1 && is_config_flag(args[0]) {
        Ok(Request::ConfigPath)
    } else if is_set_flag(args[0]) {
        Ok(Request::Persist { definitions: accepted(args.skip(1)), rejected: rejected(args.skip(1)) })
    } else {
        match parse(args) {
            Ok(parsed) => Ok(Request::Run(parsed)),
            Err(fault) => Err(fault),
        }
    }
}

fn help_flag(arg: &str) -> (r: bool)
    ensures
        r == is_help_flag(arg@),
{
    str_eq(arg, "-h") || str_eq(arg, "-help") || str_eq(arg, "--help") || str_eq(arg, "-?")
        || str_eq(arg, "help")
}

fn version_flag(arg: &str) -> (r: bool)
    ensures
        r == is_version_flag(arg@),
{
    str_eq(arg, "-v") || str_eq(arg, "-V") || str_eq(arg, "-version") || str_eq(arg, "--version")
        || str_eq(arg, "version")
}

fn config_flag(arg: &str) -> (r: bool)
    ensures
        r == is_config_flag(arg@),
{
    str_eq(arg, "-config") || str_eq(arg, "--config") || str_eq(arg, "-get-config-path") || str_eq(
        arg,
        "--get-config-path",
    )
}

fn set_flag(arg: &str) -> (r: bool)
    ensures
        r == is_set_flag(arg@),
{
    str_eq(arg, "-set") || str_eq(arg, "--set")
}

/// Reads the definitions `args[from..]` leniently: one that is wrong is
/// skipped, and what is wrong with it is kept.
fn parse_definitions(args: &[&str], from: usize) -> (r: SetRequest)
    requires
        from <= args.len(),
    ensures
        r.definitions.deep_view() == accepted(args.deep_view().skip(from as int)),
        r.rejected.deep_view() == rejected(args.deep_view().skip(from as int)),
{
    let ghost texts = args.deep_view().skip(from as int);
    let mut definitions: Vec<(String, String)> = Vec::new();
    let mut refused: Vec<ArgumentError> = Vec::new();
    assert(definitions.deep_view() =~= Seq::<(Seq<char>, Seq<char>)>::empty());
    assert(refused.deep_view() =~= Seq::<Fault>::empty());
    let mut i: usize = from;
    while i < args.len()
        invariant
            from <= i <= args.len(),
            texts == args.deep_view().skip(from as int),
            definitions.deep_view() == accepted(texts.take(i - from)),
            refused.deep_view() == rejected(texts.take(i - from)),
        decreases args.len() - i,
    {
        assert(texts.take(i - from + 1).drop_last() =~= texts.take(i - from));
        assert(texts.take(i - from + 1).last() == args[i as int]@);
        match parse_definition(args[i]) {
            Ok(pair) => {
                let ghost before = definitions.deep_view();
                definitions.push(pair);
                assert(definitions.deep_view() =~= before.push((pair.0@, pair.1@)));
            },
            Err(e) => {
                let ghost before = refused.deep_view();
                refused.push(e);
                assert(refused.deep_view() =~= before.push(e@));
            },
        }
        i += 1;
    }
    assert(texts.take(i - from) =~= texts);
    SetRequest { definitions, rejected: refused }
}

impl Invocation {
    /// Reads the arguments of the program.
    pub fn parse(args: &[&str]) -> (r: Result<Invocation, ArgumentError>)
        ensures
            match r {
                Ok(invocation) => request(args.deep_view()) == Ok::<_, Fault>(invocation@),
                Err(e) => request(args.deep_view()) == Err::<Request, _>(e@),
            },
    {
        if args.len() == 0 {
            return Ok(Invocation::Help);
        }
        assert(args.deep_view()[0] == args[0]@);
        if args.len() == 1 {
            if help_flag(args[0]) {
                return Ok(Invocation::Help);
            }
            if version_flag(args[0]) {
                return Ok(Invocation::Version);
            }
            if config_flag(args[0]) {
                return Ok(Invocation::ConfigPath);
            }
        }
        if set_flag(args[0]) {
            return Ok(Invocation::Persist(parse_definitions(args, 1)));
        }
        match Options::try_from(args) {
            Ok(options) => Ok(Invocation::Run(options)),
            Err(e) => Err(e),
        }
    }
}

} // verus!
