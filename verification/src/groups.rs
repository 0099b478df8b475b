//! The catalogue of groups: each group name stands for a fixed list of file
//! specifiers.

use vstd::prelude::*;
use vstd::string::*;
use crate::text::str_eq;

verus! {

/// The failure of a group lookup: no group has the name `group`.
#[derive(Debug)]
pub struct GroupError {
    pub group: String,
}

impl Clone for GroupError {
    /// The same error.
    fn clone(&self) -> (r: GroupError)
        ensures
            r.group@ == self.group@,
    {
        GroupError { group: self.group.clone() }
    }
}

impl GroupError {
    /// The text of the error.
    pub open spec fn spec_message(&self) -> Seq<char> {
        "unrecognized group: "@ + self.group@
    }

    /// The text of the error.
    pub fn message(&self) -> (r: String)
        ensures
            r@ == self.spec_message(),
    {
        let mut r = String::from_str("unrecognized group: ");
        r.append(self.group.as_str());
        r
    }
}

/// The files that every project template starts with.
pub open spec fn common_files() -> Seq<Seq<char>> {
    seq![".editorconfig"@, ".gitignore"@, "README.md"@]
}

/// The file specifiers of the group `group`, in order; `None` where no group
/// has that name.
pub open spec fn group_files(group: Seq<char>) -> Option<Seq<Seq<char>>> {
    if group == "/gleam"@ {
        Some(
            common_files() + seq![
                "Dockerfile@gleam"@,
                "gleam.toml"@,
                "src/$$name$$.gleam"@,
                "test/$$name$$_test.gleam"@,
                "test/$$name$$/example_test.gleam"@,
            ],
        )
    } else if group == "/go"@ {
        Some(common_files() + seq!["go.mod"@, "main.go"@, "staticcheck.conf"@])
    } else if group == "/rs"@ || group == "/rust"@ {
        Some(
            common_files() + seq![
                ".cargo/config.toml"@,
                ".rustfmt.toml"@,
                "Cargo.toml"@,
                "rust-toolchain.toml"@,
                "src/main.rs"@,
                "tests/main.rs"@,
                "tests/setup.rs"@,
            ],
        )
    } else if group == "/ts"@ || group == "/typescript"@ {
        Some(
            common_files() + seq![
                ".prettierignore"@,
                ".prettierrc.json"@,
                "package.json"@,
                "src/index.ts"@,
                "tsconfig.json"@,
                "tsconfig.build.json"@,
            ],
        )
    } else if group == "/react"@ || group == "/tsx"@ {
        Some(
            common_files() + seq![
                ".prettierignore"@,
                ".prettierrc.json@react"@,
                "package.json@react"@,
                "src/index.css"@,
                "src/index.html"@,
                "src/index.tsx"@,
                "vite.config.ts"@,
                "tsconfig.json@react"@,
            ],
        )
    } else if group == "/oss"@ {
        Some(seq![".github/FUNDING.yml"@, "CODE_OF_CONDUCT.md"@, "LICENSE"@])
    } else {
        None
    }
}

/// The common files, followed by `other_files`.
pub fn with_common_files(other_files: &[&'static str]) -> (r: Vec<&'static str>)
    ensures
        r.deep_view() == common_files() + other_files.deep_view(),
{
    let mut r: Vec<&'static str> = Vec::new();
    r.push(".editorconfig");
    r.push(".gitignore");
    r.push("README.md");
    assert(r.deep_view() =~= common_files());
    let mut i: usize = 0;
    while i < other_files.len()
        invariant
            i <= other_files.len(),
            r.deep_view() == common_files() + other_files.deep_view().take(i as int),
        decreases other_files.len() - i,
    {
        let ghost before = r.deep_view();
        r.push(other_files[i]);
        i += 1;
        assert(r.deep_view() =~= before.push(other_files@[i - 1]@));
        assert(other_files.deep_view().take(i as int) =~= other_files.deep_view().take(i - 1).push(
            other_files@[i - 1]@,
        ));
    }
    assert(other_files.deep_view().take(i as int) =~= other_files.deep_view());
    r
}

/// Looks up the group `group`: its file specifiers in order, or the error
/// that names `group` where there is no such group.
pub fn expand_group(group: &str) -> (r: Result<Vec<&'static str>, GroupError>)
    ensures
        match r {
            Ok(files) => group_files(group@) == Some(files.deep_view()),
            Err(e) => group_files(group@) is None && e.group@ == group@,
        },
{
    if str_eq(group, "/gleam") {
        let other = [
            "Dockerfile@gleam",
            "gleam.toml",
            "src/$$name$$.gleam",
            "test/$$name$$_test.gleam",
            "test/$$name$$/example_test.gleam",
        ];
        assert(other.deep_view() =~= seq![
            "Dockerfile@gleam"@,
            "gleam.toml"@,
            "src/$$name$$.gleam"@,
            "test/$$name$$_test.gleam"@,
            "test/$$name$$/example_test.gleam"@,
        ]);
        Ok(with_common_files(other.as_slice()))
    } else if str_eq(group, "/go") {
        let other = ["go.mod", "main.go", "staticcheck.conf"];
        assert(other.deep_view() =~= seq!["go.mod"@, "main.go"@, "staticcheck.conf"@]);
        Ok(with_common_files(other.as_slice()))
    } else if str_eq(group, "/rs") || str_eq(group, "/rust") {
        let other = [
            ".cargo/config.toml",
            ".rustfmt.toml",
            "Cargo.toml",
            "rust-toolchain.toml",
            "src/main.rs",
            "tests/main.rs",
            "tests/setup.rs",
        ];
        assert(other.deep_view() =~= seq![
            ".cargo/config.toml"@,
            ".rustfmt.toml"@,
            "Cargo.toml"@,
            "rust-toolchain.toml"@,
            "src/main.rs"@,
            "tests/main.rs"@,
            "tests/setup.rs"@,
        ]);
        Ok(with_common_files(other.as_slice()))
    } else if str_eq(group, "/ts") || str_eq(group, "/typescript") {
        let other = [
            ".prettierignore",
            ".prettierrc.json",
            "package.json",
            "src/index.ts",
            "tsconfig.json",
            "tsconfig.build.json",
        ];
        assert(other.deep_view() =~= seq![
            ".prettierignore"@,
            ".prettierrc.json"@,
            "package.json"@,
            "src/index.ts"@,
            "tsconfig.json"@,
            "tsconfig.build.json"@,
        ]);
        Ok(with_common_files(other.as_slice()))
    } else if str_eq(group, "/react") || str_eq(group, "/tsx") {
        let other = [
            ".prettierignore",
            ".prettierrc.json@react",
            "package.json@react",
            "src/index.css",
            "src/index.html",
            "src/index.tsx",
            "vite.config.ts",
            "tsconfig.json@react",
        ];
        assert(other.deep_view() =~= seq![
            ".prettierignore"@,
            ".prettierrc.json@react"@,
            "package.json@react"@,
            "src/index.css"@,
            "src/index.html"@,
            "src/index.tsx"@,
            "vite.config.ts"@,
            "tsconfig.json@react"@,
        ]);
        Ok(with_common_files(other.as_slice()))
    } else if str_eq(group, "/oss") {
        let mut r: Vec<&'static str> = Vec::new();
        r.push(".github/FUNDING.yml");
        r.push("CODE_OF_CONDUCT.md");
        r.push("LICENSE");
        assert(r.deep_view() =~= seq![".github/FUNDING.yml"@, "CODE_OF_CONDUCT.md"@, "LICENSE"@]);
        Ok(r)
    } else {
        Err(GroupError { group: String::from_str(group) })
    }
}

} // verus!
