use bai::groups::{expand_group, with_common_files};

#[test]
fn gleam_group_lists_its_files_in_order() {
    assert_eq!(
        expand_group("/gleam").unwrap(),
        vec![
            ".editorconfig",
            ".gitignore",
            "README.md",
            "Dockerfile@gleam",
            "gleam.toml",
            "src/$$name$$.gleam",
            "test/$$name$$_test.gleam",
            "test/$$name$$/example_test.gleam",
        ]
    );
}

#[test]
fn go_group_lists_its_files_in_order() {
    assert_eq!(
        expand_group("/go").unwrap(),
        vec![".editorconfig", ".gitignore", "README.md", "go.mod", "main.go", "staticcheck.conf"]
    );
}

#[test]
fn rust_group_has_two_names() {
    let files = expand_group("/rust").unwrap();
    assert_eq!(
        files,
        vec![
            ".editorconfig",
            ".gitignore",
            "README.md",
            ".cargo/config.toml",
            ".rustfmt.toml",
            "Cargo.toml",
            "rust-toolchain.toml",
            "src/main.rs",
            "tests/main.rs",
            "tests/setup.rs",
        ]
    );
    assert_eq!(expand_group("/rs").unwrap(), files);
}

#[test]
fn typescript_group_has_two_names() {
    let files = expand_group("/typescript").unwrap();
    assert_eq!(
        files,
        vec![
            ".editorconfig",
            ".gitignore",
            "README.md",
            ".prettierignore",
            ".prettierrc.json",
            "package.json",
            "src/index.ts",
            "tsconfig.json",
            "tsconfig.build.json",
        ]
    );
    assert_eq!(expand_group("/ts").unwrap(), files);
}

#[test]
fn react_group_has_two_names() {
    let files = expand_group("/react").unwrap();
    assert_eq!(
        files,
        vec![
            ".editorconfig",
            ".gitignore",
            "README.md",
            ".prettierignore",
            ".prettierrc.json@react",
            "package.json@react",
            "src/index.css",
            "src/index.html",
            "src/index.tsx",
            "vite.config.ts",
            "tsconfig.json@react",
        ]
    );
    assert_eq!(expand_group("/tsx").unwrap(), files);
}

#[test]
fn oss_group_has_no_common_files() {
    assert_eq!(
        expand_group("/oss").unwrap(),
        vec![".github/FUNDING.yml", "CODE_OF_CONDUCT.md", "LICENSE"]
    );
}

#[test]
fn unknown_group_is_an_error_that_names_it() {
    for group in ["/foss", "/", "", "gleam", "/Gleam", "/gleam ", "/rust/"] {
        let error = expand_group(group).unwrap_err();
        assert_eq!(error.group, group);
        assert_eq!(error.message(), format!("unrecognized group: {}", group));
    }
}

#[test]
fn common_files_come_first() {
    assert_eq!(with_common_files(&[]), vec![".editorconfig", ".gitignore", "README.md"]);
    assert_eq!(
        with_common_files(&["a", "b"]),
        vec![".editorconfig", ".gitignore", "README.md", "a", "b"]
    );
}
