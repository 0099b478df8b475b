use bai::locator::{
    base_from, locator_from, parse_file_name, split_specifier, tag_segment, Part, BASE,
};

#[test]
fn parse_tagged_file_name() {
    let base = reqwest::Url::parse(BASE).unwrap();

    let (file_path, url) = parse_file_name("Cargo.toml").unwrap();
    assert_eq!(file_path, "Cargo.toml");
    assert_eq!(url.url, base.join("Cargo.toml").unwrap().as_str());

    let (file_path, url) = parse_file_name("Cargo.toml@rust").unwrap();
    assert_eq!(file_path, "Cargo.toml");
    assert_eq!(url.url, base.join("@rust/Cargo.toml").unwrap().as_str());
}

#[test]
fn locator_is_base_then_tag_then_path() {
    let (path, locator) = parse_file_name("Cargo.toml").unwrap();
    assert_eq!(path, "Cargo.toml");
    assert_eq!(
        locator.url,
        "https://raw.githubusercontent.com/aslilac/bai/main/static/Cargo.toml"
    );
    let (path, locator) = parse_file_name("src/index.tsx@react").unwrap();
    assert_eq!(path, "src/index.tsx");
    assert_eq!(
        locator.url,
        "https://raw.githubusercontent.com/aslilac/bai/main/static/@react/src/index.tsx"
    );
}

#[test]
fn tag_is_lowercased_and_path_is_not() {
    let (path, locator) = parse_file_name("Dockerfile@GLeam").unwrap();
    assert_eq!(path, "Dockerfile");
    assert_eq!(
        locator.url,
        "https://raw.githubusercontent.com/aslilac/bai/main/static/@gleam/Dockerfile"
    );
    assert_eq!(
        split_specifier("Dockerfile@GLeam"),
        ("Dockerfile".to_string(), Some("gleam".to_string()))
    );
    assert_eq!(
        split_specifier("a@\u{c9}Z"),
        ("a".to_string(), Some("\u{c9}z".to_string()))
    );
}

#[test]
fn last_at_sign_splits() {
    assert_eq!(split_specifier("a@b@c"), ("a@b".to_string(), Some("c".to_string())));
    assert_eq!(split_specifier("a@"), ("a".to_string(), Some(String::new())));
    assert_eq!(split_specifier("@x"), (String::new(), Some("x".to_string())));
    assert_eq!(split_specifier("plain"), ("plain".to_string(), None));
    assert_eq!(split_specifier(""), (String::new(), None));
}

#[test]
fn path_placeholders_pass_through_the_resolution() {
    let (path, locator) = parse_file_name("src/$$name$$.gleam").unwrap();
    assert_eq!(path, "src/$$name$$.gleam");
    assert_eq!(
        locator.url,
        "https://raw.githubusercontent.com/aslilac/bai/main/static/src/$$name$$.gleam"
    );
}

#[test]
fn tag_directory_is_written_with_at_and_slash() {
    assert_eq!(tag_segment("rust"), "@rust/");
    assert_eq!(tag_segment(""), "@/");
}

#[test]
fn path_without_address_is_an_error() {
    let error = parse_file_name("//").unwrap_err();
    assert_eq!(error.part, Part::Path);
    assert_eq!(error.detail, reqwest::Url::parse(BASE).unwrap().join("//").unwrap_err().to_string());
    assert_eq!(error.message(), error.detail);
    let error = parse_file_name("//@tag").unwrap_err();
    assert_eq!(error.part, Part::Path);
}

#[test]
fn failed_resolution_names_its_part() {
    let error = base_from(Err("no base".to_string())).unwrap_err();
    assert_eq!((error.part, error.detail.as_str()), (Part::Tag, "no base"));
    assert_eq!(base_from(Ok("b".to_string())).unwrap(), "b");
    let error = locator_from("p".to_string(), Err("no path".to_string())).unwrap_err();
    assert_eq!((error.part, error.detail.as_str()), (Part::Path, "no path"));
    let (path, locator) = locator_from("p".to_string(), Ok("u".to_string())).unwrap();
    assert_eq!((path.as_str(), locator.url.as_str()), ("p", "u"));
}
