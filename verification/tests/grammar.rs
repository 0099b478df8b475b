use bai::context::Context;
use bai::ident::is_variable_name;
use bai::placeholder::{first_match, Grammar};
use bai::template::{for_each, substitute};

fn context_of(pairs: &[(&str, &str)]) -> Context {
    let mut context = Context::new();
    for (key, value) in pairs {
        assert!(context.insert(key.to_string(), value.to_string()));
    }
    context
}

#[test]
fn parse_identifier() {
    assert!(is_variable_name("a"));
    assert!(is_variable_name("a.b"));
    assert!(!is_variable_name("a."));
    assert!(is_variable_name("hello.friend"));
    assert!(is_variable_name("hello.friend-name"));
    assert!(is_variable_name("hello.friend_name"));
    assert!(is_variable_name("hello.friend-"));
    assert!(is_variable_name("hello.friend_"));
    assert!(is_variable_name("hello.friend_name1"));
    assert!(is_variable_name("hello.0"));
    assert!(!is_variable_name("hello.0a"));
    assert!(is_variable_name("hello.01"));
    assert!(is_variable_name("hello.10"));
    assert!(!is_variable_name("0.1"));
    assert!(!is_variable_name("0a.1"));
    assert!(is_variable_name("a0.1"));
}

#[test]
fn parse_template_replacements() {
    let file_content = "Hi, my name is {{ name }}!";
    let (captures, name) = first_match(Grammar::Content, file_content).unwrap();
    assert_eq!(name, "name");
    assert_eq!(captures.start..captures.end, 15..25);

    // No spaces is fine
    let file_content = "Hi, my name is {{name}}!";
    let (captures, name) = first_match(Grammar::Content, file_content).unwrap();
    assert_eq!(name, "name");
    assert_eq!(captures.start..captures.end, 15..23);

    // Multiple spaces is fine
    let file_content = "Hi, my name is {{  name  }}!";
    let (captures, name) = first_match(Grammar::Content, file_content).unwrap();
    assert_eq!(name, "name");
    assert_eq!(captures.start..captures.end, 15..27);

    // `.` is fine
    let file_content = "Hi, my name is {{ github.username }}!";
    let (captures, name) = first_match(Grammar::Content, file_content).unwrap();
    assert_eq!(name, "github.username");
    assert_eq!(captures.start..captures.end, 15..36);

    // Numbers are fine, except at the start
    let file_content = "Hi, my name is {{ 0a.1b }}!";
    assert!(first_match(Grammar::Content, file_content).is_none());
    let file_content = "Hi, my name is {{ a0.1b }}!";
    assert!(first_match(Grammar::Content, file_content).is_none());
    let file_content = "Hi, my name is {{ a0.b1 }}!";
    let (captures, name) = first_match(Grammar::Content, file_content).unwrap();
    assert_eq!(name, "a0.b1");
    assert_eq!(captures.start..captures.end, 15..26);
    let file_content = "Hi, my name is {{ a0.1 }}!";
    let (captures, name) = first_match(Grammar::Content, file_content).unwrap();
    assert_eq!(name, "a0.1");
    assert_eq!(captures.start..captures.end, 15..25);
    let file_content = "Hi, my name is {{ 0.1 }}!";
    assert!(first_match(Grammar::Content, file_content).is_none());

    // New lines, tabs, etc., are not fine
    let file_content = "\n\t\t\tHi, my name is {{\n\t\t\t\tname\n\t\t\t}}!\n\t\t";
    assert!(first_match(Grammar::Content, file_content).is_none());
}

#[test]
fn identifier_edge_cases() {
    assert!(!is_variable_name(""));
    assert!(!is_variable_name("."));
    assert!(!is_variable_name(".a"));
    assert!(!is_variable_name("a..b"));
    assert!(!is_variable_name("a b"));
    assert!(!is_variable_name("a=b"));
    assert!(!is_variable_name("-a"));
    assert!(!is_variable_name("1"));
    assert!(is_variable_name("_a"));
    assert!(is_variable_name("_"));
    assert!(is_variable_name("a_"));
    assert!(is_variable_name("a-"));
    assert!(is_variable_name("_-"));
    assert!(is_variable_name("A.B-c_d.0.e9"));
    assert!(is_variable_name("a.0.10.b"));
    assert!(is_variable_name("a.00"));
    assert!(is_variable_name("a.007.b-"));
    assert!(!is_variable_name("a.0b"));
    assert!(!is_variable_name("00.a"));
    assert!(!is_variable_name("a.-b"));
    assert!(!is_variable_name("na\u{ef}ve"));
    assert!(!is_variable_name("a.\u{663}"));
}

#[test]
fn name_span_excludes_padding() {
    let (found, name) = first_match(Grammar::Content, "x{{   a.b }}y").unwrap();
    assert_eq!(name, "a.b");
    assert_eq!((found.start, found.name_start, found.name_end, found.end), (1, 6, 9, 12));
}

#[test]
fn path_placeholder_matches() {
    let (found, name) = first_match(Grammar::Path, "src/$$name$$.gleam").unwrap();
    assert_eq!(name, "name");
    assert_eq!(found.start..found.end, 4..12);
    assert!(first_match(Grammar::Path, "src/$$ name $$.gleam").is_none());
    assert!(first_match(Grammar::Path, "src/$$name $$.gleam").is_none());
    assert!(first_match(Grammar::Path, "src/$$0$$.gleam").is_none());
    assert!(first_match(Grammar::Path, "src/$name$.gleam").is_none());
    assert!(first_match(Grammar::Path, "src/{{ name }}.gleam").is_none());
    assert!(first_match(Grammar::Content, "src/$$name$$.gleam").is_none());
}

#[test]
fn positions_count_characters() {
    let (found, name) = first_match(Grammar::Content, "h\u{e9}llo {{ name }}").unwrap();
    assert_eq!(name, "name");
    assert_eq!(found.start..found.end, 6..16);
}

#[test]
fn leftmost_placeholder_is_found_first() {
    let (found, name) = first_match(Grammar::Content, "{{ 0 }} {{ b }} {{ c }}").unwrap();
    assert_eq!(name, "b");
    assert_eq!(found.start..found.end, 8..15);
    let (found, name) = first_match(Grammar::Content, "{{{{ a }}}}").unwrap();
    assert_eq!(name, "a");
    assert_eq!(found.start..found.end, 2..9);
    let (found, name) = first_match(Grammar::Path, "$$$a$$").unwrap();
    assert_eq!(name, "a");
    assert_eq!(found.start..found.end, 1..6);
}

#[test]
fn unknown_name_is_left_untouched() {
    let context = context_of(&[("name", "Ada")]);
    let text = "before {{ unknown.key }} after".to_string();
    assert_eq!(substitute(Grammar::Content, text.clone(), &context), text);
    let empty = Context::new();
    let text = "Hi {{ name }} at $$name$$".to_string();
    assert_eq!(substitute(Grammar::Content, text.clone(), &empty), text);
    assert_eq!(substitute(Grammar::Path, text.clone(), &empty), text);
}

#[test]
fn text_without_placeholders_is_unchanged() {
    let context = context_of(&[("name", "Ada")]);
    for text in ["", "plain", "{ name }", "{{ name }", "{{}}", "{{ }}", "h\u{e9}\u{1f600}", "$$$$"] {
        assert_eq!(substitute(Grammar::Content, text.to_string(), &context), text);
    }
}

#[test]
fn known_name_is_replaced_and_nothing_else() {
    let context = context_of(&[("name", "Ada")]);
    assert_eq!(
        substitute(Grammar::Content, "Hi, my name is {{ name }}!".to_string(), &context),
        "Hi, my name is Ada!"
    );
    assert_eq!(
        substitute(Grammar::Content, "{{name}}".to_string(), &context),
        "Ada"
    );
    assert_eq!(
        substitute(Grammar::Content, "a {{ other }} b {{  name  }} c".to_string(), &context),
        "a {{ other }} b Ada c"
    );
    assert_eq!(
        substitute(Grammar::Path, "test/$$name$$/example_test.gleam".to_string(), &context),
        "test/Ada/example_test.gleam"
    );
}

#[test]
fn every_placeholder_is_replaced_in_one_pass() {
    let context = context_of(&[("a", "{{ b }}"), ("b", "2"), ("c.d", "")]);
    assert_eq!(
        substitute(Grammar::Content, "{{ a }}{{ b }}{{ c.d }}{{ a }}".to_string(), &context),
        "{{ b }}2{{ b }}"
    );
    let context = context_of(&[("x", "$$y$$"), ("y", "no")]);
    assert_eq!(substitute(Grammar::Path, "$$x$$/$$y$$".to_string(), &context), "$$y$$/no");
}

#[test]
fn placeholders_do_not_overlap() {
    let context = context_of(&[("a", "1"), ("b", "2")]);
    assert_eq!(substitute(Grammar::Path, "$$a$$b$$".to_string(), &context), "1b$$");
    assert_eq!(substitute(Grammar::Path, "$$a$$$$b$$".to_string(), &context), "12");
    assert_eq!(substitute(Grammar::Content, "{{a}}}}{{b}}".to_string(), &context), "1}}2");
}

#[test]
fn substitution_keeps_text_outside_ascii() {
    let context = context_of(&[("name", "Zo\u{eb}")]);
    assert_eq!(
        substitute(Grammar::Content, "\u{1f600} {{ name }} \u{e9}".to_string(), &context),
        "\u{1f600} Zo\u{eb} \u{e9}"
    );
}

#[test]
fn grammar_agrees_with_the_pattern() {
    let word = "[a-zA-Z_][a-zA-Z0-9_-]*";
    let ident = format!("{word}(?:\\.(?:[0-9]+|{word}))*");
    let whole = regex::Regex::new(&format!("^(?:{ident})$")).unwrap();
    let content = regex::Regex::new(&format!("\\{{\\{{ *({ident}) *\\}}\\}}")).unwrap();
    let path = regex::Regex::new(&format!("\\$\\$({ident})\\$\\$")).unwrap();
    let names = [
        "", "a", "_", "a_", "a-", "_a", "a.b", "a.", ".a", "a..b", "a.0", "a.01", "a.10", "0.1",
        "0a.1", "a0.1", "hello.friend-name", "hello.friend_", "A.B-c_d.0.e9", "a.0b", "a.b0",
        "a b", "a.-b", "a.b-.c", "a.0.0", "a.9.x_", "x-y-z", "x--y", "x__y", "é", "a.é",
    ];
    for name in names {
        assert_eq!(is_variable_name(name), whole.is_match(name), "{}", name);
    }
    let texts = [
        "Hi, my name is {{ name }}!",
        "{{name}}{{ name }}{{  name  }}",
        "{{ 0a.1b }} {{ a0.1b }} {{ a0.b1 }} {{ a0.1 }} {{ 0.1 }}",
        "{{{{ a }}}}",
        "{{ a }",
        "{{ a.}} {{ a }}",
        "{{ a\n}} {{\ta }} {{ a-b_c.0 }}",
        "src/$$name$$.gleam and $$a.b$$ and $$ a $$ and $$$c$$",
        "$$a$$b$$ $$a$$$$b$$",
        "{{ a }}}} {{ b-}} {{ _ }} {{ c }}",
    ];
    for text in texts {
        for (grammar, pattern) in [(Grammar::Content, &content), (Grammar::Path, &path)] {
            let expected = pattern
                .captures(text)
                .map(|c| (c.get(0).unwrap().range(), c[1].to_string()));
            let found = first_match(grammar, text).map(|(m, name)| (m.start..m.end, name));
            assert_eq!(found, expected, "{}", text);
            let mut context = Context::new();
            for key in ["name", "a", "b", "c", "a0.b1", "a0.1", "a.b", "a-b_c.0", "_"] {
                assert!(context.insert(key.to_string(), format!("<{key}>")));
            }
            let replaced = pattern.replace_all(text, |c: &regex::Captures| {
                match context.get(&c[1]) {
                    Some(value) => value.clone(),
                    None => c[0].to_string(),
                }
            });
            assert_eq!(substitute(grammar, text.to_string(), &context), replaced, "{}", text);
        }
    }
}

#[test]
fn grammar_agrees_with_the_pattern_on_many_texts() {
    let word = "[a-zA-Z_][a-zA-Z0-9_-]*";
    let ident = format!("{word}(?:\\.(?:[0-9]+|{word}))*");
    let whole = regex::Regex::new(&format!("^(?:{ident})$")).unwrap();
    let content = regex::Regex::new(&format!("\\{{\\{{ *({ident}) *\\}}\\}}")).unwrap();
    let path = regex::Regex::new(&format!("\\$\\$({ident})\\$\\$")).unwrap();
    let mut context = Context::new();
    for key in ["a", "b", "a.b", "a0", "a.0", "b-a", "_", "a_b"] {
        assert!(context.insert(key.to_string(), format!("[{key}]")));
    }
    let alphabet: Vec<char> = "{{}}$$  ab0.._-\n".chars().collect();
    let mut state: u64 = 0x2545f4914f6cdd1d;
    let mut next = |bound: usize| {
        state ^= state << 13;
        state ^= state >> 7;
        state ^= state << 17;
        (state % bound as u64) as usize
    };
    for _ in 0..20000 {
        let len = next(14);
        let text: String = (0..len).map(|_| alphabet[next(alphabet.len())]).collect();
        assert_eq!(is_variable_name(&text), whole.is_match(&text), "{:?}", text);
        for (grammar, pattern) in [(Grammar::Content, &content), (Grammar::Path, &path)] {
            let expected = pattern
                .captures(&text)
                .map(|c| (c.get(0).unwrap().range(), c[1].to_string()));
            let found = first_match(grammar, &text).map(|(m, name)| (m.start..m.end, name));
            assert_eq!(found, expected, "{:?}", text);
            let replaced = pattern.replace_all(&text, |c: &regex::Captures| {
                match context.get(&c[1]) {
                    Some(value) => value.clone(),
                    None => c[0].to_string(),
                }
            });
            assert_eq!(substitute(grammar, text.clone(), &context), replaced, "{:?}", text);
        }
    }
}

#[test]
fn each_is_asked_for_every_name_in_order() {
    let asked = std::cell::RefCell::new(Vec::new());
    let each = |name: &str| {
        asked.borrow_mut().push(name.to_string());
        if name == "keep" {
            None
        } else {
            Some(name.to_uppercase())
        }
    };
    let text = "{{ a }} and {{keep}} and {{ b.c }} and {{ a }} and {{ 0 }}".to_string();
    assert_eq!(
        for_each(Grammar::Content, text, each),
        "A and {{keep}} and B.C and A and {{ 0 }}"
    );
    assert_eq!(asked.into_inner(), vec!["a", "keep", "b.c", "a"]);
}

#[test]
fn each_is_not_asked_without_placeholders() {
    let each = |_: &str| -> Option<String> { panic!("asked") };
    assert_eq!(for_each(Grammar::Path, "plain/$path$".to_string(), each), "plain/$path$");
    let each = |_: &str| Some(String::new());
    assert_eq!(for_each(Grammar::Path, "a/$$b$$/$$c$$".to_string(), each), "a//");
}
