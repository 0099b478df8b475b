use bai::builder::{complete_in_year, overlay, Inferred};
use bai::config::Config;
use bai::context::Context;
use bai::groups::expand_group;
use bai::locator::Part;
use bai::options::{Invocation, Options};
use bai::task::{Action, Event, FailureKind, FetchTask};

fn context_of(pairs: &[(&str, &str)]) -> Context {
    let mut context = Context::new();
    for (key, value) in pairs {
        assert!(context.insert(key.to_string(), value.to_string()));
    }
    context
}

#[test]
fn task_goes_from_pending_to_written() {
    let context = context_of(&[("name", "demo"), ("author.name", "Ada")]);
    let task = FetchTask::new("src/$$name$$.gleam@Gleam".to_string());
    assert_eq!(task.awaits(), Action::Proceed);
    assert!(!task.is_terminal());

    let task = task.step(Event::Proceed, &context);
    match &task {
        FetchTask::Parsed { path, locator } => {
            assert_eq!(path, "src/demo.gleam");
            assert_eq!(
                locator.url,
                "https://raw.githubusercontent.com/aslilac/bai/main/static/@gleam/src/$$name$$.gleam"
            );
        }
        other => panic!("{:?}", other),
    }
    assert_eq!(task.awaits(), Action::Fetch);

    let task = task.step(Event::Fetched(Ok("by {{ author.name }} in $$name$$".to_string())), &context);
    assert!(matches!(
        &task,
        FetchTask::Fetched { path, contents }
            if path == "src/demo.gleam" && contents == "by {{ author.name }} in $$name$$"
    ));
    assert_eq!(task.awaits(), Action::Proceed);

    let task = task.step(Event::Proceed, &context);
    assert!(matches!(
        &task,
        FetchTask::Substituted { path, contents }
            if path == "src/demo.gleam" && contents == "by Ada in $$name$$"
    ));
    assert_eq!(task.awaits(), Action::Write);
    assert!(!task.is_terminal());

    let task = task.step(Event::Wrote(Ok(())), &context);
    assert!(matches!(&task, FetchTask::Written { path } if path == "src/demo.gleam"));
    assert_eq!(task.awaits(), Action::Finish);
    assert!(task.is_terminal());
}

#[test]
fn failed_fetch_ends_the_task_without_a_write() {
    let context = Context::new();
    let task = FetchTask::new("a".to_string()).step(Event::Proceed, &context);
    let task = task.step(Event::Fetched(Err("404".to_string())), &context);
    assert!(matches!(
        &task,
        FetchTask::Failed { kind: FailureKind::Fetch, detail } if detail == "404"
    ));
    assert_eq!(task.awaits(), Action::Finish);
    assert!(task.is_terminal());
    let task = task.step(Event::Proceed, &context);
    let task = task.step(Event::Fetched(Ok("late".to_string())), &context);
    let task = task.step(Event::Wrote(Ok(())), &context);
    assert!(matches!(
        &task,
        FetchTask::Failed { kind: FailureKind::Fetch, detail } if detail == "404"
    ));
}

#[test]
fn failed_write_ends_the_task() {
    let context = Context::new();
    let task = FetchTask::new("a".to_string())
        .step(Event::Proceed, &context)
        .step(Event::Fetched(Ok(String::new())), &context)
        .step(Event::Proceed, &context)
        .step(Event::Wrote(Err("read-only".to_string())), &context);
    assert!(matches!(
        &task,
        FetchTask::Failed { kind: FailureKind::Write, detail } if detail == "read-only"
    ));
    assert_eq!(task.awaits(), Action::Finish);
}

#[test]
fn specifier_without_address_fails_at_once() {
    let context = Context::new();
    let task = FetchTask::new("//".to_string()).step(Event::Proceed, &context);
    assert!(matches!(&task, FetchTask::Failed { kind: FailureKind::Locate(Part::Path), .. }));
    assert_eq!(task.awaits(), Action::Finish);
}

#[test]
fn unexpected_event_changes_nothing() {
    let context = Context::new();
    let task = FetchTask::new("a".to_string());
    let task = task.step(Event::Fetched(Ok("early".to_string())), &context);
    let task = task.step(Event::Wrote(Ok(())), &context);
    assert!(matches!(&task, FetchTask::Pending { file } if file == "a"));
    let task = task.step(Event::Proceed, &context).step(Event::Proceed, &context);
    let task = task.step(Event::Wrote(Ok(())), &context);
    assert!(matches!(&task, FetchTask::Parsed { .. }));
    let task = task.step(Event::Fetched(Ok("x".to_string())), &context);
    let task = task.step(Event::Fetched(Ok("y".to_string())), &context);
    let task = task.step(Event::Wrote(Ok(())), &context);
    assert!(matches!(&task, FetchTask::Fetched { contents, .. } if contents == "x"));
    let task = task.step(Event::Proceed, &context).step(Event::Proceed, &context);
    let task = task.step(Event::Fetched(Ok("z".to_string())), &context);
    assert!(matches!(&task, FetchTask::Substituted { contents, .. } if contents == "x"));
    let task = task.step(Event::Wrote(Ok(())), &context);
    let task = task.step(Event::Wrote(Err("late".to_string())), &context);
    assert!(matches!(&task, FetchTask::Written { path } if path == "a"));
}

#[test]
fn gleam_project_is_made_from_its_group() {
    let args = [
        "-d", "git.branch=trunk",
        "-d", "author.name=James Baxter",
        "-d", "author.email=jamesbaxter@hey.com",
        "-d", "date.year=2112",
        "-d", "github.username=jamesbaxter",
        "/gleam",
    ];
    let Options { files, context, aliases, unrecognized } = match Invocation::parse(&args) {
        Ok(Invocation::Run(options)) => options,
        other => panic!("{:?}", other),
    };
    assert!(unrecognized.is_empty());
    assert_eq!(files, expand_group("/gleam").unwrap());

    let mut context = overlay(Config { context: Context::new() }, &context);
    let found = Inferred {
        name: Some("gleam_project".to_string()),
        git_branch: None,
        author_name: None,
        author_email: None,
    };
    let warnings = complete_in_year(&mut context, found, 1999, &aliases);
    assert!(warnings.is_empty());

    let template = "{{ name }} (c) {{ date.year }} {{ license.owner }} <{{ author.email }}> \
                    on {{ git.branch }} at {{ github.owner }}/{{name}}";
    let mut written = Vec::new();
    for file in files {
        let mut task = FetchTask::new(file);
        let mut event = Event::Proceed;
        let mut fetched = Vec::new();
        loop {
            task = task.step(event, &context);
            event = match task.awaits() {
                Action::Proceed => Event::Proceed,
                Action::Fetch => match &task {
                    FetchTask::Parsed { locator, .. } => {
                        fetched.push(locator.url.clone());
                        Event::Fetched(Ok(template.to_string()))
                    }
                    other => panic!("{:?}", other),
                },
                Action::Write => match &task {
                    FetchTask::Substituted { path, contents } => {
                        written.push((path.clone(), contents.clone()));
                        Event::Wrote(Ok(()))
                    }
                    other => panic!("{:?}", other),
                },
                Action::Finish => break,
            };
        }
        assert!(matches!(task, FetchTask::Written { .. }));
        assert_eq!(fetched.len(), 1);
        assert!(fetched[0].starts_with("https://raw.githubusercontent.com/aslilac/bai/main/static/"));
    }
    let paths: Vec<&str> = written.iter().map(|(path, _)| path.as_str()).collect();
    assert_eq!(
        paths,
        vec![
            ".editorconfig",
            ".gitignore",
            "README.md",
            "Dockerfile",
            "gleam.toml",
            "src/gleam_project.gleam",
            "test/gleam_project_test.gleam",
            "test/gleam_project/example_test.gleam",
        ]
    );
    for (_, contents) in &written {
        assert_eq!(
            contents,
            "gleam_project (c) 2112 James Baxter <jamesbaxter@hey.com> on trunk at \
             jamesbaxter/gleam_project"
        );
    }
}
