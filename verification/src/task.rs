//! The work on one file, as a state machine.
//!
//! A task goes from `Pending` through `Parsed`, `Fetched` and `Substituted`
//! to `Written`, or from any of the first four to `Failed`. The library
//! decides and computes; the caller fetches and writes, and reports how that
//! went. A task never goes back, and a task that failed asks for nothing
//! more: no file is written for it.

use vstd::prelude::*;
use crate::context::Context;
use crate::locator::{destination, located, parse_file_name, Part, SourceLocator};
use crate::placeholder::Grammar;
use crate::template::{substitute, substituted};

verus! {

/// What went wrong with a file.
#[derive(Clone, Copy, Debug, PartialEq, Eq, Structural)]
pub enum FailureKind {
    /// The file specifier gave no address; the part says where.
    Locate(Part),
    /// The template could not be fetched.
    Fetch,
    /// The file could not be written.
    Write,
}

/// What the caller is to do next for a task.
#[derive(Clone, Copy, Debug, PartialEq, Eq, Structural)]
pub enum Action {
    /// Nothing outside: step the task with `Event::Proceed`.
    Proceed,
    /// Fetch the template from the address of the task, and step the task
    /// with `Event::Fetched`.
    Fetch,
    /// Create the directories above the path of the task, write its contents
    /// there, and step the task with `Event::Wrote`.
    Write,
    /// Nothing: the task is done.
    Finish,
}

/// What the caller reports to a task.
#[derive(Debug)]
pub enum Event {
    /// Nothing happened outside.
    Proceed,
    /// The fetch ended, with the contents of the template or with the reason
    /// of its failure.
    Fetched(Result<String, String>),
    /// The write ended, well or with the reason of its failure.
    Wrote(Result<(), String>),
}

/// What an `Event` reports, as contracts speak of it.
pub enum Outcome {
    Proceed,
    Fetched(Result<Seq<char>, Seq<char>>),
    Wrote(Result<(), Seq<char>>),
}

impl View for Event {
    type V = Outcome;

    open spec fn view(&self) -> Outcome {
        match self {
            Event::Proceed => Outcome::Proceed,
            Event::Fetched(Ok(contents)) => Outcome::Fetched(Ok(contents@)),
            Event::Fetched(Err(detail)) => Outcome::Fetched(Err(detail@)),
            Event::Wrote(Ok(())) => Outcome::Wrote(Ok(())),
            Event::Wrote(Err(detail)) => Outcome::Wrote(Err(detail@)),
        }
    }
}

/// The work on one file, and how far it is.
#[derive(Debug)]
pub enum FetchTask {
    /// Nothing was done yet for the file specifier `file`.
    Pending { file: String },
    /// The file is to be written at `path`, and its template lies at
    /// `locator`.
    Parsed { path: String, locator: SourceLocator },
    /// The template holds `contents`.
    Fetched { path: String, contents: String },
    /// The file is to hold `contents`.
    Substituted { path: String, contents: String },
    /// The file was written at `path`.
    Written { path: String },
    /// The work on the file ended without the file.
    Failed { kind: FailureKind, detail: String },
}

/// How far a `FetchTask` is, as contracts speak of it.
pub enum Stage {
    Pending { file: Seq<char> },
    Parsed { path: Seq<char>, locator: Seq<char> },
    Fetched { path: Seq<char>, contents: Seq<char> },
    Substituted { path: Seq<char>, contents: Seq<char> },
    Written { path: Seq<char> },
    Failed { kind: FailureKind, detail: Seq<char> },
}

impl View for FetchTask {
    type V = Stage;

    open spec fn view(&self) -> Stage {
        match self {
            FetchTask::Pending { file } => Stage::Pending { file: file@ },
            FetchTask::Parsed { path, locator } => Stage::Parsed { path: path@, locator: locator@ },
            FetchTask::Fetched { path, contents } => Stage::Fetched {
                path: path@,
                contents: contents@,
            },
            FetchTask::Substituted { path, contents } => Stage::Substituted {
                path: path@,
                contents: contents@,
            },
            FetchTask::Written { path } => Stage::Written { path: path@ },
            FetchTask::Failed { kind, detail } => Stage::Failed { kind: *kind, detail: detail@ },
        }
    }
}

impl Stage {
    /// What the caller is to do next.
    pub open spec fn awaits(self) -> Action {
        match self {
            Stage::Pending { .. } => Action::Proceed,
            Stage::Parsed { .. } => Action::Fetch,
            Stage::Fetched { .. } => Action::Proceed,
            Stage::Substituted { .. } => Action::Write,
            Stage::Written { .. } => Action::Finish,
            Stage::Failed { .. } => Action::Finish,
        }
    }

    /// Whether the task is done.
    pub open spec fn is_terminal(self) -> bool {
        self is Written || self is Failed
    }

    /// How far the task is.
    pub open spec fn rank(self) -> nat {
        match self {
            Stage::Pending { .. } => 0,
            Stage::Parsed { .. } => 1,
            Stage::Fetched { .. } => 2,
            Stage::Substituted { .. } => 3,
            Stage::Written { .. } => 4,
            Stage::Failed { .. } => 4,
        }
    }

    /// The stage that follows on `outcome`, with the variables `context`. An
    /// outcome that the stage does not wait for changes nothing.
    pub open spec fn step(self, outcome: Outcome, context: Map<Seq<char>, Seq<char>>) -> Stage {
        match (self, outcome) {
            (Stage::Pending { file }, Outcome::Proceed) => match located(file) {
                Ok(locator) => Stage::Parsed {
                    path: substituted(Grammar::Path, destination(file), context),
                    locator,
                },
                Err(unresolved) => Stage::Failed {
                    kind: FailureKind::Locate(unresolved.part),
                    detail: unresolved.detail,
                },
            },
            (Stage::Parsed { path, .. }, Outcome::Fetched(Ok(contents))) => Stage::Fetched {
                path,
                contents,
            },
            (Stage::Parsed { .. }, Outcome::Fetched(Err(detail))) => Stage::Failed {
                kind: FailureKind::Fetch,
                detail,
            },
            (Stage::Fetched { path, contents }, Outcome::Proceed) => Stage::Substituted {
                path,
                contents: substituted(Grammar::Content, contents, context),
            },
            (Stage::Substituted { path, .. }, Outcome::Wrote(Ok(()))) => Stage::Written { path },
            (Stage::Substituted { .. }, Outcome::Wrote(Err(detail))) => Stage::Failed {
                kind: FailureKind::Write,
                detail,
            },
            _ => self,
        }
    }
}

/// A task never goes back, and it moves on only on the outcome of what it
/// asked for.
pub proof fn lemma_step_advances(stage: Stage, outcome: Outcome, context: Map<Seq<char>, Seq<char>>)
    ensures
        stage.rank() <= stage.step(outcome, context).rank(),
        stage.step(outcome, context) != stage ==> stage.rank() < stage.step(outcome, context).rank(),
        stage.step(outcome, context) != stage ==> match stage.awaits() {
            Action::Proceed => outcome is Proceed,
            Action::Fetch => outcome is Fetched,
            Action::Write => outcome is Wrote,
            Action::Finish => false,
        },
{
}

/// A task that is done stays as it is, whatever is reported to it, and asks
/// for nothing more. So a task that failed never asks for a write.
pub proof fn lemma_terminal_stays(stage: Stage, outcome: Outcome, context: Map<Seq<char>, Seq<char>>)
    requires
        stage.is_terminal(),
    ensures
        stage.step(outcome, context) == stage,
        stage.awaits() == Action::Finish,
{
}

/// A write is asked for only after a fetch that went well: the stage that
/// asks for it comes from `Fetched` alone, and that from `Parsed` on a fetch
/// with contents.
pub proof fn lemma_write_follows_fetch(
    stage: Stage,
    outcome: Outcome,
    context: Map<Seq<char>, Seq<char>>,
)
    requires
        stage.step(outcome, context).awaits() == Action::Write,
    ensures
        stage is Fetched || stage is Substituted,
        stage is Substituted ==> stage.step(outcome, context) == stage,
{
}

impl FetchTask {
    /// The task for the file specifier `file`.
    pub fn new(file: String) -> (r: FetchTask)
        ensures
            r@ == (Stage::Pending { file: file@ }),
    {
        FetchTask::Pending { file }
    }

    /// What the caller is to do next.
    pub fn awaits(&self) -> (r: Action)
        ensures
            r == self@.awaits(),
    {
        match self {
            FetchTask::Pending { .. } => Action::Proceed,
            FetchTask::Parsed { .. } => Action::Fetch,
            FetchTask::Fetched { .. } => Action::Proceed,
            FetchTask::Substituted { .. } => Action::Write,
            FetchTask::Written { .. } => Action::Finish,
            FetchTask::Failed { .. } => Action::Finish,
        }
    }

    /// Whether the task is done.
    pub fn is_terminal(&self) -> (r: bool)
        ensures
            r == self@.is_terminal(),
    {
        match self {
            FetchTask::Written { .. } => true,
            FetchTask::Failed { .. } => true,
            _ => false,
        }
    }

    /// The task after `event`, with the variables `context`.
    pub fn step(self, event: Event, context: &Context) -> (r: FetchTask)
        ensures
            r@ == self@.step(event@, context@),
    {
        match (self, event) {
            (FetchTask::Pending { file }, Event::Proceed) => {
                match parse_file_name(file.as_str()) {
                    Ok((path, locator)) => FetchTask::Parsed {
                        path: substitute(Grammar::Path, path, context),
                        locator,
                    },
                    Err(e) => FetchTask::Failed {
                        kind: FailureKind::Locate(e.part),
                        detail: e.detail,
                    },
                }
            },
            (FetchTask::Parsed { path, locator }, Event::Fetched(Ok(contents))) => {
                FetchTask::Fetched { path, contents }
            },
            (FetchTask::Parsed { path, locator }, Event::Fetched(Err(detail))) => {
                FetchTask::Failed { kind: FailureKind::Fetch, detail }
            },
            (FetchTask::Fetched { path, contents }, Event::Proceed) => {
                FetchTask::Substituted { path, contents: substitute(Grammar::Content, contents, context) }
            },
            (FetchTask::Substituted { path, contents }, Event::Wrote(Ok(()))) => {
                FetchTask::Written { path }
            },
            (FetchTask::Substituted { path, contents }, Event::Wrote(Err(detail))) => {
                FetchTask::Failed { kind: FailureKind::Write, detail }
            },
            (task, _) => task,
        }
    }
}

} // verus!
