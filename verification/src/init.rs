//! The `init` command: creating an empty declaration.

use crate::outcome::{rejected, rejection, succeeded, success, Outcome, OutcomeModel};
use crate::paths::copy_bytes;
use crate::text::concat2;
use vstd::prelude::*;
use vstd::utf8::encode_utf8;

verus! {

/// The contents of a new declaration file.
pub const INITIAL_DECLARATION: &'static str = "# Aequimuta service declarations\n";

/// What became of creating the declaration file.
pub enum CreateReply {
    Created,
    AlreadyExists,
    /// It could not be created, for the reason that the system gives.
    Failed(String),
}

/// What is known while a project is initialized.
pub struct InitFacts {
    pub created: Option<CreateReply>,
    /// Whether the contents were written, or the reason that the system gives.
    pub written: Option<Result<(), String>>,
}

impl InitFacts {
    /// Nothing is known.
    pub open spec fn unknown() -> InitFacts {
        InitFacts {
            created: None,
            written: None,
        }
    }

    /// Nothing is known yet.
    pub fn new() -> (facts: InitFacts)
        ensures
            facts == Self::unknown(),
    {
        InitFacts {
            created: None,
            written: None,
        }
    }
}

/// What to do next to initialize a project.
pub enum InitAction {
    /// Create the declaration file, which must not exist.
    Create,
    /// Write these contents to the file that was created.
    Write(Vec<u8>),
    Finish(Outcome),
}

/// The mathematical model of an action.
pub enum InitStep {
    Create,
    Write(Seq<u8>),
    Finish(OutcomeModel),
}

impl View for InitAction {
    type V = InitStep;

    open spec fn view(&self) -> InitStep {
        match self {
            InitAction::Create => InitStep::Create,
            InitAction::Write(contents) => InitStep::Write(contents@),
            InitAction::Finish(outcome) => InitStep::Finish(outcome@),
        }
    }
}

/// What to do next to initialize a project.
pub open spec fn init_step(facts: InitFacts) -> InitStep {
    match facts.created {
        None => InitStep::Create,
        Some(CreateReply::AlreadyExists) => InitStep::Finish(
            rejected("error: aequimuta.toml already exists"@),
        ),
        Some(CreateReply::Failed(reason)) => InitStep::Finish(
            rejected("error: failed to create aequimuta.toml: "@ + reason@),
        ),
        Some(CreateReply::Created) => match facts.written {
            None => InitStep::Write(encode_utf8(INITIAL_DECLARATION@)),
            Some(Err(reason)) => InitStep::Finish(
                rejected("error: failed to write aequimuta.toml: "@ + reason@),
            ),
            Some(Ok(_)) => InitStep::Finish(
                succeeded("Initialized Aequimuta project at aequimuta.toml"@),
            ),
        },
    }
}

/// Decides what to do next to initialize a project.
pub fn init(facts: &InitFacts) -> (action: InitAction)
    ensures
        action@ == init_step(*facts),
{
    match &facts.created {
        None => InitAction::Create,
        Some(CreateReply::AlreadyExists) => InitAction::Finish(
            rejection("error: aequimuta.toml already exists".to_owned()),
        ),
        Some(CreateReply::Failed(reason)) => InitAction::Finish(
            rejection(concat2("error: failed to create aequimuta.toml: ", reason.as_str())),
        ),
        Some(CreateReply::Created) => match &facts.written {
            None => InitAction::Write(copy_bytes(INITIAL_DECLARATION.as_bytes())),
            Some(Err(reason)) => InitAction::Finish(
                rejection(concat2("error: failed to write aequimuta.toml: ", reason.as_str())),
            ),
            Some(Ok(_)) => InitAction::Finish(
                success("Initialized Aequimuta project at aequimuta.toml".to_owned()),
            ),
        },
    }
}

/// Nothing is written unless the file was just created.
pub proof fn existing_files_are_not_written(facts: InitFacts)
    requires
        init_step(facts) is Write,
    ensures
        facts.created == Some(CreateReply::Created),
        facts.written is None,
{
}

/// A project is initialized by creating its declaration file and then writing one comment
/// line to it. What goes wrong is reported with the reason that the system gives, and a file
/// that is there already is left alone.
pub proof fn projects_are_initialized_once(facts: InitFacts, reason: String)
    ensures
        facts.created is None ==> init_step(facts) == InitStep::Create,
        facts.created == Some(CreateReply::AlreadyExists) ==> init_step(facts) == InitStep::Finish(
            OutcomeModel {
                stdout: Seq::empty(),
                stderr: seq!["error: aequimuta.toml already exists"@],
                code: 1,
            },
        ),
        facts.created == Some(CreateReply::Failed(reason)) ==> init_step(facts) == InitStep::Finish(
            OutcomeModel {
                stdout: Seq::empty(),
                stderr: seq!["error: failed to create aequimuta.toml: "@ + reason@],
                code: 1,
            },
        ),
        facts.created == Some(CreateReply::Created) && facts.written is None ==> init_step(facts)
            == InitStep::Write(encode_utf8("# Aequimuta service declarations\n"@)),
        facts.created == Some(CreateReply::Created) && facts.written == Some(
            Err::<(), String>(reason),
        ) ==> init_step(facts) == InitStep::Finish(
            OutcomeModel {
                stdout: Seq::empty(),
                stderr: seq!["error: failed to write aequimuta.toml: "@ + reason@],
                code: 1,
            },
        ),
        facts.created == Some(CreateReply::Created) && (facts.written matches Some(Ok(_)))
            ==> init_step(facts) == InitStep::Finish(
            OutcomeModel {
                stdout: seq!["Initialized Aequimuta project at aequimuta.toml"@],
                stderr: Seq::empty(),
                code: 0,
            },
        ),
{
}

/// The model of what is decided is what is asked for, with its bytes, or the report.
pub proof fn initializing_is_shown_as_it_is(contents: Vec<u8>, outcome: Outcome)
    ensures
        InitAction::Create@ == InitStep::Create,
        InitAction::Write(contents)@ == InitStep::Write(contents@),
        InitAction::Finish(outcome)@ == InitStep::Finish(outcome@),
{
}

} // verus!
