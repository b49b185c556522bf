//! The commands of the command line.

use crate::outcome::{succeeded, success, Outcome};
use crate::text::{concat2, same_text};
use vstd::prelude::*;

verus! {

/// A command of the command line.
pub enum Command {
    Version,
    Init,
    Validate,
    ValidatePublishing,
    Doctor,
    Apply,
    Publish { service: String, publisher: String },
    Status { service: String, publisher: String },
    /// Anything else.
    Usage,
}

/// The mathematical model of a command.
pub enum CommandModel {
    Version,
    Init,
    Validate,
    ValidatePublishing,
    Doctor,
    Apply,
    Publish { service: Seq<char>, publisher: Seq<char> },
    Status { service: Seq<char>, publisher: Seq<char> },
    Usage,
}

impl View for Command {
    type V = CommandModel;

    open spec fn view(&self) -> CommandModel {
        match self {
            Command::Version => CommandModel::Version,
            Command::Init => CommandModel::Init,
            Command::Validate => CommandModel::Validate,
            Command::ValidatePublishing => CommandModel::ValidatePublishing,
            Command::Doctor => CommandModel::Doctor,
            Command::Apply => CommandModel::Apply,
            Command::Publish { service, publisher } => CommandModel::Publish {
                service: service@,
                publisher: publisher@,
            },
            Command::Status { service, publisher } => CommandModel::Status {
                service: service@,
                publisher: publisher@,
            },
            Command::Usage => CommandModel::Usage,
        }
    }
}

/// The command that the arguments after the program's name stand for.
pub open spec fn command_of(arguments: Seq<Seq<char>>) -> CommandModel {
    if arguments == seq!["version"@] {
        CommandModel::Version
    } else if arguments == seq!["init"@] {
        CommandModel::Init
    } else if arguments == seq!["validate"@] {
        CommandModel::Validate
    } else if arguments == seq!["validate-publishing"@] {
        CommandModel::ValidatePublishing
    } else if arguments == seq!["doctor"@] {
        CommandModel::Doctor
    } else if arguments == seq!["apply"@] {
        CommandModel::Apply
    } else if arguments.len() == 3 && arguments[0] == "publish"@ {
        CommandModel::Publish { service: arguments[1], publisher: arguments[2] }
    } else if arguments.len() == 3 && arguments[0] == "status"@ {
        CommandModel::Status { service: arguments[1], publisher: arguments[2] }
    } else {
        CommandModel::Usage
    }
}

/// Reads the command from the arguments after the program's name.
pub fn parse_command(arguments: &Vec<String>) -> (command: Command)
    ensures
        command@ == command_of(arguments.deep_view()),
{
    let ghost model = arguments.deep_view();
    assert(model.len() == arguments.len());
    if arguments.len() == 1 {
        let word = arguments[0].as_str();
        assert(model =~= seq![word@]);
        assert forall|other: Seq<char>| (model == #[trigger] seq![other]) == (word@ == other) by {
            assert(seq![other][0] == other);
        }
        if same_text(word, "version") {
            Command::Version
        } else if same_text(word, "init") {
            Command::Init
        } else if same_text(word, "validate") {
            Command::Validate
        } else if same_text(word, "validate-publishing") {
            Command::ValidatePublishing
        } else if same_text(word, "doctor") {
            Command::Doctor
        } else if same_text(word, "apply") {
            Command::Apply
        } else {
            Command::Usage
        }
    } else if arguments.len() == 3 {
        assert(model[0] == arguments@[0]@ && model[1] == arguments@[1]@ && model[2]
            == arguments@[2]@);
        let service = arguments[1].clone();
        let publisher = arguments[2].clone();
        if same_text(arguments[0].as_str(), "publish") {
            Command::Publish { service, publisher }
        } else if same_text(arguments[0].as_str(), "status") {
            Command::Status { service, publisher }
        } else {
            Command::Usage
        }
    } else {
        Command::Usage
    }
}

/// Only one or three arguments can be a command, and three only to publish or to show a
/// status.
pub proof fn other_argument_counts_show_usage(arguments: Seq<Seq<char>>)
    ensures
        arguments.len() != 1 && arguments.len() != 3 ==> command_of(arguments)
            == CommandModel::Usage,
        arguments.len() == 3 && arguments[0] != "publish"@ && arguments[0] != "status"@
            ==> command_of(arguments) == CommandModel::Usage,
        arguments.len() == 1 && (arguments[0] == "publish"@ || arguments[0] == "status"@)
            ==> command_of(arguments) == CommandModel::Usage,
{
    reveal_strlit("publish");
    reveal_strlit("status");
    reveal_strlit("version");
    reveal_strlit("init");
    reveal_strlit("validate");
    reveal_strlit("validate-publishing");
    reveal_strlit("doctor");
    reveal_strlit("apply");
    if arguments.len() == 1 && (arguments[0] == "publish"@ || arguments[0] == "status"@) {
        assert("publish"@[0] == 'p' && "status"@[0] == 's');
        assert("version"@[0] == 'v' && "init"@[0] == 'i' && "validate"@[0] == 'v'
            && "validate-publishing"@[0] == 'v' && "doctor"@[0] == 'd' && "apply"@[0] == 'a');
        assert(arguments[0] != "version"@);
    }
}

/// The line that arguments which are no command are answered with. After `validate` it
/// names `version`.
pub open spec fn usage_line(arguments: Seq<Seq<char>>) -> Seq<char> {
    if arguments.len() > 0 && arguments[0] == "validate"@ {
        "Usage: aequimuta version"@
    } else {
        "Usage: aequimuta <command>"@
    }
}

/// The outcome of arguments that are no command.
pub fn usage(arguments: &Vec<String>) -> (outcome: Outcome)
    ensures
        outcome@.stdout == Seq::<Seq<char>>::empty(),
        outcome@.stderr == seq![usage_line(arguments.deep_view())],
        outcome@.code == 2,
{
    let ghost model = arguments.deep_view();
    let line = if arguments.len() > 0 && same_text(arguments[0].as_str(), "validate") {
        "Usage: aequimuta version"
    } else {
        "Usage: aequimuta <command>"
    };
    assert(line@ == usage_line(model)) by {
        assert(model.len() == arguments.len());
        assert(model.len() > 0 ==> model[0] == arguments@[0]@);
    }
    let mut stderr: Vec<String> = Vec::new();
    stderr.push(line.to_owned());
    let outcome = Outcome { stdout: Vec::new(), stderr, code: 2 };
    assert(outcome@.stdout =~= Seq::<Seq<char>>::empty());
    assert(outcome@.stderr =~= seq![usage_line(model)]);
    outcome
}

/// The outcome of asking for the version.
pub fn version(number: &str) -> (outcome: Outcome)
    ensures
        outcome@ == succeeded("Aequimuta "@ + number@),
{
    success(concat2("Aequimuta ", number))
}

/// Each command is one word, but for the two that take a service and a publisher, and
/// those take them in this order. Everything else shows the usage.
pub proof fn words_name_commands(word: Seq<char>, service: Seq<char>, publisher: Seq<char>)
    ensures
        command_of(seq!["version"@]) == CommandModel::Version,
        command_of(seq!["init"@]) == CommandModel::Init,
        command_of(seq!["validate"@]) == CommandModel::Validate,
        command_of(seq!["validate-publishing"@]) == CommandModel::ValidatePublishing,
        command_of(seq!["doctor"@]) == CommandModel::Doctor,
        command_of(seq!["apply"@]) == CommandModel::Apply,
        command_of(seq!["publish"@, service, publisher]) == (CommandModel::Publish {
            service,
            publisher,
        }),
        command_of(seq!["status"@, service, publisher]) == (CommandModel::Status {
            service,
            publisher,
        }),
        command_of(seq![word]) is Usage <==> word != "version"@ && word != "init"@ && word
            != "validate"@ && word != "validate-publishing"@ && word != "doctor"@ && word
            != "apply"@,
        command_of(seq![word, service, publisher]) is Usage <==> word != "publish"@ && word
            != "status"@,
{
    reveal_strlit("version");
    reveal_strlit("init");
    reveal_strlit("validate");
    reveal_strlit("validate-publishing");
    reveal_strlit("doctor");
    reveal_strlit("apply");
    reveal_strlit("publish");
    reveal_strlit("status");
    assert forall|one: Seq<char>, other: Seq<char>| (#[trigger] seq![one] == #[trigger] seq![other])
        == (one == other) by {
        assert(seq![one][0] == one && seq![other][0] == other);
    }
    assert("version"@.len() == 7 && "init"@.len() == 4 && "validate"@.len() == 8
        && "validate-publishing"@.len() == 19 && "doctor"@.len() == 6 && "apply"@.len() == 5);
    assert("publish"@[0] == 'p' && "status"@[0] == 's');
    assert(seq!["publish"@, service, publisher][0] == "publish"@);
    assert(seq!["status"@, service, publisher][0] == "status"@);
    let three = seq![word, service, publisher];
    assert(three[0] == word && three.len() == 3);
    assert(three != seq!["version"@] && three != seq!["init"@] && three != seq!["validate"@]
        && three != seq!["validate-publishing"@] && three != seq!["doctor"@] && three
        != seq!["apply"@]);
}

/// Arguments that are no command are answered with one line of usage. It names `version`
/// after `validate`, and every other time leaves the command open.
pub proof fn usage_follows_the_first_word(arguments: Seq<Seq<char>>)
    ensures
        usage_line(arguments) == "Usage: aequimuta version"@ || usage_line(arguments)
            == "Usage: aequimuta <command>"@,
        usage_line(arguments) == "Usage: aequimuta version"@ <==> arguments.len() > 0
            && arguments[0] == "validate"@,
{
    reveal_strlit("Usage: aequimuta version");
    reveal_strlit("Usage: aequimuta <command>");
    assert("Usage: aequimuta version"@[17] != "Usage: aequimuta <command>"@[17]);
}

/// The model of a command is the command, with its service and its publisher.
pub proof fn commands_are_shown_as_they_are(service: String, publisher: String)
    ensures
        Command::Version@ == CommandModel::Version,
        Command::Init@ == CommandModel::Init,
        Command::Validate@ == CommandModel::Validate,
        Command::ValidatePublishing@ == CommandModel::ValidatePublishing,
        Command::Doctor@ == CommandModel::Doctor,
        Command::Apply@ == CommandModel::Apply,
        Command::Usage@ == CommandModel::Usage,
        (Command::Publish { service, publisher })@ == (CommandModel::Publish {
            service: service@,
            publisher: publisher@,
        }),
        (Command::Status { service, publisher })@ == (CommandModel::Status {
            service: service@,
            publisher: publisher@,
        }),
{
}

} // verus!
