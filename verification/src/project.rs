//! Reading the two project files.

use crate::declaration::{
    load_declaration, loaded_declaration, valid_declaration, Declaration, ServiceModel,
};
use crate::document::bytes_of;
use crate::failure::{message, Failure};
use crate::outcome::{failed, failure, succeeded, success, Outcome, OutcomeModel};
use crate::publishing::{
    load_publishing_intent, loaded_intent, valid_intent, PublicationModel, PublishingIntent,
};
use vstd::prelude::*;

verus! {

/// The name of the declaration file.
pub const DECLARATION_PATH: &'static str = "aequimuta.toml";

/// The name of the publishing file.
pub const PUBLISHING_PATH: &'static str = "aequimuta.publish.toml";

/// The name of the file that configures the OpenSSH publications.
pub const CONFIGURATION_PATH: &'static str = "aequimuta.openssh-reverse-tcp.toml";

/// The contents of the project files as far as they were read, `Some(None)` for a file
/// that could not be read.
pub struct ProjectFacts {
    pub declaration: Option<Option<Vec<u8>>>,
    pub publishing: Option<Option<Vec<u8>>>,
}

impl ProjectFacts {
    /// Nothing is known.
    pub open spec fn unknown() -> ProjectFacts {
        ProjectFacts {
            declaration: None,
            publishing: None,
        }
    }

    /// Nothing is known yet.
    pub fn new() -> (facts: ProjectFacts)
        ensures
            facts == Self::unknown(),
    {
        ProjectFacts {
            declaration: None,
            publishing: None,
        }
    }
}

/// A declaration and an intent that is valid for it.
pub struct Project {
    pub declaration: Declaration,
    pub publishing_intent: PublishingIntent,
}

/// The mathematical model of a project.
pub struct ProjectModel {
    pub services: Seq<ServiceModel>,
    pub publications: Seq<PublicationModel>,
}

impl ProjectModel {
    /// What the files of a project were checked for.
    pub open spec fn valid(self) -> bool {
        valid_declaration(self.services) && valid_intent(self.publications, self.services)
    }
}

impl View for Project {
    type V = ProjectModel;

    open spec fn view(&self) -> ProjectModel {
        ProjectModel { services: self.declaration@, publications: self.publishing_intent@ }
    }
}

/// How far the project files are read.
pub enum Loading {
    /// The declaration file is to be read.
    ReadDeclaration,
    /// The publishing file is to be read.
    ReadPublishing,
    /// A file is not as it should be.
    Failed(Failure),
    /// Both files are valid.
    Ready(Project),
}

/// The mathematical model of the loading.
pub enum LoadingStep {
    ReadDeclaration,
    ReadPublishing,
    Failed(Failure),
    Ready(ProjectModel),
}

impl View for Loading {
    type V = LoadingStep;

    open spec fn view(&self) -> LoadingStep {
        match self {
            Loading::ReadDeclaration => LoadingStep::ReadDeclaration,
            Loading::ReadPublishing => LoadingStep::ReadPublishing,
            Loading::Failed(failure) => LoadingStep::Failed(*failure),
            Loading::Ready(project) => LoadingStep::Ready(project@),
        }
    }
}

/// How far the project files are read. The publishing file is read only once the
/// declaration is valid.
pub open spec fn loading_step(facts: ProjectFacts) -> LoadingStep {
    match facts.declaration {
        None => LoadingStep::ReadDeclaration,
        Some(contents) => match loaded_declaration(bytes_of(contents)) {
            Err(failure) => LoadingStep::Failed(failure),
            Ok(services) => match facts.publishing {
                None => LoadingStep::ReadPublishing,
                Some(contents) => match loaded_intent(bytes_of(contents), services) {
                    Err(failure) => LoadingStep::Failed(failure),
                    Ok(publications) => LoadingStep::Ready(
                        ProjectModel { services, publications },
                    ),
                },
            },
        },
    }
}

/// A project is ready only when both of its files are valid.
pub proof fn ready_projects_are_valid(facts: ProjectFacts, project: ProjectModel)
    requires
        loading_step(facts) == LoadingStep::Ready(project),
    ensures
        project.valid(),
{
}

/// Reads the project files as far as their contents are known.
pub fn load_project(facts: &ProjectFacts) -> (loading: Loading)
    ensures
        loading@ == loading_step(*facts),
        loading matches Loading::Ready(project) ==> project@.valid(),
{
    let declaration = match &facts.declaration {
        None => {
            return Loading::ReadDeclaration;
        },
        Some(contents) => match load_declaration(contents) {
            Ok(declaration) => declaration,
            Err(failure) => {
                return Loading::Failed(failure);
            },
        },
    };
    match &facts.publishing {
        None => Loading::ReadPublishing,
        Some(contents) => match load_publishing_intent(contents, &declaration) {
            Ok(publishing_intent) => Loading::Ready(Project { declaration, publishing_intent }),
            Err(failure) => Loading::Failed(failure),
        },
    }
}

/// The outcome of checking a declaration file.
pub open spec fn validation(contents: Option<Seq<u8>>) -> OutcomeModel {
    match loaded_declaration(contents) {
        Ok(_) => succeeded("aequimuta.toml is valid"@),
        Err(failure) => failed(failure),
    }
}

/// Checks a declaration file.
pub fn validate(contents: &Option<Vec<u8>>) -> (outcome: Outcome)
    ensures
        outcome@ == validation(bytes_of(*contents)),
{
    match load_declaration(contents) {
        Ok(_) => success("aequimuta.toml is valid".to_owned()),
        Err(reason) => failure(reason),
    }
}

/// What to do next to check a publishing file.
pub enum ValidateAction {
    ReadDeclaration,
    ReadPublishing,
    Finish(Outcome),
}

/// The mathematical model of an action.
pub enum ValidateStep {
    ReadDeclaration,
    ReadPublishing,
    Finish(OutcomeModel),
}

impl View for ValidateAction {
    type V = ValidateStep;

    open spec fn view(&self) -> ValidateStep {
        match self {
            ValidateAction::ReadDeclaration => ValidateStep::ReadDeclaration,
            ValidateAction::ReadPublishing => ValidateStep::ReadPublishing,
            ValidateAction::Finish(outcome) => ValidateStep::Finish(outcome@),
        }
    }
}

/// What to do next to check a publishing file.
pub open spec fn validate_publishing_step(facts: ProjectFacts) -> ValidateStep {
    match loading_step(facts) {
        LoadingStep::ReadDeclaration => ValidateStep::ReadDeclaration,
        LoadingStep::ReadPublishing => ValidateStep::ReadPublishing,
        LoadingStep::Failed(failure) => ValidateStep::Finish(failed(failure)),
        LoadingStep::Ready(_) => ValidateStep::Finish(succeeded("aequimuta.publish.toml is valid"@)),
    }
}

/// Decides what to do next to check a publishing file.
pub fn validate_publishing(facts: &ProjectFacts) -> (action: ValidateAction)
    ensures
        action@ == validate_publishing_step(*facts),
{
    match load_project(facts) {
        Loading::ReadDeclaration => ValidateAction::ReadDeclaration,
        Loading::ReadPublishing => ValidateAction::ReadPublishing,
        Loading::Failed(reason) => ValidateAction::Finish(failure(reason)),
        Loading::Ready(_) => ValidateAction::Finish(
            success("aequimuta.publish.toml is valid".to_owned()),
        ),
    }
}

/// The declaration is read first, the publishing file only once the declaration is valid,
/// and each of them once. A project is what both of them say.
pub proof fn projects_are_read_in_order(
    declaration: Option<Vec<u8>>,
    publishing: Option<Vec<u8>>,
    later: Option<Option<Vec<u8>>>,
)
    ensures
        loading_step(ProjectFacts { declaration: None, publishing: later })
            == LoadingStep::ReadDeclaration,
        match loaded_declaration(bytes_of(declaration)) {
            Err(failure) => loading_step(
                (ProjectFacts { declaration: Some(declaration), publishing: later }),
            ) == LoadingStep::Failed(failure),
            Ok(services) => {
                &&& loading_step(
                    (ProjectFacts { declaration: Some(declaration), publishing: None }),
                ) == LoadingStep::ReadPublishing
                &&& match loaded_intent(bytes_of(publishing), services) {
                    Err(failure) => loading_step(
                        (ProjectFacts {
                            declaration: Some(declaration),
                            publishing: Some(publishing),
                        }),
                    ) == LoadingStep::Failed(failure),
                    Ok(publications) => loading_step(
                        (ProjectFacts {
                            declaration: Some(declaration),
                            publishing: Some(publishing),
                        }),
                    ) == LoadingStep::Ready(ProjectModel { services, publications }),
                }
            },
        },
{
}

/// The three files of a project have fixed names.
pub proof fn files_have_fixed_names()
    ensures
        DECLARATION_PATH@ == "aequimuta.toml"@,
        PUBLISHING_PATH@ == "aequimuta.publish.toml"@,
        CONFIGURATION_PATH@ == "aequimuta.openssh-reverse-tcp.toml"@,
{
}

/// A file is reported as valid exactly when it is, and with one line that names it.
pub proof fn validation_tells_whether_files_are_valid(
    contents: Option<Seq<u8>>,
    facts: ProjectFacts,
)
    ensures
        validation(contents) == match loaded_declaration(contents) {
            Ok(_) => (OutcomeModel {
                stdout: seq!["aequimuta.toml is valid"@],
                stderr: Seq::empty(),
                code: 0,
            }),
            Err(failure) => (OutcomeModel {
                stdout: Seq::empty(),
                stderr: seq![message(failure)],
                code: 1,
            }),
        },
        validate_publishing_step(facts) == match loading_step(facts) {
            LoadingStep::ReadDeclaration => ValidateStep::ReadDeclaration,
            LoadingStep::ReadPublishing => ValidateStep::ReadPublishing,
            LoadingStep::Failed(failure) => ValidateStep::Finish(
                OutcomeModel { stdout: Seq::empty(), stderr: seq![message(failure)], code: 1 },
            ),
            LoadingStep::Ready(_) => ValidateStep::Finish(
                OutcomeModel {
                    stdout: seq!["aequimuta.publish.toml is valid"@],
                    stderr: Seq::empty(),
                    code: 0,
                },
            ),
        },
{
}

/// The model of a project is that of its declaration and of its intent, and the model of what
/// to do next is that of what is asked for or reported.
pub proof fn projects_are_shown_as_they_are(
    project: Project,
    failure: Failure,
    outcome: Outcome,
)
    ensures
        project@.services == project.declaration@,
        project@.publications == project.publishing_intent@,
        project@.valid() <==> valid_declaration(project.declaration@) && valid_intent(
            project.publishing_intent@,
            project.declaration@,
        ),
        Loading::Ready(project)@ == LoadingStep::Ready(project@),
        Loading::Failed(failure)@ == LoadingStep::Failed(failure),
        Loading::ReadDeclaration@ == LoadingStep::ReadDeclaration,
        Loading::ReadPublishing@ == LoadingStep::ReadPublishing,
        ValidateAction::Finish(outcome)@ == ValidateStep::Finish(outcome@),
        ValidateAction::ReadDeclaration@ == ValidateStep::ReadDeclaration,
        ValidateAction::ReadPublishing@ == ValidateStep::ReadPublishing,
{
}

} // verus!
