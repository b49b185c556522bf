//! The `status` command: how one desired publication relates to the Serve state.

use crate::declaration::names_find_their_ports;
use crate::failure::Failure;
use crate::outcome::{failed, failure, succeeded, success, Outcome, OutcomeModel};
use crate::project::{
    load_project, loading_step, Loading, LoadingStep, Project, ProjectFacts, ProjectModel,
};
use crate::publishing::{
    ambiguous_serve, desires, select, selection, tailscale_serve_tcp_publications_are_ambiguous,
    TAILSCALE_SERVE_TCP_PUBLISHER,
};
use crate::tailscale_serve_tcp::{
    observation, observe, serve_arguments, serve_query, ProviderState, ServeReply,
};
use crate::text::same_text;
use vstd::prelude::*;

verus! {

/// What is known while a status is determined.
pub struct StatusFacts {
    pub project: ProjectFacts,
    /// What became of querying the Serve state.
    pub serve: Option<ServeReply>,
}

impl StatusFacts {
    /// Nothing is known.
    pub open spec fn unknown() -> StatusFacts {
        StatusFacts {
            project: ProjectFacts::unknown(),
            serve: None,
        }
    }

    /// Nothing is known yet.
    pub fn new() -> (facts: StatusFacts)
        ensures
            facts == Self::unknown(),
    {
        StatusFacts {
            project: ProjectFacts::new(),
            serve: None,
        }
    }
}

/// What to do next to determine a status.
pub enum StatusAction {
    ReadDeclaration,
    ReadPublishing,
    /// Query the Serve state with these arguments.
    QueryServe(Vec<String>),
    Finish(Outcome),
}

/// The mathematical model of an action.
pub enum StatusStep {
    ReadDeclaration,
    ReadPublishing,
    QueryServe(Seq<Seq<char>>),
    Finish(OutcomeModel),
}

impl View for StatusAction {
    type V = StatusStep;

    open spec fn view(&self) -> StatusStep {
        match self {
            StatusAction::ReadDeclaration => StatusStep::ReadDeclaration,
            StatusAction::ReadPublishing => StatusStep::ReadPublishing,
            StatusAction::QueryServe(arguments) => StatusStep::QueryServe(arguments.deep_view()),
            StatusAction::Finish(outcome) => StatusStep::Finish(outcome@),
        }
    }
}

/// The word for a state.
pub open spec fn relation(state: ProviderState) -> Seq<char> {
    match state {
        ProviderState::Absent => "absent"@,
        ProviderState::AlreadySatisfied => "satisfied"@,
        ProviderState::Conflict => "conflict"@,
        ProviderState::Indeterminate => "indeterminate"@,
    }
}

/// What is reported of an observed state.
pub open spec fn status_line(
    service: Seq<char>,
    publisher: Seq<char>,
    state: ProviderState,
) -> Seq<char> {
    "Publication status for "@ + service + " via "@ + publisher + ": "@ + relation(state)
}

/// The outcome of an observation.
pub open spec fn observed_outcome(
    observed: Result<ProviderState, Failure>,
    service: Seq<char>,
    publisher: Seq<char>,
) -> OutcomeModel {
    match observed {
        Ok(state) => succeeded(status_line(service, publisher, state)),
        Err(failure) => failed(failure),
    }
}

/// Reports an observation.
pub fn report_observation(
    observed: Result<ProviderState, Failure>,
    service: &str,
    publisher: &str,
) -> (outcome: Outcome)
    ensures
        outcome@ == observed_outcome(observed, service@, publisher@),
{
    let state = match observed {
        Ok(state) => state,
        Err(reason) => {
            return failure(reason);
        },
    };
    let word = match state {
        ProviderState::Absent => "absent",
        ProviderState::AlreadySatisfied => "satisfied",
        ProviderState::Conflict => "conflict",
        ProviderState::Indeterminate => "indeterminate",
    };
    let mut line = "Publication status for ".to_owned();
    line.append(service);
    line.append(" via ");
    line.append(publisher);
    line.append(": ");
    line.append(word);
    success(line)
}

/// The port to observe for a selected publication, or why it has no status.
pub open spec fn status_port(
    project: ProjectModel,
    service: Seq<char>,
    publisher: Seq<char>,
) -> Result<u16, Failure> {
    match selection(project.services, project.publications, service, publisher) {
        Err(failure) => Err(failure),
        Ok(port) => if publisher != TAILSCALE_SERVE_TCP_PUBLISHER@ {
            Err(Failure::PublisherUnsupported)
        } else if ambiguous_serve(project.services, project.publications) {
            Err(Failure::ServeSlotsConflict)
        } else {
            Ok(port)
        },
    }
}

/// Selects the port to observe.
pub fn select_status(project: &Project, service: &str, publisher: &str) -> (port: Result<
    u16,
    Failure,
>)
    ensures
        port == status_port(project@, service@, publisher@),
{
    match select(&project.declaration, &project.publishing_intent, service, publisher) {
        Err(failure) => Err(failure),
        Ok(port) => if !same_text(publisher, TAILSCALE_SERVE_TCP_PUBLISHER) {
            Err(Failure::PublisherUnsupported)
        } else if tailscale_serve_tcp_publications_are_ambiguous(
            &project.declaration,
            &project.publishing_intent,
        ) {
            Err(Failure::ServeSlotsConflict)
        } else {
            Ok(port)
        },
    }
}

/// What to do next to determine a status.
pub open spec fn status_step(
    facts: StatusFacts,
    service: Seq<char>,
    publisher: Seq<char>,
) -> StatusStep {
    match loading_step(facts.project) {
        LoadingStep::ReadDeclaration => StatusStep::ReadDeclaration,
        LoadingStep::ReadPublishing => StatusStep::ReadPublishing,
        LoadingStep::Failed(failure) => StatusStep::Finish(failed(failure)),
        LoadingStep::Ready(project) => match status_port(project, service, publisher) {
            Err(failure) => StatusStep::Finish(failed(failure)),
            Ok(port) => match facts.serve {
                None => StatusStep::QueryServe(serve_arguments()),
                Some(reply) => StatusStep::Finish(
                    observed_outcome(observation(reply, port), service, publisher),
                ),
            },
        },
    }
}

/// Decides what to do next to determine the status of one desired publication.
pub fn status(facts: &StatusFacts, service: &str, publisher: &str) -> (action: StatusAction)
    ensures
        action@ == status_step(*facts, service@, publisher@),
{
    let project = match load_project(&facts.project) {
        Loading::ReadDeclaration => {
            return StatusAction::ReadDeclaration;
        },
        Loading::ReadPublishing => {
            return StatusAction::ReadPublishing;
        },
        Loading::Failed(reason) => {
            return StatusAction::Finish(failure(reason));
        },
        Loading::Ready(project) => project,
    };
    let port: u16 = match select_status(&project, service, publisher) {
        Ok(port) => port,
        Err(reason) => {
            return StatusAction::Finish(failure(reason));
        },
    };
    match &facts.serve {
        None => StatusAction::QueryServe(serve_query()),
        Some(reply) => StatusAction::Finish(
            report_observation(observe(reply, port), service, publisher),
        ),
    }
}

/// The Serve state is queried only for a selected, desired Serve publication whose port
/// is its own.
pub proof fn status_observes_only_selected_slots(
    facts: StatusFacts,
    service: Seq<char>,
    publisher: Seq<char>,
)
    requires
        status_step(facts, service, publisher) is QueryServe,
    ensures
        publisher == TAILSCALE_SERVE_TCP_PUBLISHER@,
        loading_step(facts.project) matches LoadingStep::Ready(project) && status_port(
            project,
            service,
            publisher,
        ) is Ok,
        facts.serve is None,
{
}

/// Every observed state is a success with one line, and nothing else is.
pub proof fn observed_states_are_successes(
    observed: Result<ProviderState, Failure>,
    service: Seq<char>,
    publisher: Seq<char>,
)
    ensures
        observed_outcome(observed, service, publisher).code == 0 <==> observed is Ok,
        observed is Ok ==> observed_outcome(observed, service, publisher).stdout.len() == 1
            && observed_outcome(observed, service, publisher).stderr.len() == 0,
        observed is Err ==> observed_outcome(observed, service, publisher).stdout.len() == 0
            && observed_outcome(observed, service, publisher).stderr.len() == 1,
{
}

/// The line of a status names the service, the publisher and the relation, one word for each
/// of the four.
pub proof fn status_lines_name_the_relation(service: Seq<char>, publisher: Seq<char>)
    ensures
        status_line(service, publisher, ProviderState::Absent) == "Publication status for "@
            + service + " via "@ + publisher + ": absent"@,
        status_line(service, publisher, ProviderState::AlreadySatisfied)
            == "Publication status for "@ + service + " via "@ + publisher + ": satisfied"@,
        status_line(service, publisher, ProviderState::Conflict) == "Publication status for "@
            + service + " via "@ + publisher + ": conflict"@,
        status_line(service, publisher, ProviderState::Indeterminate) == "Publication status for "@
            + service + " via "@ + publisher + ": indeterminate"@,
{
    reveal_strlit(": ");
    reveal_strlit("absent");
    reveal_strlit("satisfied");
    reveal_strlit("conflict");
    reveal_strlit("indeterminate");
    reveal_strlit(": absent");
    reveal_strlit(": satisfied");
    reveal_strlit(": conflict");
    reveal_strlit(": indeterminate");
    let front = "Publication status for "@ + service + " via "@ + publisher;
    assert(": "@ + "absent"@ =~= ": absent"@);
    assert(": "@ + "satisfied"@ =~= ": satisfied"@);
    assert(": "@ + "conflict"@ =~= ": conflict"@);
    assert(": "@ + "indeterminate"@ =~= ": indeterminate"@);
    assert(status_line(service, publisher, ProviderState::Absent) =~= front + (": "@ + "absent"@));
    assert(status_line(service, publisher, ProviderState::AlreadySatisfied) =~= front + (": "@
        + "satisfied"@));
    assert(status_line(service, publisher, ProviderState::Conflict) =~= front + (": "@
        + "conflict"@));
    assert(status_line(service, publisher, ProviderState::Indeterminate) =~= front + (": "@
        + "indeterminate"@));
}

/// The status of a desired Serve publication is the state that is observed at the port which
/// its own service declares. It is asked for only when the publication is desired, is a Serve
/// publication, and shares its port with no other; every other case is a failure of its own.
pub proof fn status_is_observed_at_the_declared_port(
    facts: StatusFacts,
    project: ProjectModel,
    service: Seq<char>,
    publisher: Seq<char>,
    i: int,
    reply: ServeReply,
)
    requires
        loading_step(facts.project) == LoadingStep::Ready(project),
        0 <= i < project.services.len(),
        project.services[i].name == service,
    ensures
        !desires(project.publications, service, publisher) ==> status_step(
            facts,
            service,
            publisher,
        ) == StatusStep::Finish(failed(Failure::PublicationNotDesired)),
        desires(project.publications, service, publisher) && publisher != "tailscale-serve-tcp"@
            ==> status_step(facts, service, publisher) == StatusStep::Finish(
            failed(Failure::PublisherUnsupported),
        ),
        desires(project.publications, service, publisher) && publisher == "tailscale-serve-tcp"@
            && ambiguous_serve(project.services, project.publications) ==> status_step(
            facts,
            service,
            publisher,
        ) == StatusStep::Finish(failed(Failure::ServeSlotsConflict)),
        desires(project.publications, service, publisher) && publisher == "tailscale-serve-tcp"@
            && !ambiguous_serve(project.services, project.publications) ==> {
            &&& facts.serve is None ==> status_step(facts, service, publisher)
                == StatusStep::QueryServe(seq!["serve"@, "status"@, "--json"@])
            &&& facts.serve == Some(reply) ==> status_step(facts, service, publisher)
                == StatusStep::Finish(
                match observation(reply, project.services[i].port) {
                    Ok(state) => succeeded(status_line(service, publisher, state)),
                    Err(failure) => failed(failure),
                },
            )
        },
{
    names_find_their_ports(project.services, service, i);
}

/// A service that is not declared has no status, and files that cannot be used are reported
/// as they are anywhere else.
pub proof fn status_needs_a_project(
    facts: StatusFacts,
    project: ProjectModel,
    service: Seq<char>,
    publisher: Seq<char>,
    failure: Failure,
)
    ensures
        loading_step(facts.project) == LoadingStep::ReadDeclaration ==> status_step(
            facts,
            service,
            publisher,
        ) == StatusStep::ReadDeclaration,
        loading_step(facts.project) == LoadingStep::ReadPublishing ==> status_step(
            facts,
            service,
            publisher,
        ) == StatusStep::ReadPublishing,
        loading_step(facts.project) == LoadingStep::Failed(failure) ==> status_step(
            facts,
            service,
            publisher,
        ) == StatusStep::Finish(failed(failure)),
        loading_step(facts.project) == LoadingStep::Ready(project) && (forall|k: int|
            0 <= k < project.services.len() ==> (#[trigger] project.services[k]).name != service)
            ==> status_step(facts, service, publisher) == StatusStep::Finish(
            failed(Failure::ServiceNotDeclared),
        ),
{
    if loading_step(facts.project) == LoadingStep::Ready(project) {
        names_find_their_ports(project.services, service, -1);
    }
}

/// The model of what is decided is what is asked for, with its arguments, or the report.
pub proof fn status_is_shown_as_it_is(arguments: Vec<String>, outcome: Outcome)
    ensures
        StatusAction::ReadDeclaration@ == StatusStep::ReadDeclaration,
        StatusAction::ReadPublishing@ == StatusStep::ReadPublishing,
        StatusAction::QueryServe(arguments)@ == StatusStep::QueryServe(arguments.deep_view()),
        StatusAction::Finish(outcome)@ == StatusStep::Finish(outcome@),
{
}

} // verus!
