//! The `publish` command: carrying out one desired publication.

use crate::declaration::{declared_port_is_unique, last_port, names_find_their_ports};
use crate::document::bytes_of;
use crate::failure::{message, Failure};
use crate::openssh_reverse_tcp::commands::{
    commands_go_to_their_destination, forward_request_model,
    forwards_are_requested_with_these_arguments, gives, ArgumentModel,
};
use crate::openssh_reverse_tcp::configuration::{
    load_and_resolve, loaded_configuration, provider_result, publication_for,
    resolved_publications_are_valid, valid_publication, ProviderModel, ProviderPublication,
};
use crate::openssh_reverse_tcp::processes::MasterActionModel;
use crate::openssh_reverse_tcp::session::{
    backend_comes_first, ensure_openssh_publication, forward_publication_step, forward_step,
    known_path, one_control_path_is_used, ForwardAction, ForwardActionModel, ForwardFacts,
    ForwardStep,
};
use crate::outcome::{failed, failure, succeeded, success, Outcome, OutcomeModel};
use crate::project::{
    load_project, loading_step, Loading, LoadingStep, Project, ProjectFacts, ProjectModel,
};
use crate::publishing::{
    ambiguous_serve, declared_services, desired_services, desires, select, selection,
    service_names, services_desired_from, tailscale_serve_tcp_publications_are_ambiguous,
    two_publishers_are_supported, OPENSSH_REVERSE_TCP_PUBLISHER, TAILSCALE_SERVE_TCP_PUBLISHER,
};
use crate::step::Next;
use crate::tailscale_serve_tcp::{
    ensure_step, ensure_tailscale_publication, ensuring_asks_for_its_port, serve_publication_step,
    EnsureAction, EnsureActionModel, EnsureFacts, EnsureStep,
};
use crate::text::{decimal, same_text, text_result};
use vstd::prelude::*;

verus! {

/// What is known while one publication is carried out.
pub struct CarryFacts {
    /// What is known of its Serve mapping.
    pub serve: EnsureFacts,
    /// What is known of its forward.
    pub forward: ForwardFacts,
}

impl CarryFacts {
    /// Nothing is known.
    pub open spec fn unknown() -> CarryFacts {
        CarryFacts { serve: EnsureFacts::unknown(), forward: ForwardFacts::unknown() }
    }

    /// Nothing is known yet.
    pub fn new() -> (facts: CarryFacts)
        ensures
            facts == Self::unknown(),
    {
        CarryFacts { serve: EnsureFacts::new(), forward: ForwardFacts::new() }
    }
}

/// What to do to carry out one publication.
pub enum CarryAction {
    /// Do this for its Serve mapping.
    Serve(EnsureAction),
    /// Do this for its forward.
    Forward(ForwardAction),
}

/// The mathematical model of an action.
pub enum CarryActionModel {
    Serve(EnsureActionModel),
    Forward(ForwardActionModel),
}

impl View for CarryAction {
    type V = CarryActionModel;

    open spec fn view(&self) -> CarryActionModel {
        match self {
            CarryAction::Serve(action) => CarryActionModel::Serve(action@),
            CarryAction::Forward(action) => CarryActionModel::Forward(action@),
        }
    }
}

/// The mathematical model of what to do next: act, or report a line or a failure.
pub type CarryStep = Next<CarryActionModel, Result<Seq<char>, Failure>>;

/// The mathematical model of what is decided next.
pub open spec fn carry_model(next: Next<CarryAction, Result<String, Failure>>) -> CarryStep {
    match next {
        Next::Act(action) => Next::Act(action@),
        Next::Done(result) => Next::Done(text_result(result)),
    }
}

/// What to do next to carry out a Serve publication.
pub open spec fn carry_serve_step(service: Seq<char>, port: u16, facts: CarryFacts) -> CarryStep {
    match serve_publication_step(service, port, facts.serve) {
        Next::Act(action) => Next::Act(CarryActionModel::Serve(action)),
        Next::Done(result) => Next::Done(result),
    }
}

/// What to do next to carry out an OpenSSH publication whose configuration was looked up.
pub open spec fn carry_forward_step(
    service: Seq<char>,
    port: u16,
    publication: Result<ProviderModel, Failure>,
    facts: CarryFacts,
) -> CarryStep {
    match publication {
        Err(failure) => Next::Done(Err(failure)),
        Ok(publication) => match forward_publication_step(
            service,
            port,
            publication,
            facts.forward,
        ) {
            Next::Act(action) => Next::Act(CarryActionModel::Forward(action)),
            Next::Done(result) => Next::Done(result),
        },
    }
}

/// Decides what to do next to carry out a Serve publication.
pub fn carry_out_serve(service_name: &str, port: u16, facts: &CarryFacts) -> (next: Next<
    CarryAction,
    Result<String, Failure>,
>)
    ensures
        carry_model(next) == carry_serve_step(service_name@, port, *facts),
{
    match ensure_tailscale_publication(service_name, port, &facts.serve) {
        Next::Act(action) => Next::Act(CarryAction::Serve(action)),
        Next::Done(result) => Next::Done(result),
    }
}

/// Decides what to do next to carry out an OpenSSH publication whose configuration was
/// looked up.
pub fn carry_out_forward(
    service_name: &str,
    port: u16,
    publication: &Result<ProviderPublication, Failure>,
    facts: &CarryFacts,
) -> (next: Next<CarryAction, Result<String, Failure>>)
    ensures
        carry_model(next) == carry_forward_step(
            service_name@,
            port,
            provider_result(*publication),
            *facts,
        ),
{
    match publication {
        Err(failure) => Next::Done(Err(*failure)),
        Ok(publication) => match ensure_openssh_publication(
            service_name,
            port,
            publication,
            &facts.forward,
        ) {
            Next::Act(action) => Next::Act(CarryAction::Forward(action)),
            Next::Done(result) => Next::Done(result),
        },
    }
}

/// What is known while a selected publication is carried out.
pub struct PublishFacts {
    pub project: ProjectFacts,
    /// The contents of the provider configuration, `Some(None)` when it could not be
    /// read.
    pub configuration: Option<Option<Vec<u8>>>,
    /// What is known of carrying out the publication.
    pub publication: CarryFacts,
}

impl PublishFacts {
    /// Nothing is known.
    pub open spec fn unknown() -> PublishFacts {
        PublishFacts {
            project: ProjectFacts::unknown(),
            configuration: None,
            publication: CarryFacts::unknown(),
        }
    }

    /// Nothing is known yet.
    pub fn new() -> (facts: PublishFacts)
        ensures
            facts == Self::unknown(),
    {
        PublishFacts {
            project: ProjectFacts::new(),
            configuration: None,
            publication: CarryFacts::new(),
        }
    }
}

/// What to do next to carry out a selected publication.
pub enum PublishAction {
    ReadDeclaration,
    ReadPublishing,
    ReadConfiguration,
    /// Do this to carry out the publication.
    Carry(CarryAction),
    Finish(Outcome),
}

/// The mathematical model of an action.
pub enum PublishStep {
    ReadDeclaration,
    ReadPublishing,
    ReadConfiguration,
    Carry(CarryActionModel),
    Finish(OutcomeModel),
}

impl View for PublishAction {
    type V = PublishStep;

    open spec fn view(&self) -> PublishStep {
        match self {
            PublishAction::ReadDeclaration => PublishStep::ReadDeclaration,
            PublishAction::ReadPublishing => PublishStep::ReadPublishing,
            PublishAction::ReadConfiguration => PublishStep::ReadConfiguration,
            PublishAction::Carry(action) => PublishStep::Carry(action@),
            PublishAction::Finish(outcome) => PublishStep::Finish(outcome@),
        }
    }
}

/// How a selected publication is carried out.
#[derive(Clone, Copy, PartialEq, Eq, Structural, Debug)]
pub enum Route {
    Rejected(Failure),
    Serve(u16),
    Forward(u16),
}

/// How a selected publication is carried out.
pub open spec fn route(project: ProjectModel, service: Seq<char>, publisher: Seq<char>) -> Route {
    match selection(project.services, project.publications, service, publisher) {
        Err(failure) => Route::Rejected(failure),
        Ok(port) => if publisher == TAILSCALE_SERVE_TCP_PUBLISHER@ {
            if ambiguous_serve(project.services, project.publications) {
                Route::Rejected(Failure::ServeSlotsConflict)
            } else {
                Route::Serve(port)
            }
        } else if publisher == OPENSSH_REVERSE_TCP_PUBLISHER@ {
            Route::Forward(port)
        } else {
            Route::Rejected(Failure::PublisherUnsupported)
        },
    }
}

/// Selects one desired publication and how it is carried out.
pub fn select_route(project: &Project, service: &str, publisher: &str) -> (selected: Route)
    ensures
        selected == route(project@, service@, publisher@),
{
    let port: u16 = match select(
        &project.declaration,
        &project.publishing_intent,
        service,
        publisher,
    ) {
        Ok(port) => port,
        Err(failure) => {
            return Route::Rejected(failure);
        },
    };
    if same_text(publisher, TAILSCALE_SERVE_TCP_PUBLISHER) {
        if tailscale_serve_tcp_publications_are_ambiguous(
            &project.declaration,
            &project.publishing_intent,
        ) {
            Route::Rejected(Failure::ServeSlotsConflict)
        } else {
            Route::Serve(port)
        }
    } else if same_text(publisher, OPENSSH_REVERSE_TCP_PUBLISHER) {
        Route::Forward(port)
    } else {
        Route::Rejected(Failure::PublisherUnsupported)
    }
}

/// What to do next to carry out a publication, and how its result is reported.
pub open spec fn reported_step(step: CarryStep) -> PublishStep {
    match step {
        Next::Act(action) => PublishStep::Carry(action),
        Next::Done(Ok(line)) => PublishStep::Finish(succeeded(line)),
        Next::Done(Err(failure)) => PublishStep::Finish(failed(failure)),
    }
}

fn report_carried(next: Next<CarryAction, Result<String, Failure>>) -> (action: PublishAction)
    ensures
        action@ == reported_step(carry_model(next)),
{
    match next {
        Next::Act(action) => PublishAction::Carry(action),
        Next::Done(Ok(line)) => PublishAction::Finish(success(line)),
        Next::Done(Err(reason)) => PublishAction::Finish(failure(reason)),
    }
}

/// What to do next to carry out a publication of a valid project.
pub open spec fn publish_project_step(
    facts: PublishFacts,
    project: ProjectModel,
    service: Seq<char>,
    publisher: Seq<char>,
) -> PublishStep {
    match route(project, service, publisher) {
        Route::Rejected(failure) => PublishStep::Finish(failed(failure)),
        Route::Serve(port) => reported_step(carry_serve_step(service, port, facts.publication)),
        Route::Forward(port) => match facts.configuration {
            None => PublishStep::ReadConfiguration,
            Some(contents) => reported_step(
                carry_forward_step(
                    service,
                    port,
                    publication_for(
                        loaded_configuration(
                            bytes_of(contents),
                            service_names(project.services),
                            desired_services(
                                project.publications,
                                OPENSSH_REVERSE_TCP_PUBLISHER@,
                            ),
                        ),
                        service,
                    ),
                    facts.publication,
                ),
            ),
        },
    }
}

/// What to do next to carry out a publication.
pub open spec fn publish_step(
    facts: PublishFacts,
    service: Seq<char>,
    publisher: Seq<char>,
) -> PublishStep {
    match loading_step(facts.project) {
        LoadingStep::ReadDeclaration => PublishStep::ReadDeclaration,
        LoadingStep::ReadPublishing => PublishStep::ReadPublishing,
        LoadingStep::Failed(failure) => PublishStep::Finish(failed(failure)),
        LoadingStep::Ready(project) => publish_project_step(facts, project, service, publisher),
    }
}

/// Decides what to do next to carry out one desired publication.
pub fn publish(facts: &PublishFacts, service_name: &str, publisher: &str) -> (action: PublishAction)
    ensures
        action@ == publish_step(*facts, service_name@, publisher@),
{
    let project = match load_project(&facts.project) {
        Loading::ReadDeclaration => {
            return PublishAction::ReadDeclaration;
        },
        Loading::ReadPublishing => {
            return PublishAction::ReadPublishing;
        },
        Loading::Failed(reason) => {
            return PublishAction::Finish(failure(reason));
        },
        Loading::Ready(project) => project,
    };
    match select_route(&project, service_name, publisher) {
        Route::Rejected(reason) => PublishAction::Finish(failure(reason)),
        Route::Serve(port) => report_carried(
            carry_out_serve(service_name, port, &facts.publication),
        ),
        Route::Forward(port) => match &facts.configuration {
            None => PublishAction::ReadConfiguration,
            Some(contents) => {
                let declared = declared_services(&project.declaration);
                let desired = services_desired_from(
                    &project.publishing_intent,
                    OPENSSH_REVERSE_TCP_PUBLISHER,
                );
                let publication = load_and_resolve(contents, service_name, &declared, &desired);
                report_carried(
                    carry_out_forward(service_name, port, &publication, &facts.publication),
                )
            },
        },
    }
}

/// Only an exact, desired publication of a valid project is carried out, on the port
/// that its service declares: a Serve publication only when its slot is its own, and an
/// OpenSSH publication only as a valid configuration of its service says.
pub proof fn only_desired_publications_are_carried_out(
    facts: PublishFacts,
    service: Seq<char>,
    publisher: Seq<char>,
    action: CarryActionModel,
)
    requires
        publish_step(facts, service, publisher) == PublishStep::Carry(action),
    ensures
        loading_step(facts.project) matches LoadingStep::Ready(project) && project.valid()
            && desires(project.publications, service, publisher) && match action {
            CarryActionModel::Serve(action) => {
                &&& publisher == TAILSCALE_SERVE_TCP_PUBLISHER@
                &&& !ambiguous_serve(project.services, project.publications)
                &&& last_port(project.services, service) matches Some(port) && ensure_step(
                    facts.publication.serve,
                    port,
                ) == EnsureStep::Act(action)
            },
            CarryActionModel::Forward(action) => {
                &&& publisher == OPENSSH_REVERSE_TCP_PUBLISHER@
                &&& last_port(project.services, service) matches Some(port)
                &&& selected_forward(facts.configuration, project, service) matches Ok(publication)
                    && valid_publication(publication) && publication.service == service
                    && forward_step(facts.publication.forward, port, publication)
                    == ForwardStep::Act(action)
            },
        },
{
    reveal_strlit("openssh-reverse-tcp");
    reveal_strlit("tailscale-serve-tcp");
    let project = loading_step(facts.project)->Ready_0;
    declared_port_is_unique(project.services, service);
    if let Some(contents) = facts.configuration {
        resolved_publications_are_valid(
            bytes_of(contents),
            service_names(project.services),
            desired_services(project.publications, OPENSSH_REVERSE_TCP_PUBLISHER@),
            service,
        );
    }
}

/// The configuration of a forward, once it was read.
pub open spec fn selected_forward(
    configuration: Option<Option<Vec<u8>>>,
    project: ProjectModel,
    service: Seq<char>,
) -> Result<ProviderModel, Failure> {
    publication_for(
        loaded_configuration(
            bytes_of(configuration->0),
            service_names(project.services),
            desired_services(project.publications, OPENSSH_REVERSE_TCP_PUBLISHER@),
        ),
        service,
    )
}

/// The provider configuration is read only for an OpenSSH publication, and only once.
pub proof fn configuration_is_read_only_for_forwards(
    facts: PublishFacts,
    service: Seq<char>,
    publisher: Seq<char>,
)
    requires
        publish_step(facts, service, publisher) is ReadConfiguration,
    ensures
        publisher == OPENSSH_REVERSE_TCP_PUBLISHER@,
        facts.configuration is None,
{
}

/// Whether what is known of a publication shows that it was carried out.
pub open spec fn carried_out(
    facts: CarryFacts,
    publisher: Seq<char>,
    port: u16,
    publication: Result<ProviderModel, Failure>,
) -> bool {
    if publisher == TAILSCALE_SERVE_TCP_PUBLISHER@ {
        ensure_step(facts.serve, port) matches Next::Done(Ok(_))
    } else {
        publication matches Ok(publication) && (forward_step(
            facts.forward,
            port,
            publication,
        ) matches Next::Done(Ok(_)))
    }
}

/// A publication succeeds exactly when it was carried out, and one line says how it
/// ended.
pub proof fn success_means_carried_out(
    facts: PublishFacts,
    service: Seq<char>,
    publisher: Seq<char>,
    outcome: OutcomeModel,
)
    requires
        publish_step(facts, service, publisher) == PublishStep::Finish(outcome),
    ensures
        outcome.code == 0 <==> (loading_step(facts.project) matches LoadingStep::Ready(project) && (
        match route(project, service, publisher) {
            Route::Rejected(_) => false,
            Route::Serve(port) => carried_out(
                facts.publication,
                publisher,
                port,
                Err(Failure::ConfigurationUnresolved),
            ),
            Route::Forward(port) => carried_out(
                facts.publication,
                publisher,
                port,
                selected_forward(facts.configuration, project, service),
            ),
        })),
        outcome.code == 0 || outcome.code == 1,
        outcome.stdout.len() + outcome.stderr.len() == 1,
{
    reveal_strlit("openssh-reverse-tcp");
    reveal_strlit("tailscale-serve-tcp");
}

/// A selected publication is carried out by its publisher, on the port that its own service
/// declares. What is not desired, not supported or not unambiguous is refused as that.
pub proof fn publications_are_routed_by_their_publisher(
    project: ProjectModel,
    service: Seq<char>,
    publisher: Seq<char>,
    i: int,
)
    requires
        project.valid(),
    ensures
        (forall|k: int| 0 <= k < project.services.len() ==> (#[trigger] project.services[k]).name
            != service) ==> route(project, service, publisher) == Route::Rejected(
            Failure::ServiceNotDeclared,
        ),
        0 <= i < project.services.len() && project.services[i].name == service ==> route(
            project,
            service,
            publisher,
        ) == if !desires(project.publications, service, publisher) {
            Route::Rejected(Failure::PublicationNotDesired)
        } else if publisher == "openssh-reverse-tcp"@ {
            Route::Forward(project.services[i].port)
        } else if publisher != "tailscale-serve-tcp"@ {
            Route::Rejected(Failure::PublisherUnsupported)
        } else if ambiguous_serve(project.services, project.publications) {
            Route::Rejected(Failure::ServeSlotsConflict)
        } else {
            Route::Serve(project.services[i].port)
        },
{
    two_publishers_are_supported(publisher);
    names_find_their_ports(project.services, service, i);
}

/// A Serve publication is carried out as its own mapping, and a forward as its own forward:
/// with the service and the port given, and with what is known of it.
pub proof fn publications_are_carried_out_as_themselves(
    service: Seq<char>,
    port: u16,
    publication: ProviderModel,
    facts: CarryFacts,
    failure: Failure,
)
    ensures
        match serve_publication_step(service, port, facts.serve) {
            Next::Act(action) => carry_serve_step(service, port, facts) == CarryStep::Act(
                CarryActionModel::Serve(action),
            ),
            Next::Done(result) => carry_serve_step(service, port, facts) == CarryStep::Done(result),
        },
        match forward_publication_step(service, port, publication, facts.forward) {
            Next::Act(action) => carry_forward_step(service, port, Ok(publication), facts)
                == CarryStep::Act(CarryActionModel::Forward(action)),
            Next::Done(result) => carry_forward_step(service, port, Ok(publication), facts)
                == CarryStep::Done(result),
        },
        carry_forward_step(service, port, Err(failure), facts) == CarryStep::Done(Err(failure)),
{
}

/// A publication that was carried out is reported with its line and exit code zero, one that
/// failed with the message of its failure and exit code one.
pub proof fn publications_are_reported(
    action: CarryActionModel,
    line: Seq<char>,
    failure: Failure,
)
    ensures
        reported_step(Next::Act(action)) == PublishStep::Carry(action),
        reported_step(Next::Done(Ok(line))) == PublishStep::Finish(
            OutcomeModel { stdout: seq![line], stderr: Seq::empty(), code: 0 },
        ),
        reported_step(Next::Done(Err(failure))) == PublishStep::Finish(
            OutcomeModel { stdout: Seq::empty(), stderr: seq![message(failure)], code: 1 },
        ),
{
}

/// Publishing follows the route of the selected publication in a loaded project. A Serve
/// publication needs no provider configuration; a forward is looked up, by its service, in the
/// configuration that resolves every forward of the project.
pub proof fn publishing_follows_the_route(
    facts: PublishFacts,
    project: ProjectModel,
    service: Seq<char>,
    publisher: Seq<char>,
    contents: Option<Vec<u8>>,
    failure: Failure,
)
    ensures
        loading_step(facts.project) == LoadingStep::ReadDeclaration ==> publish_step(
            facts,
            service,
            publisher,
        ) == PublishStep::ReadDeclaration,
        loading_step(facts.project) == LoadingStep::ReadPublishing ==> publish_step(
            facts,
            service,
            publisher,
        ) == PublishStep::ReadPublishing,
        loading_step(facts.project) == LoadingStep::Failed(failure) ==> publish_step(
            facts,
            service,
            publisher,
        ) == reported_step(Next::Done(Err(failure))),
        loading_step(facts.project) == LoadingStep::Ready(project) ==> match route(
            project,
            service,
            publisher,
        ) {
            Route::Rejected(reason) => publish_step(facts, service, publisher) == reported_step(
                Next::Done(Err(reason)),
            ),
            Route::Serve(port) => publish_step(facts, service, publisher) == reported_step(
                carry_serve_step(service, port, facts.publication),
            ),
            Route::Forward(port) => {
                &&& facts.configuration is None ==> publish_step(facts, service, publisher)
                    == PublishStep::ReadConfiguration
                &&& facts.configuration == Some(contents) ==> publish_step(
                    facts,
                    service,
                    publisher,
                ) == reported_step(
                    carry_forward_step(
                        service,
                        port,
                        publication_for(
                            loaded_configuration(
                                bytes_of(contents),
                                service_names(project.services),
                                desired_services(project.publications, "openssh-reverse-tcp"@),
                            ),
                            service,
                        ),
                        facts.publication,
                    ),
                )
            },
        },
{
}

/// The model of what is decided is what is asked for, or the report.
pub proof fn publishing_is_shown_as_it_is(
    serve: EnsureAction,
    forward: ForwardAction,
    action: CarryAction,
    line: String,
    failure: Failure,
    outcome: Outcome,
)
    ensures
        CarryAction::Serve(serve)@ == CarryActionModel::Serve(serve@),
        CarryAction::Forward(forward)@ == CarryActionModel::Forward(forward@),
        carry_model(Next::Act(action)) == CarryStep::Act(action@),
        carry_model(Next::Done(Ok(line))) == CarryStep::Done(Ok(line@)),
        carry_model(Next::Done(Err(failure))) == CarryStep::Done(Err(failure)),
        PublishAction::ReadDeclaration@ == PublishStep::ReadDeclaration,
        PublishAction::ReadPublishing@ == PublishStep::ReadPublishing,
        PublishAction::ReadConfiguration@ == PublishStep::ReadConfiguration,
        PublishAction::Carry(action)@ == PublishStep::Carry(action@),
        PublishAction::Finish(outcome)@ == PublishStep::Finish(outcome@),
{
}

/// Whatever publishing asks for is about the selected publication: a mapping is created from
/// the port that the service declares to the same local port, and a control master is started
/// for, and a forward requested of, the user, host and SSH port that are configured for the
/// service, with the configured listener and the local port that the service declares.
pub proof fn publishing_is_about_the_selected_service(
    facts: PublishFacts,
    project: ProjectModel,
    service: Seq<char>,
    publisher: Seq<char>,
    i: int,
    action: CarryActionModel,
)
    requires
        loading_step(facts.project) == LoadingStep::Ready(project),
        0 <= i < project.services.len(),
        project.services[i].name == service,
        publish_step(facts, service, publisher) == PublishStep::Carry(action),
    ensures
        ({
            let port = project.services[i].port;
            match action {
                CarryActionModel::Serve(EnsureActionModel::CreateMapping(arguments)) => arguments
                    == seq![
                    "serve"@,
                    "--bg"@,
                    "--tcp="@ + decimal(port as nat),
                    "tcp://127.0.0.1:"@ + decimal(port as nat),
                ],
                CarryActionModel::Serve(EnsureActionModel::Connect(local)) => local == port,
                CarryActionModel::Serve(_) => true,
                CarryActionModel::Forward(forward) => {
                    &&& selected_forward(facts.configuration, project, service) matches Ok(
                        publication,
                    )
                    &&& publication.service == service
                    &&& match forward {
                        ForwardActionModel::Connect(local) => local == port,
                        ForwardActionModel::Master(MasterActionModel::Spawn(arguments)) => goes_to(
                            arguments,
                            publication,
                        ),
                        ForwardActionModel::CheckMaster(command) => goes_to(
                            command.arguments,
                            publication,
                        ),
                        ForwardActionModel::RequestForward(command) => goes_to(
                            command.arguments,
                            publication,
                        ) && gives(
                            command.arguments,
                            "-R"@,
                            ArgumentModel::Text(
                                publication.listen_address + ":"@ + decimal(
                                    publication.listen_port as nat,
                                ) + ":127.0.0.1:"@ + decimal(port as nat),
                            ),
                        ),
                        _ => true,
                    }
                },
            }
        }),
{
    let port = project.services[i].port;
    names_find_their_ports(project.services, service, i);
    only_desired_publications_are_carried_out(facts, service, publisher, action);
    match action {
        CarryActionModel::Serve(_) => {
            ensuring_asks_for_its_port(facts.publication.serve, port);
        },
        CarryActionModel::Forward(forward) => {
            let publication = selected_forward(facts.configuration, project, service)->Ok_0;
            one_control_path_is_used(facts.publication.forward, port, publication);
            backend_comes_first(facts.publication.forward, port, publication);
            if let Some(path) = known_path(facts.publication.forward, publication) {
                commands_go_to_their_destination(path, publication, port);
                forwards_are_requested_with_these_arguments(path, publication, port);
                let request = forward_request_model(path, publication, port).arguments;
                assert(gives(request, "-R"@, request[16]));
            }
        },
    }
}

/// Whether arguments go to the user, host and SSH port of a publication.
pub open spec fn goes_to(arguments: Seq<ArgumentModel>, publication: ProviderModel) -> bool {
    &&& gives(arguments, "-l"@, ArgumentModel::Text(publication.user))
    &&& gives(arguments, "-p"@, ArgumentModel::Text(decimal(publication.ssh_port as nat)))
    &&& gives(arguments, "-o"@, ArgumentModel::Text("HostName="@ + publication.host))
}

} // verus!
