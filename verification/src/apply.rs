//! The `apply` command: carrying out every desired publication.

use crate::declaration::{
    declared_port, declared_port_is_unique, last_port, names_find_their_ports, ServiceModel,
};
use crate::document::bytes_of;
use crate::failure::{apply_error, contextual_apply_error, detail, message, Failure};
use crate::openssh_reverse_tcp::configuration::{
    configuration_result, load_and_resolve_desired, loaded_configuration, publication_for,
    resolved_publications_are_valid, resolved_services_are_configured, valid_publication,
    ProviderConfiguration, ProviderModel,
};
use crate::openssh_reverse_tcp::runtime::{
    asks_unknown, inspect_runtime, inspect_step, inspection_creates_nothing, prepare_step,
    prepared_directories_are_found_again, runtime_steps_make_progress, runtime_unchanged,
    EntryReply, RuntimeAction, RuntimeActionModel, RuntimeFacts,
};
use crate::openssh_reverse_tcp::session::{
    ensured_forwards_are_ensured_again, forward_step, forward_unchanged, ForwardActionModel,
    ForwardStep,
};
use crate::outcome::{failed, failure, succeeded, success, Outcome, OutcomeModel};
use crate::project::{
    load_project, loading_step, Loading, LoadingStep, Project, ProjectFacts, ProjectModel,
};
use crate::publish::{
    carried_out, carry_forward_step, carry_model, carry_out_forward, carry_out_serve,
    carry_serve_step, publish_project_step, reported_step, CarryAction, CarryActionModel,
    CarryFacts, CarryStep, PublishFacts,
};
use crate::publishing::{
    ambiguous_serve, declared_services, desired_services, desired_services_are_declared,
    publisher_is_operationally_supported, service_names, services_desired_from, supported,
    tailscale_serve_tcp_publications_are_ambiguous, two_publishers_are_supported, PublicationModel,
    OPENSSH_REVERSE_TCP_PUBLISHER, TAILSCALE_SERVE_TCP_PUBLISHER,
};
use crate::step::Next;
use crate::tailscale_serve_tcp::{
    endpoint_of, ensure_step, ensured_line, ensured_mappings_are_satisfied_again, inspection,
    mapping_arguments, serve_unchanged, EnsureActionModel, EnsureModel, EnsureStep, ProviderState,
};
use crate::text::{decimal, decimal_text, same_text};
use vstd::prelude::*;

verus! {

/// What is known while the desired publications are carried out.
pub struct ApplyFacts {
    pub project: ProjectFacts,
    /// The contents of the provider configuration, `Some(None)` when it could not be
    /// read.
    pub configuration: Option<Option<Vec<u8>>>,
    /// Whether the local backends accepted a connection, in the order they were asked.
    pub backends: Vec<bool>,
    /// What is known of the runtime directory before anything is carried out.
    pub runtime: RuntimeFacts,
    /// What is known of carrying out the publications, in their order. Nothing is known
    /// of those beyond its end.
    pub publications: Vec<CarryFacts>,
}

impl ApplyFacts {
    /// Nothing is known yet.
    pub fn new() -> (facts: ApplyFacts)
        ensures
            facts.project == ProjectFacts::unknown(),
            facts.configuration is None,
            facts.backends@.len() == 0,
            facts.runtime == RuntimeFacts::unknown(),
            facts.publications@.len() == 0,
    {
        ApplyFacts {
            project: ProjectFacts::new(),
            configuration: None,
            backends: Vec::new(),
            runtime: RuntimeFacts::new(),
            publications: Vec::new(),
        }
    }
}

/// What to do next to carry out the desired publications.
pub enum ApplyAction {
    ReadDeclaration,
    ReadPublishing,
    ReadConfiguration,
    /// Connect to the local backend on this port.
    Connect(u16),
    /// Do this to inspect the runtime directory.
    InspectRuntime(RuntimeAction),
    /// Report the lines of the publications that succeeded, and do this to carry out the
    /// next one in the order.
    Carry(Vec<String>, CarryAction),
    Finish(Outcome),
}

/// The mathematical model of an action.
pub enum ApplyStep {
    ReadDeclaration,
    ReadPublishing,
    ReadConfiguration,
    Connect(u16),
    InspectRuntime(RuntimeActionModel),
    Carry(Seq<Seq<char>>, CarryActionModel),
    Finish(OutcomeModel),
}

impl View for ApplyAction {
    type V = ApplyStep;

    open spec fn view(&self) -> ApplyStep {
        match self {
            ApplyAction::ReadDeclaration => ApplyStep::ReadDeclaration,
            ApplyAction::ReadPublishing => ApplyStep::ReadPublishing,
            ApplyAction::ReadConfiguration => ApplyStep::ReadConfiguration,
            ApplyAction::Connect(port) => ApplyStep::Connect(*port),
            ApplyAction::InspectRuntime(action) => ApplyStep::InspectRuntime(action@),
            ApplyAction::Carry(lines, action) => ApplyStep::Carry(lines.deep_view(), action@),
            ApplyAction::Finish(outcome) => ApplyStep::Finish(outcome@),
        }
    }
}

/// The ports of the desired publications, each once, in the order of first use.
pub open spec fn backend_ports(
    services: Seq<ServiceModel>,
    publications: Seq<PublicationModel>,
) -> Seq<u16>
    decreases publications.len(),
{
    if publications.len() == 0 {
        Seq::empty()
    } else {
        let before = backend_ports(services, publications.drop_last());
        match last_port(services, publications.last().service) {
            Some(port) => if before.contains(port) {
                before
            } else {
                before.push(port)
            },
            None => before,
        }
    }
}

/// Lists the ports of the desired publications, each once.
pub fn distinct_backends(project: &Project) -> (ports: Vec<u16>)
    ensures
        ports@ == backend_ports(project@.services, project@.publications),
{
    let publications = &project.publishing_intent.publications;
    let ghost model = project@.publications;
    let mut ports: Vec<u16> = Vec::new();
    let mut i: usize = 0;
    while i < publications.len()
        invariant
            i <= publications.len(),
            *publications == project.publishing_intent.publications,
            model == project@.publications,
            ports@ == backend_ports(project@.services, model.take(i as int)),
        decreases publications.len() - i,
    {
        assert(model.take(i + 1).drop_last() =~= model.take(i as int));
        assert(model.take(i + 1).last() == publications@[i as int].deep_view());
        if let Some(port) = declared_port(
            &project.declaration,
            publications[i].service.as_str(),
        ) {
            let mut known = false;
            let mut j: usize = 0;
            while j < ports.len()
                invariant
                    j <= ports.len(),
                    known == exists|k: int| 0 <= k < j && ports@[k] == port,
                decreases ports.len() - j,
            {
                if ports[j] == port {
                    known = true;
                }
                j = j + 1;
            }
            assert(known == ports@.contains(port));
            if !known {
                ports.push(port);
            }
        }
        i = i + 1;
    }
    assert(model.take(model.len() as int) =~= model);
    ports
}

/// How many answers in front are positive.
pub open spec fn leading_true(answers: Seq<bool>) -> nat
    decreases answers.len(),
{
    if answers.len() == 0 || !answers[0] {
        0
    } else {
        1 + leading_true(answers.drop_first())
    }
}

/// Counts the positive answers in front.
pub fn count_leading_true(answers: &Vec<bool>) -> (count: usize)
    ensures
        count == leading_true(answers@),
        count <= answers.len(),
{
    let mut count: usize = 0;
    assert(answers@.skip(0) =~= answers@);
    while count < answers.len() && answers[count]
        invariant
            count <= answers.len(),
            leading_true(answers@) == count + leading_true(answers@.skip(count as int)),
        decreases answers.len() - count,
    {
        assert(answers@.skip(count as int).drop_first() =~= answers@.skip(count + 1));
        count = count + 1;
    }
    count
}

proof fn lemma_leading_true(answers: Seq<bool>)
    ensures
        leading_true(answers) <= answers.len(),
        forall|i: int| 0 <= i < leading_true(answers) ==> #[trigger] answers[i],
        leading_true(answers) < answers.len() ==> !answers[leading_true(answers) as int],
    decreases answers.len(),
{
    if answers.len() > 0 && answers[0] {
        let rest = answers.drop_first();
        lemma_leading_true(rest);
        assert forall|i: int| 0 <= i < leading_true(answers) implies #[trigger] answers[i] by {
            if i > 0 {
                assert(rest[i - 1] == answers[i]);
            }
        }
        if leading_true(answers) < answers.len() {
            assert(rest[leading_true(rest) as int] == answers[leading_true(answers) as int]);
        }
    }
}

/// What is wrong with the desired publications taken together.
pub open spec fn rejection(project: ProjectModel) -> Option<Failure> {
    if exists|i: int|
        0 <= i < project.publications.len() && !supported(
            (#[trigger] project.publications[i]).publisher,
        ) {
        Some(Failure::DesiredPublisherUnsupported)
    } else if ambiguous_serve(project.services, project.publications) {
        Some(Failure::ServeSlotsConflict)
    } else {
        None
    }
}

/// Finds what is wrong with the desired publications taken together.
pub fn find_rejection(project: &Project) -> (found: Option<Failure>)
    ensures
        found == rejection(project@),
{
    let publications = &project.publishing_intent.publications;
    let mut i: usize = 0;
    while i < publications.len()
        invariant
            i <= publications.len(),
            *publications == project.publishing_intent.publications,
            forall|k: int|
                0 <= k < i ==> supported((#[trigger] project@.publications[k]).publisher),
        decreases publications.len() - i,
    {
        assert(project@.publications[i as int] == publications@[i as int].deep_view());
        if !publisher_is_operationally_supported(publications[i].publisher.as_str()) {
            return Some(Failure::DesiredPublisherUnsupported);
        }
        i = i + 1;
    }
    if tailscale_serve_tcp_publications_are_ambiguous(
        &project.declaration,
        &project.publishing_intent,
    ) {
        Some(Failure::ServeSlotsConflict)
    } else {
        None
    }
}

/// The services to be published over OpenSSH.
pub open spec fn desired_forwards(project: ProjectModel) -> Seq<Seq<char>> {
    desired_services(project.publications, OPENSSH_REVERSE_TCP_PUBLISHER@)
}

/// What to do next before anything is carried out, while something is unknown or wrong.
pub open spec fn preflight_step(
    facts: ApplyFacts,
    project: ProjectModel,
    configuration: Option<Result<Seq<ProviderModel>, Failure>>,
) -> Option<ApplyStep> {
    let ports = backend_ports(project.services, project.publications);
    let reached = leading_true(facts.backends@);
    let forwards = desired_forwards(project).len() > 0;
    if rejection(project) is Some {
        Some(ApplyStep::Finish(failed(rejection(project)->0)))
    } else if forwards && configuration is None {
        Some(ApplyStep::ReadConfiguration)
    } else if forwards && configuration->0 is Err {
        Some(ApplyStep::Finish(failed(configuration->0->Err_0)))
    } else if reached < ports.len() {
        if reached < facts.backends@.len() {
            Some(ApplyStep::Finish(failed(Failure::BackendUnreachable(ports[reached as int]))))
        } else {
            Some(ApplyStep::Connect(ports[reached as int]))
        }
    } else if forwards {
        match inspect_step(facts.runtime) {
            Next::Act(action) => Some(ApplyStep::InspectRuntime(action)),
            Next::Done(Err(failure)) => Some(ApplyStep::Finish(failed(failure))),
            Next::Done(Ok(_)) => None,
        }
    } else {
        None
    }
}

/// The report of a publication that failed after others succeeded with these lines.
pub open spec fn apply_failure(
    lines: Seq<Seq<char>>,
    publication: PublicationModel,
    failure: Failure,
) -> OutcomeModel {
    OutcomeModel {
        stdout: lines,
        stderr: seq![
            apply_error(publication.service, publication.publisher, message(failure), lines.len()),
        ],
        code: 1,
    }
}

/// The report of publications that all succeeded with these lines.
pub open spec fn apply_success(lines: Seq<Seq<char>>) -> OutcomeModel {
    if lines.len() == 0 {
        succeeded("No desired publications to apply"@)
    } else {
        OutcomeModel {
            stdout: lines.push("Applied "@ + decimal(lines.len()) + " desired publications"@),
            stderr: Seq::empty(),
            code: 0,
        }
    }
}

/// The configuration of a forward.
pub open spec fn forward_of(
    configuration: Option<Result<Seq<ProviderModel>, Failure>>,
    service: Seq<char>,
) -> Result<ProviderModel, Failure> {
    match configuration {
        Some(Ok(publications)) => publication_for(Ok(publications), service),
        _ => Err(Failure::ConfigurationUnresolved),
    }
}

/// What is known of carrying out the publication at a place in the order.
pub open spec fn known_of(publications: Seq<CarryFacts>, i: int) -> CarryFacts {
    if 0 <= i < publications.len() {
        publications[i]
    } else {
        CarryFacts::unknown()
    }
}

/// What to do next to carry out the publication at a place in the order.
pub open spec fn publication_step(
    known: Seq<CarryFacts>,
    project: ProjectModel,
    configuration: Option<Result<Seq<ProviderModel>, Failure>>,
    i: int,
) -> CarryStep {
    let publication = project.publications[i];
    let port = last_port(project.services, publication.service)->0;
    if publication.publisher == TAILSCALE_SERVE_TCP_PUBLISHER@ {
        carry_serve_step(publication.service, port, known_of(known, i))
    } else {
        carry_forward_step(
            publication.service,
            port,
            forward_of(configuration, publication.service),
            known_of(known, i),
        )
    }
}

/// What to do next once everything was found ready and the first `i` publications
/// succeeded with these lines: the others are carried out one by one in their order,
/// until one fails.
pub open spec fn carry_out_step(
    known: Seq<CarryFacts>,
    project: ProjectModel,
    configuration: Option<Result<Seq<ProviderModel>, Failure>>,
    i: int,
    lines: Seq<Seq<char>>,
) -> ApplyStep
    decreases project.publications.len() - i,
{
    if i >= project.publications.len() {
        ApplyStep::Finish(apply_success(lines))
    } else {
        match publication_step(known, project, configuration, i) {
            Next::Act(action) => ApplyStep::Carry(lines, action),
            Next::Done(Ok(line)) => carry_out_step(
                known,
                project,
                configuration,
                i + 1,
                lines.push(line),
            ),
            Next::Done(Err(failure)) => ApplyStep::Finish(
                apply_failure(lines, project.publications[i], failure),
            ),
        }
    }
}

/// What to do next to carry out the publications of a valid project.
pub open spec fn apply_project_step(
    facts: ApplyFacts,
    project: ProjectModel,
    configuration: Option<Result<Seq<ProviderModel>, Failure>>,
) -> ApplyStep {
    match preflight_step(facts, project, configuration) {
        Some(step) => step,
        None => carry_out_step(
            facts.publications@,
            project,
            configuration,
            0,
            Seq::empty(),
        ),
    }
}

/// The configuration that resolves the forwards of a project, once it was read.
pub open spec fn project_configuration(
    contents: Option<Option<Vec<u8>>>,
    project: ProjectModel,
) -> Option<Result<Seq<ProviderModel>, Failure>> {
    match contents {
        None => None,
        Some(contents) => Some(
            loaded_configuration(
                bytes_of(contents),
                service_names(project.services),
                desired_forwards(project),
            ),
        ),
    }
}

/// What to do next to carry out the desired publications.
pub open spec fn apply_step(facts: ApplyFacts) -> ApplyStep {
    match loading_step(facts.project) {
        LoadingStep::ReadDeclaration => ApplyStep::ReadDeclaration,
        LoadingStep::ReadPublishing => ApplyStep::ReadPublishing,
        LoadingStep::Failed(failure) => ApplyStep::Finish(failed(failure)),
        LoadingStep::Ready(project) => apply_project_step(
            facts,
            project,
            project_configuration(facts.configuration, project),
        ),
    }
}

/// The mathematical model of a configuration that may not have been read.
pub open spec fn configuration_option(
    configuration: Option<Result<ProviderConfiguration, Failure>>,
) -> Option<Result<Seq<ProviderModel>, Failure>> {
    match configuration {
        None => None,
        Some(result) => Some(configuration_result(result)),
    }
}

fn preflight(
    facts: &ApplyFacts,
    project: &Project,
    configuration: &Option<Result<ProviderConfiguration, Failure>>,
) -> (action: Option<ApplyAction>)
    ensures
        match action {
            Some(action) => preflight_step(*facts, project@, configuration_option(*configuration))
                == Some(action@),
            None => preflight_step(*facts, project@, configuration_option(*configuration)) is None,
        },
{
    if let Some(reason) = find_rejection(project) {
        return Some(ApplyAction::Finish(failure(reason)));
    }
    let forwards = services_desired_from(
        &project.publishing_intent,
        OPENSSH_REVERSE_TCP_PUBLISHER,
    );
    assert(forwards.deep_view().len() == forwards.len());
    if forwards.len() > 0 {
        match configuration {
            None => {
                return Some(ApplyAction::ReadConfiguration);
            },
            Some(Err(reason)) => {
                return Some(ApplyAction::Finish(failure(*reason)));
            },
            Some(Ok(_)) => {},
        }
    }
    let ports = distinct_backends(project);
    let reached: usize = count_leading_true(&facts.backends);
    if reached < ports.len() {
        if reached < facts.backends.len() {
            return Some(
                ApplyAction::Finish(failure(Failure::BackendUnreachable(ports[reached]))),
            );
        }
        return Some(ApplyAction::Connect(ports[reached]));
    }
    if forwards.len() > 0 {
        match inspect_runtime(&facts.runtime) {
            Next::Act(action) => {
                return Some(ApplyAction::InspectRuntime(action));
            },
            Next::Done(Err(reason)) => {
                return Some(ApplyAction::Finish(failure(reason)));
            },
            Next::Done(Ok(_)) => {},
        }
    }
    None
}

/// Reports a publication that failed after others succeeded with these lines.
fn report_failure(stdout: Vec<String>, service: &str, publisher: &str, reason: Failure) -> (outcome:
    Outcome)
    ensures
        outcome@ == apply_failure(
            stdout.deep_view(),
            (PublicationModel { service: service@, publisher: publisher@ }),
            reason,
        ),
{
    let error = reason.message();
    let line = contextual_apply_error(service, publisher, error.as_str(), stdout.len());
    let ghost text = line@;
    let mut stderr: Vec<String> = Vec::new();
    stderr.push(line);
    let outcome = Outcome { stdout, stderr, code: 1 };
    assert(outcome@.stderr =~= seq![text]);
    outcome
}

/// Reports publications that all succeeded with these lines.
fn report_success(lines: Vec<String>) -> (outcome: Outcome)
    ensures
        outcome@ == apply_success(lines.deep_view()),
{
    if lines.len() == 0 {
        return success("No desired publications to apply".to_owned());
    }
    let mut stdout = lines;
    let ghost before = stdout.deep_view();
    let mut line = "Applied ".to_owned();
    line.append(decimal_text(stdout.len() as u64).as_str());
    line.append(" desired publications");
    let ghost text = line@;
    stdout.push(line);
    let outcome = Outcome { stdout, stderr: Vec::new(), code: 0 };
    assert(outcome@.stdout =~= before.push(text));
    assert(outcome@.stderr =~= Seq::empty());
    outcome
}

/// Decides what to do next to carry out the publication at a place in the order.
fn carry_out_publication(
    known: &Vec<CarryFacts>,
    project: &Project,
    configuration: &Option<Result<ProviderConfiguration, Failure>>,
    i: usize,
) -> (next: Next<CarryAction, Result<String, Failure>>)
    requires
        project@.valid(),
        i < project.publishing_intent.publications.len(),
    ensures
        carry_model(next) == publication_step(
            known@,
            project@,
            configuration_option(*configuration),
            i as int,
        ),
{
    let unknown = CarryFacts::new();
    let facts = if i < known.len() {
        &known[i]
    } else {
        &unknown
    };
    let publication = &project.publishing_intent.publications[i];
    let service = publication.service.as_str();
    assert(project@.publications[i as int] == publication.deep_view());
    proof {
        desired_services_are_declared(project@.publications, project@.services, i as int);
    }
    let port: u16 = match declared_port(&project.declaration, service) {
        Some(port) => port,
        None => {
            return Next::Done(Err(Failure::InvalidPublishing));
        },
    };
    if same_text(publication.publisher.as_str(), TAILSCALE_SERVE_TCP_PUBLISHER) {
        return carry_out_serve(service, port, facts);
    }
    let forward = match configuration {
        Some(Ok(configuration)) => configuration.get(service),
        _ => Err(Failure::ConfigurationUnresolved),
    };
    carry_out_forward(service, port, &forward, facts)
}

/// Decides what to do next once everything was found ready.
fn carry_out(
    known: &Vec<CarryFacts>,
    project: &Project,
    configuration: &Option<Result<ProviderConfiguration, Failure>>,
) -> (action: ApplyAction)
    requires
        project@.valid(),
    ensures
        action@ == carry_out_step(
            known@,
            project@,
            configuration_option(*configuration),
            0,
            Seq::empty(),
        ),
{
    let publications = &project.publishing_intent.publications;
    let ghost resolved = configuration_option(*configuration);
    let mut lines: Vec<String> = Vec::new();
    assert(lines.deep_view() =~= Seq::empty());
    let mut i: usize = 0;
    while i < publications.len()
        invariant
            project@.valid(),
            i <= publications.len(),
            *publications == project.publishing_intent.publications,
            resolved == configuration_option(*configuration),
            carry_out_step(known@, project@, resolved, 0, Seq::empty()) == carry_out_step(
                known@,
                project@,
                resolved,
                i as int,
                lines.deep_view(),
            ),
        decreases publications.len() - i,
    {
        let publication = &publications[i];
        assert(project@.publications[i as int] == publication.deep_view());
        match carry_out_publication(known, project, configuration, i) {
            Next::Act(action) => {
                return ApplyAction::Carry(lines, action);
            },
            Next::Done(Err(reason)) => {
                return ApplyAction::Finish(
                    report_failure(
                        lines,
                        publication.service.as_str(),
                        publication.publisher.as_str(),
                        reason,
                    ),
                );
            },
            Next::Done(Ok(line)) => {
                let ghost before = lines.deep_view();
                let ghost text = line@;
                lines.push(line);
                assert(lines.deep_view() =~= before.push(text));
            },
        }
        i = i + 1;
    }
    ApplyAction::Finish(report_success(lines))
}

/// Decides what to do next to carry out the publications of a valid project, whose
/// provider configuration was resolved if it was read.
pub fn apply_project(
    facts: &ApplyFacts,
    project: &Project,
    configuration: &Option<Result<ProviderConfiguration, Failure>>,
) -> (action: ApplyAction)
    requires
        project@.valid(),
    ensures
        action@ == apply_project_step(*facts, project@, configuration_option(*configuration)),
{
    match preflight(facts, project, configuration) {
        Some(action) => action,
        None => carry_out(&facts.publications, project, configuration),
    }
}

/// Decides what to do next to carry out every desired publication.
pub fn apply(facts: &ApplyFacts) -> (action: ApplyAction)
    ensures
        action@ == apply_step(*facts),
{
    let project = match load_project(&facts.project) {
        Loading::ReadDeclaration => {
            return ApplyAction::ReadDeclaration;
        },
        Loading::ReadPublishing => {
            return ApplyAction::ReadPublishing;
        },
        Loading::Failed(reason) => {
            return ApplyAction::Finish(failure(reason));
        },
        Loading::Ready(project) => project,
    };
    let configuration = match &facts.configuration {
        None => None,
        Some(contents) => {
            let declared = declared_services(&project.declaration);
            let desired = services_desired_from(
                &project.publishing_intent,
                OPENSSH_REVERSE_TCP_PUBLISHER,
            );
            Some(load_and_resolve_desired(contents, &declared, &desired))
        },
    };
    apply_project(facts, &project, &configuration)
}

/// Every port of a desired publication is among the backends to be reached, and none is
/// there twice.
pub proof fn every_backend_is_listed_once(
    services: Seq<ServiceModel>,
    publications: Seq<PublicationModel>,
)
    ensures
        backend_ports(services, publications).no_duplicates(),
        forall|i: int|
            0 <= i < publications.len() && last_port(
                services,
                (#[trigger] publications[i]).service,
            ) is Some ==> backend_ports(services, publications).contains(
                last_port(services, publications[i].service)->0,
            ),
        forall|k: int|
            0 <= k < backend_ports(services, publications).len() ==> exists|i: int|
                0 <= i < publications.len() && last_port(
                    services,
                    (#[trigger] publications[i]).service,
                ) == Some(#[trigger] backend_ports(services, publications)[k]),
    decreases publications.len(),
{
    let ports = backend_ports(services, publications);
    if publications.len() > 0 {
        let shorter = publications.drop_last();
        let before = backend_ports(services, shorter);
        every_backend_is_listed_once(services, shorter);
        assert forall|i: int|
            0 <= i < publications.len() && last_port(
                services,
                (#[trigger] publications[i]).service,
            ) is Some implies ports.contains(last_port(services, publications[i].service)->0) by {
            let port = last_port(services, publications[i].service)->0;
            if i < shorter.len() {
                assert(publications[i] == shorter[i]);
                assert(before.contains(port));
                let k = choose|k: int| 0 <= k < before.len() && before[k] == port;
                assert(ports[k] == port);
            } else if !before.contains(port) {
                assert(ports[before.len() as int] == port);
            }
        }
        assert forall|k: int| 0 <= k < ports.len() implies exists|i: int|
            0 <= i < publications.len() && last_port(
                services,
                (#[trigger] publications[i]).service,
            ) == Some(#[trigger] ports[k]) by {
            if k < before.len() {
                assert(ports[k] == before[k]);
                let i = choose|i: int|
                    0 <= i < shorter.len() && last_port(services, (#[trigger] shorter[i]).service)
                        == Some(before[k]);
                assert(publications[i] == shorter[i]);
            } else {
                assert(publications[publications.len() - 1] == publications.last());
            }
        }
    }
}

/// What was checked before anything is carried out: every publisher is supported, no two
/// Serve publications share a port, every backend was reached, and for forwards the
/// configuration resolves and the runtime directory is safe.
pub open spec fn all_checked(facts: ApplyFacts, project: ProjectModel) -> bool {
    &&& forall|i: int|
        0 <= i < project.publications.len() ==> supported(
            (#[trigger] project.publications[i]).publisher,
        )
    &&& !ambiguous_serve(project.services, project.publications)
    &&& forall|k: int|
        0 <= k < backend_ports(project.services, project.publications).len() ==> k
            < facts.backends@.len() && #[trigger] facts.backends@[k]
    &&& desired_forwards(project).len() > 0 ==> {
        &&& project_configuration(facts.configuration, project) matches Some(Ok(_))
        &&& inspect_step(facts.runtime) matches Next::Done(Ok(_))
    }
}

/// Whether the publication at a place in the order succeeded.
pub open spec fn succeeded_at(facts: ApplyFacts, project: ProjectModel, i: int) -> bool {
    publication_step(
        facts.publications@,
        project,
        project_configuration(facts.configuration, project),
        i,
    ) matches Next::Done(Ok(_))
}

/// The line that reports the publication at a place in the order.
pub open spec fn line_at(facts: ApplyFacts, project: ProjectModel, i: int) -> Seq<char> {
    publication_step(
        facts.publications@,
        project,
        project_configuration(facts.configuration, project),
        i,
    )->Done_0->Ok_0
}

/// The lines that report the publications in front.
pub open spec fn lines_of(facts: ApplyFacts, project: ProjectModel, count: nat) -> Seq<Seq<char>> {
    Seq::new(count, |i: int| line_at(facts, project, i))
}

/// When everything was checked, and only then, the publications are carried out.
proof fn lemma_checked(facts: ApplyFacts, project: ProjectModel)
    ensures
        preflight_step(
            facts,
            project,
            project_configuration(facts.configuration, project),
        ) is None <==> all_checked(facts, project),
{
    lemma_leading_true(facts.backends@);
    let ports = backend_ports(project.services, project.publications);
    let configuration = project_configuration(facts.configuration, project);
    if all_checked(facts, project) {
        assert(rejection(project) is None);
        if leading_true(facts.backends@) < ports.len() {
            assert(facts.backends@[leading_true(facts.backends@) as int]);
        }
    }
    if preflight_step(facts, project, configuration) is None {
        assert forall|i: int| 0 <= i < project.publications.len() implies supported(
            (#[trigger] project.publications[i]).publisher,
        ) by {
            assert(rejection(project) is None);
        }
    }
}

/// The publications that succeeded in front can be passed over.
proof fn lemma_pass_over(facts: ApplyFacts, project: ProjectModel, i: int)
    requires
        0 <= i <= project.publications.len(),
        forall|k: int| 0 <= k < i ==> #[trigger] succeeded_at(facts, project, k),
    ensures
        ({
            let configuration = project_configuration(facts.configuration, project);
            carry_out_step(facts.publications@, project, configuration, 0, Seq::empty())
                == carry_out_step(
                facts.publications@,
                project,
                configuration,
                i,
                lines_of(facts, project, i as nat),
            )
        }),
    decreases i,
{
    if i > 0 {
        lemma_pass_over(facts, project, i - 1);
        assert(succeeded_at(facts, project, i - 1));
        assert(lines_of(facts, project, (i - 1) as nat).push(line_at(facts, project, i - 1))
            =~= lines_of(facts, project, i as nat));
    } else {
        assert(lines_of(facts, project, 0) =~= Seq::empty());
    }
}

/// The place in the order that is reached: all before it succeeded, and it did not.
pub open spec fn reached(facts: ApplyFacts, project: ProjectModel, i: int) -> bool {
    &&& 0 <= i <= project.publications.len()
    &&& forall|k: int| 0 <= k < i ==> #[trigger] succeeded_at(facts, project, k)
    &&& i < project.publications.len() ==> !succeeded_at(facts, project, i)
}

proof fn lemma_some_place_is_reached(facts: ApplyFacts, project: ProjectModel, i: int) -> (place:
    int)
    requires
        0 <= i <= project.publications.len(),
        forall|k: int| 0 <= k < i ==> #[trigger] succeeded_at(facts, project, k),
    ensures
        reached(facts, project, place),
    decreases project.publications.len() - i,
{
    if i < project.publications.len() && succeeded_at(facts, project, i) {
        lemma_some_place_is_reached(facts, project, i + 1)
    } else {
        i
    }
}

/// Once everything was checked, what is done next is about the first publication in the
/// order that did not succeed yet. It is carried out further, or its failure ends the
/// command: that reports what succeeded before, and nothing after it is carried out. When
/// there is none, all succeeded and are reported.
pub proof fn publications_are_carried_out_in_order(
    facts: ApplyFacts,
    project: ProjectModel,
    i: int,
)
    requires
        loading_step(facts.project) == LoadingStep::Ready(project),
        all_checked(facts, project),
        reached(facts, project, i),
    ensures
        i == project.publications.len() ==> apply_step(facts) == ApplyStep::Finish(
            apply_success(lines_of(facts, project, i as nat)),
        ),
        i < project.publications.len() ==> match publication_step(
            facts.publications@,
            project,
            project_configuration(facts.configuration, project),
            i,
        ) {
            Next::Act(action) => apply_step(facts) == ApplyStep::Carry(
                lines_of(facts, project, i as nat),
                action,
            ),
            Next::Done(Err(failure)) => apply_step(facts) == ApplyStep::Finish(
                apply_failure(
                    lines_of(facts, project, i as nat),
                    project.publications[i],
                    failure,
                ),
            ),
            Next::Done(Ok(_)) => false,
        },
{
    lemma_checked(facts, project);
    lemma_pass_over(facts, project, i);
}

/// Nothing is carried out before everything was checked, nor before every publication
/// that comes first in the order succeeded.
pub proof fn nothing_is_carried_out_unchecked(
    facts: ApplyFacts,
    lines: Seq<Seq<char>>,
    action: CarryActionModel,
)
    requires
        apply_step(facts) == ApplyStep::Carry(lines, action),
    ensures
        loading_step(facts.project) matches LoadingStep::Ready(project) && {
            &&& project.valid()
            &&& all_checked(facts, project)
            &&& lines.len() < project.publications.len()
            &&& reached(facts, project, lines.len() as int)
            &&& lines == lines_of(facts, project, lines.len())
        },
{
    let project = loading_step(facts.project)->Ready_0;
    lemma_checked(facts, project);
    let place = lemma_some_place_is_reached(facts, project, 0);
    publications_are_carried_out_in_order(facts, project, place);
}

/// The command succeeds exactly when every check passed and every publication
/// succeeded.
pub proof fn success_means_all_succeeded(
    facts: ApplyFacts,
    project: ProjectModel,
    outcome: OutcomeModel,
)
    requires
        loading_step(facts.project) == LoadingStep::Ready(project),
        apply_step(facts) == ApplyStep::Finish(outcome),
    ensures
        outcome.code == 0 <==> {
            &&& all_checked(facts, project)
            &&& forall|i: int|
                0 <= i < project.publications.len() ==> #[trigger] succeeded_at(facts, project, i)
        },
        outcome.code == 0 || outcome.code == 1,
{
    lemma_checked(facts, project);
    if all_checked(facts, project) {
        let place = lemma_some_place_is_reached(facts, project, 0);
        publications_are_carried_out_in_order(facts, project, place);
    }
}

/// When the command succeeds, every Serve publication was found or created and observed
/// in its slot, and every forward was acknowledged.
pub proof fn success_means_all_carried_out(
    facts: ApplyFacts,
    project: ProjectModel,
    outcome: OutcomeModel,
    i: int,
)
    requires
        loading_step(facts.project) == LoadingStep::Ready(project),
        apply_step(facts) == ApplyStep::Finish(outcome),
        outcome.code == 0,
        0 <= i < project.publications.len(),
    ensures
        ({
            let publication = project.publications[i];
            carried_out(
                facts.publications@[i],
                publication.publisher,
                last_port(project.services, publication.service)->0,
                forward_of(
                    project_configuration(facts.configuration, project),
                    publication.service,
                ),
            )
        }),
        i < facts.publications@.len(),
        last_port(project.services, project.publications[i].service) is Some,
{
    success_means_all_succeeded(facts, project, outcome);
    desired_services_are_declared(project.publications, project.services, i);
    assert(succeeded_at(facts, project, i));
}

/// A service that is to be forwarded is among the services that the configuration was
/// resolved for.
proof fn lemma_forward_is_desired(publications: Seq<PublicationModel>, i: int)
    requires
        0 <= i < publications.len(),
        publications[i].publisher == OPENSSH_REVERSE_TCP_PUBLISHER@,
    ensures
        desired_services(publications, OPENSSH_REVERSE_TCP_PUBLISHER@).contains(
            publications[i].service,
        ),
    decreases publications.len(),
{
    let desired = desired_services(publications, OPENSSH_REVERSE_TCP_PUBLISHER@);
    if i < publications.len() - 1 {
        let shorter = publications.drop_last();
        let before = desired_services(shorter, OPENSSH_REVERSE_TCP_PUBLISHER@);
        lemma_forward_is_desired(shorter, i);
        let k = choose|k: int| 0 <= k < before.len() && before[k] == shorter[i].service;
        assert(desired[k] == before[k]);
    } else {
        assert(desired.last() == publications[i].service);
    }
}

/// Once everything was checked, no publication fails for want of a configuration.
pub proof fn checked_forwards_are_configured(facts: ApplyFacts, project: ProjectModel, i: int)
    requires
        all_checked(facts, project),
        0 <= i < project.publications.len(),
        project.publications[i].publisher == OPENSSH_REVERSE_TCP_PUBLISHER@,
    ensures
        forward_of(
            project_configuration(facts.configuration, project),
            project.publications[i].service,
        ) is Ok,
{
    lemma_forward_is_desired(project.publications, i);
    let desired = desired_forwards(project);
    let k = choose|k: int| 0 <= k < desired.len() && desired[k] == project.publications[i].service;
    assert(desired.len() > 0);
    let configuration = project_configuration(facts.configuration, project)->0->Ok_0;
    resolved_services_are_configured(configuration, desired, k);
}

/// What `apply` does for a publication is what `publish` does for it, given the same
/// facts: they carry it out alike, and they succeed and fail alike.
pub proof fn apply_and_publish_agree(
    facts: ApplyFacts,
    publish_facts: PublishFacts,
    project: ProjectModel,
    i: int,
)
    requires
        project.valid(),
        all_checked(facts, project),
        0 <= i < project.publications.len(),
        publish_facts.configuration == facts.configuration,
        publish_facts.publication == known_of(facts.publications@, i),
    ensures
        publish_project_step(
            publish_facts,
            project,
            project.publications[i].service,
            project.publications[i].publisher,
        ) == reported_step(
            publication_step(
                facts.publications@,
                project,
                project_configuration(facts.configuration, project),
                i,
            ),
        ),
{
    reveal_strlit("openssh-reverse-tcp");
    reveal_strlit("tailscale-serve-tcp");
    let publication = project.publications[i];
    desired_services_are_declared(project.publications, project.services, i);
    declared_port_is_unique(project.services, publication.service);
    assert(supported(publication.publisher));
    assert(project.publications.contains(publication));
    assert(publication == (PublicationModel {
        service: publication.service,
        publisher: publication.publisher,
    }));
    if publication.publisher == OPENSSH_REVERSE_TCP_PUBLISHER@ {
        lemma_forward_is_desired(project.publications, i);
        assert(desired_forwards(project).len() > 0);
    }
}

/// Every action asks for something that is not known yet, or carries out the publication
/// that is reached.
pub proof fn applying_makes_progress(facts: ApplyFacts)
    ensures
        match apply_step(facts) {
            ApplyStep::ReadDeclaration => facts.project.declaration is None,
            ApplyStep::ReadPublishing => facts.project.publishing is None,
            ApplyStep::ReadConfiguration => facts.configuration is None,
            ApplyStep::Connect(port) => loading_step(facts.project) matches LoadingStep::Ready(
                project,
            ) && facts.backends@.len() < backend_ports(
                project.services,
                project.publications,
            ).len() && port == backend_ports(
                project.services,
                project.publications,
            )[facts.backends@.len() as int],
            ApplyStep::InspectRuntime(action) => asks_unknown(facts.runtime, Next::Act(action))
                && !(action is Create),
            ApplyStep::Carry(lines, action) => loading_step(
                facts.project,
            ) matches LoadingStep::Ready(project) && reached(facts, project, lines.len() as int),
            ApplyStep::Finish(_) => true,
        },
{
    lemma_leading_true(facts.backends@);
    runtime_steps_make_progress(facts.runtime);
    inspection_creates_nothing(facts.runtime);
    if let LoadingStep::Ready(project) = loading_step(facts.project) {
        lemma_checked(facts, project);
        if all_checked(facts, project) {
            let place = lemma_some_place_is_reached(facts, project, 0);
            publications_are_carried_out_in_order(facts, project, place);
        }
    }
}

/// What is forwarded is configured and valid, and is about the service it is forwarded
/// for.
pub proof fn forwards_are_valid(
    facts: ApplyFacts,
    project: ProjectModel,
    lines: Seq<Seq<char>>,
    action: ForwardActionModel,
)
    requires
        loading_step(facts.project) == LoadingStep::Ready(project),
        apply_step(facts) == ApplyStep::Carry(lines, CarryActionModel::Forward(action)),
    ensures
        ({
            let i = lines.len() as int;
            let service = project.publications[i].service;
            let configuration = project_configuration(facts.configuration, project);
            &&& project.publications[i].publisher == OPENSSH_REVERSE_TCP_PUBLISHER@
            &&& last_port(project.services, service) matches Some(port)
            &&& forward_of(configuration, service) matches Ok(publication)
            &&& valid_publication(publication)
            &&& publication.service == service
            &&& forward_step(known_of(facts.publications@, i).forward, port, publication)
                == ForwardStep::Act(action)
        }),
{
    let i = lines.len() as int;
    nothing_is_carried_out_unchecked(facts, lines, CarryActionModel::Forward(action));
    publications_are_carried_out_in_order(facts, project, i);
    desired_services_are_declared(project.publications, project.services, i);
    assert(supported(project.publications[i].publisher));
    resolved_publications_are_valid(
        bytes_of(facts.configuration->0),
        service_names(project.services),
        desired_forwards(project),
        project.publications[i].service,
    );
}

/// A Serve publication is carried out on the port that its service declares, so that no
/// slot is filled but those of the desired publications.
pub proof fn serve_mappings_are_desired(
    facts: ApplyFacts,
    project: ProjectModel,
    lines: Seq<Seq<char>>,
    action: EnsureActionModel,
)
    requires
        loading_step(facts.project) == LoadingStep::Ready(project),
        apply_step(facts) == ApplyStep::Carry(lines, CarryActionModel::Serve(action)),
    ensures
        ({
            let i = lines.len() as int;
            &&& project.publications[i].publisher == TAILSCALE_SERVE_TCP_PUBLISHER@
            &&& last_port(project.services, project.publications[i].service) matches Some(port)
            &&& ensure_step(known_of(facts.publications@, i).serve, port) == EnsureStep::Act(
                action,
            )
            &&& action matches EnsureActionModel::CreateMapping(arguments) ==> arguments
                == mapping_arguments(port)
        }),
{
    let i = lines.len() as int;
    nothing_is_carried_out_unchecked(facts, lines, CarryActionModel::Serve(action));
    publications_are_carried_out_in_order(facts, project, i);
    desired_services_are_declared(project.publications, project.services, i);
}

/// Whether an action makes a mapping, a directory or a control master.
pub open spec fn creates(action: CarryActionModel) -> bool {
    match action {
        CarryActionModel::Serve(action) => action is CreateMapping,
        CarryActionModel::Forward(ForwardActionModel::Runtime(action)) => action is Create,
        CarryActionModel::Forward(action) => action is Master,
    }
}

/// A repeated run makes nothing anew: where the slot of a Serve publication is seen
/// satisfied and the entries of a forward are seen to be there, no mapping is created, no
/// directory is made and no control master is started.
pub proof fn repeated_runs_create_nothing(
    facts: ApplyFacts,
    project: ProjectModel,
    lines: Seq<Seq<char>>,
    action: CarryActionModel,
)
    requires
        loading_step(facts.project) == LoadingStep::Ready(project),
        apply_step(facts) == ApplyStep::Carry(lines, action),
        ({
            let i = lines.len() as int;
            let known = known_of(facts.publications@, i);
            let port = last_port(project.services, project.publications[i].service)->0;
            &&& known.serve.before matches Some(reply) ==> inspection(reply, port) == Ok::<
                ProviderState,
                Failure,
            >(ProviderState::AlreadySatisfied)
            &&& known.forward.runtime.application.found != Some(EntryReply::Missing)
            &&& known.forward.runtime.provider.found != Some(EntryReply::Missing)
            &&& known.forward.entry != Some(EntryReply::Missing)
        }),
    ensures
        !creates(action),
{
    nothing_is_carried_out_unchecked(facts, lines, action);
    publications_are_carried_out_in_order(facts, project, lines.len() as int);
}

/// Whether all that is known in a later run of the publication at a place in the order is
/// as it was seen last before.
pub open spec fn publication_unchanged(
    first: ApplyFacts,
    again: ApplyFacts,
    project: ProjectModel,
    i: int,
) -> bool {
    let before = known_of(first.publications@, i);
    let now = known_of(again.publications@, i);
    if project.publications[i].publisher == TAILSCALE_SERVE_TCP_PUBLISHER@ {
        serve_unchanged(
            before.serve,
            now.serve,
            last_port(project.services, project.publications[i].service)->0,
        )
    } else {
        forward_unchanged(before.forward, now.forward)
    }
}

/// Whether what is known in a later run of the runtime directory is as the publication at
/// a place in the order saw it last before.
pub open spec fn runtime_unchanged_since(
    first: ApplyFacts,
    again: ApplyFacts,
    project: ProjectModel,
    i: int,
) -> bool {
    &&& 0 <= i < project.publications.len()
    &&& project.publications[i].publisher == OPENSSH_REVERSE_TCP_PUBLISHER@
    &&& runtime_unchanged(known_of(first.publications@, i).forward.runtime, again.runtime)
}

/// Whether all that is known in a later run is as it was seen last in the first: the files,
/// the backends, the runtime directory, the Serve slots, and the control masters with what
/// they answer.
pub open spec fn unchanged_since(
    first: ApplyFacts,
    again: ApplyFacts,
    project: ProjectModel,
) -> bool {
    &&& again.project.declaration is Some ==> again.project.declaration
        == first.project.declaration
    &&& again.project.publishing is Some ==> again.project.publishing == first.project.publishing
    &&& again.configuration is Some ==> again.configuration == first.configuration
    &&& again.backends@.is_prefix_of(first.backends@)
    &&& desired_forwards(project).len() > 0 ==> exists|i: int| #[trigger]
        runtime_unchanged_since(first, again, project, i)
    &&& forall|i: int|
        0 <= i < project.publications.len() ==> #[trigger] publication_unchanged(
            first,
            again,
            project,
            i,
        )
}

/// The line of a publication that was carried out before: a Serve publication is already
/// satisfied at its endpoint, and a forward is ensured again.
pub open spec fn repeated_line(first: ApplyFacts, project: ProjectModel, i: int) -> Seq<char> {
    let publication = project.publications[i];
    let port = last_port(project.services, publication.service)->0;
    if publication.publisher == TAILSCALE_SERVE_TCP_PUBLISHER@ {
        let outcome = ensure_step(known_of(first.publications@, i).serve, port)->Done_0->Ok_0;
        ensured_line(
            publication.service,
            EnsureModel::AlreadySatisfied { endpoint: endpoint_of(outcome) },
        )
    } else {
        line_at(first, project, i)
    }
}

/// The lines of the publications in front that were carried out before.
pub open spec fn repeated_lines(first: ApplyFacts, project: ProjectModel, count: nat) -> Seq<
    Seq<char>,
> {
    Seq::new(count, |i: int| repeated_line(first, project, i))
}

proof fn lemma_publishers_differ()
    ensures
        OPENSSH_REVERSE_TCP_PUBLISHER@ != TAILSCALE_SERVE_TCP_PUBLISHER@,
{
    reveal_strlit("openssh-reverse-tcp");
    reveal_strlit("tailscale-serve-tcp");
    assert(OPENSSH_REVERSE_TCP_PUBLISHER@[0] == 'o');
    assert(TAILSCALE_SERVE_TCP_PUBLISHER@[0] == 't');
}

proof fn lemma_repeated_publication(
    first: ApplyFacts,
    again: ApplyFacts,
    project: ProjectModel,
    i: int,
)
    requires
        all_checked(first, project),
        all_checked(again, project),
        again.configuration is Some ==> again.configuration == first.configuration,
        0 <= i < project.publications.len(),
        succeeded_at(first, project, i),
        publication_unchanged(first, again, project, i),
    ensures
        match publication_step(
            again.publications@,
            project,
            project_configuration(again.configuration, project),
            i,
        ) {
            Next::Act(action) => !creates(action),
            Next::Done(result) => {
                &&& result == Ok::<Seq<char>, Failure>(repeated_line(first, project, i))
                &&& project.publications[i].publisher == OPENSSH_REVERSE_TCP_PUBLISHER@
                    ==> known_of(again.publications@, i).forward.forward is Some
            },
        },
{
    lemma_publishers_differ();
    let publication = project.publications[i];
    let port = last_port(project.services, publication.service)->0;
    let before = known_of(first.publications@, i);
    let now = known_of(again.publications@, i);
    assert(supported(publication.publisher));
    if publication.publisher == TAILSCALE_SERVE_TCP_PUBLISHER@ {
        let outcome = ensure_step(before.serve, port)->Done_0->Ok_0;
        ensured_mappings_are_satisfied_again(before.serve, now.serve, port, outcome);
    } else {
        lemma_forward_is_desired(project.publications, i);
        assert(desired_forwards(project).len() > 0);
        let configuration = project_configuration(first.configuration, project);
        let forward = forward_of(configuration, publication.service)->Ok_0;
        ensured_forwards_are_ensured_again(before.forward, now.forward, port, forward);
    }
}

proof fn lemma_unchanged_checks_pass(first: ApplyFacts, again: ApplyFacts, project: ProjectModel)
    requires
        all_checked(first, project),
        forall|i: int|
            0 <= i < project.publications.len() ==> #[trigger] succeeded_at(first, project, i),
        unchanged_since(first, again, project),
    ensures
        match preflight_step(
            again,
            project,
            project_configuration(again.configuration, project),
        ) {
            Some(step) => !(step is Finish) && !(step is Carry),
            None => true,
        },
{
    lemma_publishers_differ();
    let ports = backend_ports(project.services, project.publications);
    let count = leading_true(again.backends@);
    lemma_leading_true(again.backends@);
    assert(rejection(project) is None);
    if count < ports.len() && count < again.backends@.len() {
        assert(first.backends@[count as int]);
        assert(again.backends@[count as int] == first.backends@[count as int]);
    }
    if desired_forwards(project).len() > 0 {
        let i = choose|i: int| #[trigger] runtime_unchanged_since(first, again, project, i);
        let runtime = known_of(first.publications@, i).forward.runtime;
        assert(succeeded_at(first, project, i));
        assert(prepare_step(runtime) matches Next::Done(Ok(_)));
        prepared_directories_are_found_again(
            runtime,
            again.runtime,
            prepare_step(runtime)->Done_0->Ok_0,
        );
    }
}

/// A repeated run preserves what the first one achieved. As long as nothing changes, it
/// makes no mapping, no directory and no control master, it cannot fail, and where it
/// finishes it reports every Serve publication as already satisfied at its endpoint, every
/// forward as it was reported before and after one more request, and closes with the same
/// line.
pub proof fn repeated_runs_preserve_outcomes(
    first: ApplyFacts,
    again: ApplyFacts,
    project: ProjectModel,
    outcome: OutcomeModel,
)
    requires
        loading_step(first.project) == LoadingStep::Ready(project),
        apply_step(first) == ApplyStep::Finish(outcome),
        outcome.code == 0,
        unchanged_since(first, again, project),
    ensures
        match apply_step(again) {
            ApplyStep::InspectRuntime(action) => !(action is Create),
            ApplyStep::Carry(lines, action) => !creates(action) && lines == repeated_lines(
                first,
                project,
                lines.len(),
            ),
            ApplyStep::Finish(repeated) => {
                &&& repeated.code == 0
                &&& repeated == apply_success(
                    repeated_lines(first, project, project.publications.len()),
                )
                &&& repeated.stdout.len() == outcome.stdout.len()
                &&& repeated.stdout.last() == outcome.stdout.last()
                &&& forall|i: int|
                    0 <= i < project.publications.len()
                        && project.publications[i].publisher == OPENSSH_REVERSE_TCP_PUBLISHER@
                        ==> (#[trigger] known_of(again.publications@, i)).forward.forward is Some
            },
            _ => true,
        },
{
    let publications = project.publications;
    success_means_all_succeeded(first, project, outcome);
    publications_are_carried_out_in_order(first, project, publications.len() as int);
    inspection_creates_nothing(again.runtime);
    if loading_step(again.project) == LoadingStep::Ready(project) {
        lemma_unchanged_checks_pass(first, again, project);
        lemma_checked(again, project);
        if all_checked(again, project) {
            let place = lemma_some_place_is_reached(again, project, 0);
            publications_are_carried_out_in_order(again, project, place);
            assert forall|k: int| 0 <= k < place implies line_at(again, project, k)
                == #[trigger] repeated_line(first, project, k) && (publications[k].publisher
                == OPENSSH_REVERSE_TCP_PUBLISHER@ ==> known_of(
                again.publications@,
                k,
            ).forward.forward is Some) by {
                assert(succeeded_at(first, project, k));
                assert(succeeded_at(again, project, k));
                assert(publication_unchanged(first, again, project, k));
                lemma_repeated_publication(first, again, project, k);
            }
            assert(lines_of(again, project, place as nat) =~= repeated_lines(
                first,
                project,
                place as nat,
            ));
            if place < publications.len() {
                assert(succeeded_at(first, project, place));
                assert(publication_unchanged(first, again, project, place));
                lemma_repeated_publication(first, again, project, place);
            } else {
                assert forall|i: int|
                    0 <= i < publications.len() && publications[i].publisher
                        == OPENSSH_REVERSE_TCP_PUBLISHER@ implies (#[trigger] known_of(
                    again.publications@,
                    i,
                )).forward.forward is Some by {
                    assert(repeated_line(first, project, i) == line_at(again, project, i));
                }
            }
        }
    }
}

/// The report of publications that all succeeded is their lines, then one that says how many
/// there are. Without any there is one line that says so.
pub proof fn successes_are_counted(lines: Seq<Seq<char>>)
    ensures
        apply_success(lines).code == 0,
        apply_success(lines).stderr.len() == 0,
        lines.len() == 0 ==> apply_success(lines).stdout == seq![
            "No desired publications to apply"@,
        ],
        lines.len() > 0 ==> apply_success(lines).stdout == lines + seq![
            "Applied "@ + decimal(lines.len()) + " desired publications"@,
        ],
{
    if lines.len() > 0 {
        assert(apply_success(lines).stdout =~= lines + seq![
            "Applied "@ + decimal(lines.len()) + " desired publications"@,
        ]);
    }
}

/// The report of a failed publication is the lines of those before it, and one error that
/// names the service, the publisher and the failure, and says that the earlier ones stay.
pub proof fn failures_keep_earlier_successes(
    lines: Seq<Seq<char>>,
    publication: PublicationModel,
    failure: Failure,
)
    ensures
        apply_failure(lines, publication, failure).code == 1,
        apply_failure(lines, publication, failure).stdout == lines,
        apply_failure(lines, publication, failure).stderr == seq![
            "error: apply failed for "@ + publication.service + " via "@ + publication.publisher
                + ": "@ + detail(message(failure)) + (if lines.len() == 0 {
                Seq::<char>::empty()
            } else {
                "; earlier successful publications were not rolled back"@
            }),
        ],
{
    reveal_strlit("");
    assert(""@ =~= Seq::<char>::empty());
}

/// Publications are refused together when one of them has a publisher other than the two, or
/// else when the Serve publications are ambiguous.
pub proof fn unsupported_publishers_are_refused_first(project: ProjectModel)
    ensures
        rejection(project) == if exists|i: int|
            0 <= i < project.publications.len() && (#[trigger] project.publications[i]).publisher
                != "tailscale-serve-tcp"@ && project.publications[i].publisher
                != "openssh-reverse-tcp"@ {
            Some(Failure::DesiredPublisherUnsupported)
        } else if ambiguous_serve(project.services, project.publications) {
            Some(Failure::ServeSlotsConflict)
        } else {
            None
        },
        desired_forwards(project) == desired_services(
            project.publications,
            "openssh-reverse-tcp"@,
        ),
{
    assert forall|i: int| 0 <= i < project.publications.len() implies supported(
        (#[trigger] project.publications[i]).publisher,
    ) == (project.publications[i].publisher == "tailscale-serve-tcp"@
        || project.publications[i].publisher == "openssh-reverse-tcp"@) by {
        two_publishers_are_supported(project.publications[i].publisher);
    }
    if exists|i: int|
        0 <= i < project.publications.len() && !supported(
            (#[trigger] project.publications[i]).publisher,
        ) {
        let i = choose|i: int|
            0 <= i < project.publications.len() && !supported(
                (#[trigger] project.publications[i]).publisher,
            );
        assert(project.publications[i].publisher != "tailscale-serve-tcp"@
            && project.publications[i].publisher != "openssh-reverse-tcp"@);
    }
    if exists|i: int|
        0 <= i < project.publications.len() && (#[trigger] project.publications[i]).publisher
            != "tailscale-serve-tcp"@ && project.publications[i].publisher
            != "openssh-reverse-tcp"@ {
        let i = choose|i: int|
            0 <= i < project.publications.len() && (#[trigger] project.publications[i]).publisher
                != "tailscale-serve-tcp"@ && project.publications[i].publisher
                != "openssh-reverse-tcp"@;
        assert(!supported(project.publications[i].publisher));
    }
}

/// The backends are asked in the order in which the publications first use them: a further
/// publication adds its port at the end, unless it is there already.
pub proof fn backends_are_listed_in_order_of_use(
    services: Seq<ServiceModel>,
    publications: Seq<PublicationModel>,
    publication: PublicationModel,
)
    ensures
        backend_ports(services, Seq::empty()).len() == 0,
        last_port(services, publication.service) matches Some(port) ==> backend_ports(
            services,
            publications.push(publication),
        ) == if backend_ports(services, publications).contains(port) {
            backend_ports(services, publications)
        } else {
            backend_ports(services, publications) + seq![port]
        },
{
    let more = publications.push(publication);
    assert(more.drop_last() =~= publications);
    assert(more.last() == publication);
    if let Some(port) = last_port(services, publication.service) {
        assert(backend_ports(services, publications).push(port) =~= backend_ports(
            services,
            publications,
        ) + seq![port]);
    }
}

/// A backend that was not reached ends the command before anything is carried out, and is
/// named by its port: the first one in order that was not reached.
pub proof fn unreached_backends_end_the_command(facts: ApplyFacts, project: ProjectModel, k: int)
    requires
        loading_step(facts.project) == LoadingStep::Ready(project),
        rejection(project) is None,
        desired_forwards(project).len() > 0 ==> project_configuration(
            facts.configuration,
            project,
        ) matches Some(Ok(_)),
        0 <= k < facts.backends@.len(),
        k < backend_ports(project.services, project.publications).len(),
        !facts.backends@[k],
        forall|j: int| 0 <= j < k ==> #[trigger] facts.backends@[j],
    ensures
        apply_step(facts) == ApplyStep::Finish(
            failed(
                Failure::BackendUnreachable(
                    backend_ports(project.services, project.publications)[k],
                ),
            ),
        ),
{
    lemma_leading_true(facts.backends@);
    let count = leading_true(facts.backends@) as int;
    if count < k {
        assert(facts.backends@[count]);
    } else if count > k {
        assert(facts.backends@[k]);
    }
}

/// Before anything is carried out, what is wrong with the publications is reported first, then
/// the configuration is read and must resolve the forwards, then each backend is connected to,
/// and last the runtime directory is inspected. Without forwards neither the configuration nor
/// the runtime directory is looked at.
pub proof fn checks_are_made_in_order(
    facts: ApplyFacts,
    project: ProjectModel,
    failure: Failure,
    publications: Seq<ProviderModel>,
)
    requires
        loading_step(facts.project) == LoadingStep::Ready(project),
    ensures
        rejection(project) == Some(failure) ==> apply_step(facts) == ApplyStep::Finish(
            failed(failure),
        ),
        rejection(project) is None && desired_forwards(project).len() > 0 ==> {
            &&& facts.configuration is None ==> apply_step(facts) == ApplyStep::ReadConfiguration
            &&& project_configuration(facts.configuration, project) == Some(
                Err::<Seq<ProviderModel>, Failure>(failure),
            ) ==> apply_step(facts) == ApplyStep::Finish(failed(failure))
        },
        rejection(project) is None && (desired_forwards(project).len() == 0
            || project_configuration(facts.configuration, project) == Some(
            Ok::<Seq<ProviderModel>, Failure>(publications),
        )) && facts.backends@.len() == 0 && backend_ports(
            project.services,
            project.publications,
        ).len() > 0 ==> apply_step(facts) == ApplyStep::Connect(
            backend_ports(project.services, project.publications)[0],
        ),
        !(apply_step(facts) is ReadConfiguration && desired_forwards(project).len() == 0),
        !(apply_step(facts) is InspectRuntime && desired_forwards(project).len() == 0),
{
    lemma_leading_true(facts.backends@);
    lemma_checked(facts, project);
    if all_checked(facts, project) {
        let place = lemma_some_place_is_reached(facts, project, 0);
        publications_are_carried_out_in_order(facts, project, place);
    }
}

/// Once the configuration resolves the forwards and every backend was reached, the runtime
/// directory is inspected, and when it is not safe the command ends with that.
pub proof fn runtime_directories_are_checked_last(
    facts: ApplyFacts,
    project: ProjectModel,
    publications: Seq<ProviderModel>,
)
    requires
        loading_step(facts.project) == LoadingStep::Ready(project),
        rejection(project) is None,
        desired_forwards(project).len() > 0,
        project_configuration(facts.configuration, project) == Some(
            Ok::<Seq<ProviderModel>, Failure>(publications),
        ),
        backend_ports(project.services, project.publications).len() <= facts.backends@.len(),
        forall|k: int|
            0 <= k < backend_ports(project.services, project.publications).len()
                ==> #[trigger] facts.backends@[k],
    ensures
        match inspect_step(facts.runtime) {
            Next::Act(action) => apply_step(facts) == ApplyStep::InspectRuntime(action),
            Next::Done(Err(reason)) => apply_step(facts) == ApplyStep::Finish(failed(reason)),
            Next::Done(Ok(_)) => all_checked(facts, project),
        },
{
    lemma_leading_true(facts.backends@);
    lemma_checked(facts, project);
    let count = leading_true(facts.backends@) as int;
    if count < backend_ports(project.services, project.publications).len() {
        assert(facts.backends@[count]);
    }
}

/// Files that are not read or cannot be used stop the command as they stop any other.
pub proof fn applying_needs_a_project(facts: ApplyFacts, failure: Failure)
    ensures
        loading_step(facts.project) == LoadingStep::ReadDeclaration ==> apply_step(facts)
            == ApplyStep::ReadDeclaration,
        loading_step(facts.project) == LoadingStep::ReadPublishing ==> apply_step(facts)
            == ApplyStep::ReadPublishing,
        loading_step(facts.project) == LoadingStep::Failed(failure) ==> apply_step(facts)
            == ApplyStep::Finish(failed(failure)),
{
}

/// Each publication is carried out with what is known of it alone, for its own service, on
/// the port that this service declares, and a forward as the configuration has it for this
/// service.
pub proof fn publications_use_their_own_service(
    known: Seq<CarryFacts>,
    project: ProjectModel,
    configuration: Option<Result<Seq<ProviderModel>, Failure>>,
    i: int,
    k: int,
)
    requires
        project.valid(),
        0 <= i < project.publications.len(),
        0 <= k < project.services.len(),
        project.services[k].name == project.publications[i].service,
        supported(project.publications[i].publisher),
    ensures
        publication_step(known, project, configuration, i) == {
            let facts = if i < known.len() {
                known[i]
            } else {
                CarryFacts::unknown()
            };
            let service = project.services[k].name;
            let port = project.services[k].port;
            if project.publications[i].publisher == "tailscale-serve-tcp"@ {
                carry_serve_step(service, port, facts)
            } else {
                carry_forward_step(
                    service,
                    port,
                    match configuration {
                        Some(Ok(publications)) => publication_for(Ok(publications), service),
                        _ => Err(Failure::ConfigurationUnresolved),
                    },
                    facts,
                )
            }
        },
{
    names_find_their_ports(project.services, project.services[k].name, k);
}

/// The configuration of the forwards is that of the provider file for the declared services
/// and for those that are to be forwarded.
pub proof fn configurations_resolve_all_forwards(contents: Option<Vec<u8>>, project: ProjectModel)
    ensures
        project_configuration(None, project) is None,
        project_configuration(Some(contents), project) == Some(
            loaded_configuration(
                bytes_of(contents),
                service_names(project.services),
                desired_services(project.publications, "openssh-reverse-tcp"@),
            ),
        ),
{
}

/// The model of what is decided is what is asked for, or the report.
pub proof fn applying_is_shown_as_it_is(
    port: u16,
    runtime: RuntimeAction,
    lines: Vec<String>,
    action: CarryAction,
    outcome: Outcome,
    configuration: ProviderConfiguration,
    failure: Failure,
)
    ensures
        ApplyAction::ReadDeclaration@ == ApplyStep::ReadDeclaration,
        ApplyAction::ReadPublishing@ == ApplyStep::ReadPublishing,
        ApplyAction::ReadConfiguration@ == ApplyStep::ReadConfiguration,
        ApplyAction::Connect(port)@ == ApplyStep::Connect(port),
        ApplyAction::InspectRuntime(runtime)@ == ApplyStep::InspectRuntime(runtime@),
        ApplyAction::Carry(lines, action)@ == ApplyStep::Carry(lines.deep_view(), action@),
        ApplyAction::Finish(outcome)@ == ApplyStep::Finish(outcome@),
        configuration_option(None) is None,
        configuration_option(Some(Ok(configuration))) == Some(
            Ok::<Seq<ProviderModel>, Failure>(configuration@),
        ),
        configuration_option(Some(Err(failure))) == Some(
            Err::<Seq<ProviderModel>, Failure>(failure),
        ),
{
}

/// As long as every backend that was asked was reached, the next one in order is connected to
/// until none is left.
pub proof fn backends_are_connected_to_one_by_one(facts: ApplyFacts, project: ProjectModel)
    requires
        loading_step(facts.project) == LoadingStep::Ready(project),
        rejection(project) is None,
        desired_forwards(project).len() > 0 ==> project_configuration(
            facts.configuration,
            project,
        ) matches Some(Ok(_)),
        facts.backends@.len() < backend_ports(project.services, project.publications).len(),
        forall|j: int| 0 <= j < facts.backends@.len() ==> #[trigger] facts.backends@[j],
    ensures
        apply_step(facts) == ApplyStep::Connect(
            backend_ports(project.services, project.publications)[facts.backends@.len() as int],
        ),
{
    lemma_leading_true(facts.backends@);
    let count = leading_true(facts.backends@) as int;
    if count < facts.backends@.len() {
        assert(facts.backends@[count]);
    }
}

} // verus!
