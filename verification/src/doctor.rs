//! The `doctor` command: whether the desired publications are ready to be carried out.

use crate::apply::{backend_ports, configuration_option, desired_forwards, project_configuration};
use crate::declaration::{
    declared_port, declared_port_is_unique, find_service, first_port, last_port, load_declaration,
    loaded_declaration, names_find_their_ports, valid_declaration, ServiceModel,
};
use crate::document::bytes_of;
use crate::failure::{detail, diagnostic_error_detail, message, Failure};
use crate::openssh_reverse_tcp::commands::{
    control_path_query, control_path_query_model, master_check_model, SshCommand, SshCommandModel,
};
use crate::openssh_reverse_tcp::configuration::{
    configured, load_and_resolve_desired, publication_for, resolved_publications_are_valid,
    resolved_services_are_configured, ProviderConfiguration, ProviderModel,
};
use crate::openssh_reverse_tcp::control_path::{expand_control_path, expansion, SshReply};
use crate::openssh_reverse_tcp::runtime::{
    asks_unknown, inspect_runtime, inspect_step, inspection_creates_nothing,
    runtime_steps_make_progress, EntryReply, Runtime, RuntimeAction, RuntimeActionModel,
    RuntimeFacts, RuntimeModel,
};
use crate::openssh_reverse_tcp::session::{
    inspect_existing_master, probe_step, ExistingMaster, MasterProbe,
    MasterProbeModel,
};
use crate::project::{
    loading_step, LoadingStep, Project, ProjectFacts, ProjectModel, DECLARATION_PATH,
    PUBLISHING_PATH,
};
use crate::publishing::{
    ambiguous_serve, declared_services, declares, desired_services, is_serve,
    load_publishing_intent, loaded_intent, publisher_is_operationally_supported, service_names,
    services_desired_from, supported,
    tailscale_serve_tcp_publications_are_ambiguous, two_publishers_are_supported, PublicationModel,
    OPENSSH_REVERSE_TCP_PUBLISHER, TAILSCALE_SERVE_TCP_PUBLISHER,
};
use crate::step::Next;
use crate::tailscale_serve_tcp::{
    client_arguments, client_query, ensure_step, inspect_client_prerequisites, node_name,
    observation, observations, observe_ports, serve_arguments, serve_query,
    slots_are_observed_at_their_ports, ClientReply, EnsureFacts, ProviderState, ServeReply,
};
use crate::text::{concat2, concat3, decimal, decimal_text, same_text};
use vstd::prelude::*;

verus! {

/// What a row of the report says.
#[derive(Clone, Copy, PartialEq, Eq, Structural, Debug)]
pub enum RowKind {
    Heading,
    Pass,
    Fail,
    Info,
}

/// A row of the report.
pub struct Row {
    pub kind: RowKind,
    pub message: String,
}

/// The mathematical model of a row.
pub struct RowModel {
    pub kind: RowKind,
    pub message: Seq<char>,
}

impl DeepView for Row {
    type V = RowModel;

    open spec fn deep_view(&self) -> RowModel {
        RowModel { kind: self.kind, message: self.message@ }
    }
}

/// The printed text of a row.
pub open spec fn row_text(row: RowModel) -> Seq<char> {
    match row.kind {
        RowKind::Heading => row.message,
        RowKind::Pass => "PASS  "@ + row.message,
        RowKind::Fail => "FAIL  "@ + row.message,
        RowKind::Info => "INFO  "@ + row.message,
    }
}

impl Row {
    /// The printed text of the row.
    pub fn text(&self) -> (text: String)
        ensures
            text@ == row_text(self.deep_view()),
    {
        match self.kind {
            RowKind::Heading => self.message.clone(),
            RowKind::Pass => concat2("PASS  ", self.message.as_str()),
            RowKind::Fail => concat2("FAIL  ", self.message.as_str()),
            RowKind::Info => concat2("INFO  ", self.message.as_str()),
        }
    }
}

/// The row of a check that passed.
pub open spec fn pass_row(message: Seq<char>) -> RowModel {
    RowModel { kind: RowKind::Pass, message }
}

/// The row of a check that failed.
pub open spec fn fail_row(message: Seq<char>) -> RowModel {
    RowModel { kind: RowKind::Fail, message }
}

/// The row of a remark.
pub open spec fn info_row(message: Seq<char>) -> RowModel {
    RowModel { kind: RowKind::Info, message }
}

/// The heading of a section.
pub open spec fn heading_row(message: Seq<char>) -> RowModel {
    RowModel { kind: RowKind::Heading, message }
}

/// The number of failed checks among the rows.
pub open spec fn failures(rows: Seq<RowModel>) -> nat
    decreases rows.len(),
{
    if rows.len() == 0 {
        0
    } else {
        failures(rows.drop_last()) + (if rows.last().kind == RowKind::Fail {
            1nat
        } else {
            0nat
        })
    }
}

proof fn lemma_failures_bound(rows: Seq<RowModel>)
    ensures
        failures(rows) <= rows.len(),
    decreases rows.len(),
{
    if rows.len() > 0 {
        lemma_failures_bound(rows.drop_last());
    }
}

/// The report of the checks made so far.
pub struct DoctorReport {
    pub rows: Vec<Row>,
    pub blocking_failures: usize,
}

impl View for DoctorReport {
    type V = Seq<RowModel>;

    open spec fn view(&self) -> Seq<RowModel> {
        self.rows.deep_view()
    }
}

impl DoctorReport {
    /// The failures that are counted are those of the rows.
    pub open spec fn wf(self) -> bool {
        self.blocking_failures == failures(self@)
    }

    /// A report without rows.
    pub fn new() -> (report: DoctorReport)
        ensures
            report@ == Seq::<RowModel>::empty(),
            report.blocking_failures == 0,
            report.wf(),
    {
        let report = DoctorReport { rows: Vec::new(), blocking_failures: 0 };
        assert(report@ =~= Seq::<RowModel>::empty());
        report
    }

    fn push(&mut self, kind: RowKind, message: String)
        requires
            old(self).wf(),
        ensures
            final(self)@ == old(self)@.push(RowModel { kind, message: message@ }),
            final(self).wf(),
    {
        let ghost before = self@;
        let ghost row = RowModel { kind, message: message@ };
        self.rows.push(Row { kind, message });
        assert(self@ =~= before.push(row));
        assert(self@.drop_last() =~= before);
        if kind == RowKind::Fail {
            proof {
                lemma_failures_bound(self@);
            }
            assert(self.rows.len() == self@.len());
            self.blocking_failures = self.blocking_failures + 1;
        }
    }

    /// Adds a check that passed.
    pub fn pass(&mut self, message: String)
        requires
            old(self).wf(),
        ensures
            final(self)@ == old(self)@.push(pass_row(message@)),
            final(self).wf(),
    {
        self.push(RowKind::Pass, message);
    }

    /// Adds a check that failed.
    pub fn fail(&mut self, message: String)
        requires
            old(self).wf(),
        ensures
            final(self)@ == old(self)@.push(fail_row(message@)),
            final(self).wf(),
    {
        self.push(RowKind::Fail, message);
    }

    /// Adds a remark.
    pub fn info(&mut self, message: String)
        requires
            old(self).wf(),
        ensures
            final(self)@ == old(self)@.push(info_row(message@)),
            final(self).wf(),
    {
        self.push(RowKind::Info, message);
    }

    /// Adds the heading of a section.
    pub fn heading(&mut self, message: &str)
        requires
            old(self).wf(),
        ensures
            final(self)@ == old(self)@.push(heading_row(message@)),
            final(self).wf(),
    {
        self.push(RowKind::Heading, message.to_owned());
    }

    /// The closing line and exit code of the report.
    pub fn finish(&self) -> (closing: (String, u8))
        ensures
            closing.0@ == closing_line(self.blocking_failures as nat),
            closing.1 == exit_code(self.blocking_failures as nat),
    {
        if self.blocking_failures == 0 {
            ("No blocking readiness issues detected by performed checks".to_owned(), 0)
        } else {
            (
                concat3(
                    "Found ",
                    decimal_text(self.blocking_failures as u64).as_str(),
                    " blocking readiness issues",
                ),
                1,
            )
        }
    }
}

/// The closing line of a report with a number of failed checks.
pub open spec fn closing_line(blocking_failures: nat) -> Seq<char> {
    if blocking_failures == 0 {
        "No blocking readiness issues detected by performed checks"@
    } else {
        "Found "@ + decimal(blocking_failures) + " blocking readiness issues"@
    }
}

/// The exit code of a report with a number of failed checks.
pub open spec fn exit_code(blocking_failures: nat) -> u8 {
    if blocking_failures == 0 {
        0
    } else {
        1
    }
}

/// The exit code is zero exactly when no check failed.
pub proof fn ready_means_nothing_failed(rows: Seq<RowModel>)
    ensures
        exit_code(failures(rows)) == 0 <==> forall|i: int|
            0 <= i < rows.len() ==> (#[trigger] rows[i]).kind != RowKind::Fail,
    decreases rows.len(),
{
    if rows.len() > 0 {
        let before = rows.drop_last();
        ready_means_nothing_failed(before);
        if exit_code(failures(rows)) == 0 {
            assert forall|i: int| 0 <= i < rows.len() implies (#[trigger] rows[i]).kind
                != RowKind::Fail by {
                if i < before.len() {
                    assert(before[i] == rows[i]);
                }
            }
        }
        if forall|i: int| 0 <= i < rows.len() ==> (#[trigger] rows[i]).kind != RowKind::Fail {
            assert(rows[rows.len() - 1].kind != RowKind::Fail);
            assert forall|i: int| 0 <= i < before.len() implies (#[trigger] before[i]).kind
                != RowKind::Fail by {
                assert(rows[i] == before[i]);
            }
        }
    }
}

/// What is known of the control state of one forward.
pub struct ControlFacts {
    /// What became of asking OpenSSH for the control path.
    pub expanded: Option<SshReply>,
    /// What was found at the control path.
    pub entry: Option<EntryReply>,
    /// What became of checking the control master that was found.
    pub check: Option<SshReply>,
}

impl ControlFacts {
    /// Nothing is known.
    pub open spec fn unknown() -> ControlFacts {
        ControlFacts {
            expanded: None,
            entry: None,
            check: None,
        }
    }

    /// Nothing is known yet.
    pub fn new() -> (facts: ControlFacts)
        ensures
            facts == Self::unknown(),
    {
        ControlFacts {
            expanded: None,
            entry: None,
            check: None,
        }
    }
}

/// What is known while the project is examined.
pub struct DoctorFacts {
    pub project: ProjectFacts,
    /// Whether the local backends accepted a connection, in the order they were asked.
    pub backends: Vec<bool>,
    /// What became of querying the client state.
    pub client: Option<ClientReply>,
    /// What became of querying the Serve state.
    pub serve: Option<ServeReply>,
    /// The contents of the provider configuration, `Some(None)` when it could not be
    /// read.
    pub configuration: Option<Option<Vec<u8>>>,
    /// What is known of the runtime directory.
    pub runtime: RuntimeFacts,
    /// What is known of the control state of the forwards, in order.
    pub controls: Vec<ControlFacts>,
}

impl DoctorFacts {
    /// Nothing is known yet.
    pub fn new() -> (facts: DoctorFacts)
        ensures
            facts.project == ProjectFacts::unknown(),
            facts.backends@.len() == 0,
            facts.client is None,
            facts.serve is None,
            facts.configuration is None,
            facts.runtime == RuntimeFacts::unknown(),
            facts.controls@.len() == 0,
    {
        DoctorFacts {
            project: ProjectFacts::new(),
            backends: Vec::new(),
            client: None,
            serve: None,
            configuration: None,
            runtime: RuntimeFacts::new(),
            controls: Vec::new(),
        }
    }
}

/// What to ask next to examine the project. Nothing that is asked changes anything.
pub enum DoctorRequest {
    ReadDeclaration,
    ReadPublishing,
    /// Connect to the local backend on this port.
    Connect(u16),
    /// Query the client state with these arguments.
    QueryClient(Vec<String>),
    /// Query the Serve state with these arguments.
    QueryServe(Vec<String>),
    ReadConfiguration,
    /// Do this to inspect the runtime directory.
    InspectRuntime(RuntimeAction),
    /// Run this command to have OpenSSH expand the control path of this forward.
    QueryControlPath(usize, SshCommand),
    /// Look at the control path of this forward.
    InspectSocket(usize, Vec<u8>),
    /// Run this command to check the control master of this forward.
    CheckMaster(usize, SshCommand),
}

/// The mathematical model of a request.
pub enum DoctorQuestion {
    ReadDeclaration,
    ReadPublishing,
    Connect(u16),
    QueryClient(Seq<Seq<char>>),
    QueryServe(Seq<Seq<char>>),
    ReadConfiguration,
    InspectRuntime(RuntimeActionModel),
    QueryControlPath(nat, SshCommandModel),
    InspectSocket(nat, Seq<u8>),
    CheckMaster(nat, SshCommandModel),
}

impl DeepView for DoctorRequest {
    type V = DoctorQuestion;

    open spec fn deep_view(&self) -> DoctorQuestion {
        match self {
            DoctorRequest::ReadDeclaration => DoctorQuestion::ReadDeclaration,
            DoctorRequest::ReadPublishing => DoctorQuestion::ReadPublishing,
            DoctorRequest::Connect(port) => DoctorQuestion::Connect(*port),
            DoctorRequest::QueryClient(arguments) => DoctorQuestion::QueryClient(
                arguments.deep_view(),
            ),
            DoctorRequest::QueryServe(arguments) => DoctorQuestion::QueryServe(
                arguments.deep_view(),
            ),
            DoctorRequest::ReadConfiguration => DoctorQuestion::ReadConfiguration,
            DoctorRequest::InspectRuntime(action) => DoctorQuestion::InspectRuntime(action@),
            DoctorRequest::QueryControlPath(i, command) => DoctorQuestion::QueryControlPath(
                *i as nat,
                command@,
            ),
            DoctorRequest::InspectSocket(i, path) => DoctorQuestion::InspectSocket(
                *i as nat,
                path@,
            ),
            DoctorRequest::CheckMaster(i, command) => DoctorQuestion::CheckMaster(
                *i as nat,
                command@,
            ),
        }
    }
}

/// A part of the report: its rows as far as they are known, and the question that must
/// be answered before it can go on.
pub struct Section {
    pub rows: Seq<RowModel>,
    pub question: Option<DoctorQuestion>,
}

/// A part that is known to its end.
pub open spec fn complete(rows: Seq<RowModel>) -> Section {
    Section { rows, question: None }
}

/// A part that waits for an answer.
pub open spec fn waiting(rows: Seq<RowModel>, question: DoctorQuestion) -> Section {
    Section { rows, question: Some(question) }
}

impl Section {
    /// This part, and then the other when this one is known to its end.
    pub open spec fn before(self, next: Section) -> Section {
        if self.question is Some {
            self
        } else {
            Section { rows: self.rows + next.rows, question: next.question }
        }
    }
}

/// A message and the detail of a failure.
pub open spec fn explained(subject: Seq<char>, failure: Failure) -> Seq<char> {
    subject + detail(message(failure))
}

fn explain(subject: &str, reason: Failure) -> (text: String)
    ensures
        text@ == explained(subject@, reason),
{
    let full = reason.message();
    concat2(subject, diagnostic_error_detail(full.as_str()))
}

/// The publishers without an operation behind them, each once.
pub open spec fn unsupported_publishers(publications: Seq<PublicationModel>) -> Seq<Seq<char>>
    decreases publications.len(),
{
    if publications.len() == 0 {
        Seq::empty()
    } else {
        let before = unsupported_publishers(publications.drop_last());
        let publisher = publications.last().publisher;
        if supported(publisher) || before.contains(publisher) {
            before
        } else {
            before.push(publisher)
        }
    }
}

/// The items with a comma and a space between them.
pub open spec fn comma_list(items: Seq<Seq<char>>) -> Seq<char>
    decreases items.len(),
{
    if items.len() == 0 {
        Seq::empty()
    } else if items.len() == 1 {
        items[0]
    } else {
        comma_list(items.drop_last()) + ", "@ + items.last()
    }
}

fn list_unsupported(project: &Project) -> (tokens: Vec<String>)
    ensures
        tokens.deep_view() == unsupported_publishers(project@.publications),
{
    let publications = &project.publishing_intent.publications;
    let ghost model = project@.publications;
    let mut tokens: Vec<String> = Vec::new();
    let mut i: usize = 0;
    assert(tokens.deep_view() =~= Seq::empty());
    while i < publications.len()
        invariant
            i <= publications.len(),
            *publications == project.publishing_intent.publications,
            model == project@.publications,
            tokens.deep_view() == unsupported_publishers(model.take(i as int)),
        decreases publications.len() - i,
    {
        assert(model.take(i + 1).drop_last() =~= model.take(i as int));
        assert(model.take(i + 1).last() == publications@[i as int].deep_view());
        let publisher = &publications[i].publisher;
        if !publisher_is_operationally_supported(publisher.as_str()) {
            let mut seen = false;
            let mut j: usize = 0;
            while j < tokens.len()
                invariant
                    j <= tokens.len(),
                    seen == exists|k: int| 0 <= k < j && tokens.deep_view()[k] == publisher@,
                decreases tokens.len() - j,
            {
                assert(tokens.deep_view()[j as int] == tokens@[j as int]@);
                if same_text(tokens[j].as_str(), publisher.as_str()) {
                    seen = true;
                }
                j = j + 1;
            }
            assert(tokens.deep_view().len() == tokens.len());
            assert(seen == tokens.deep_view().contains(publisher@));
            if !seen {
                let ghost before = tokens.deep_view();
                tokens.push(publisher.clone());
                assert(tokens.deep_view() =~= before.push(publisher@));
            }
        }
        i = i + 1;
    }
    assert(model.take(model.len() as int) =~= model);
    tokens
}

fn join_list(items: &Vec<String>) -> (text: String)
    ensures
        text@ == comma_list(items.deep_view()),
{
    let ghost model = items.deep_view();
    let mut text = String::new();
    let mut i: usize = 0;
    while i < items.len()
        invariant
            i <= items.len(),
            model == items.deep_view(),
            text@ == comma_list(model.take(i as int)),
        decreases items.len() - i,
    {
        assert(model.take(i + 1).drop_last() =~= model.take(i as int));
        assert(model.take(i + 1).last() == items@[i as int]@);
        if i > 0 {
            text.append(", ");
        }
        text.append(items[i].as_str());
        assert(text@ =~= comma_list(model.take(i + 1)));
        i = i + 1;
    }
    assert(model.take(model.len() as int) =~= model);
    text
}

/// The services and ports to be published through Serve, in order.
pub open spec fn desired_serve(
    services: Seq<ServiceModel>,
    publications: Seq<PublicationModel>,
) -> Seq<(Seq<char>, u16)>
    decreases publications.len(),
{
    if publications.len() == 0 {
        Seq::empty()
    } else {
        let before = desired_serve(services, publications.drop_last());
        let publication = publications.last();
        if publication.publisher == TAILSCALE_SERVE_TCP_PUBLISHER@ {
            match first_port(services, publication.service) {
                Some(port) => before.push((publication.service, port)),
                None => before,
            }
        } else {
            before
        }
    }
}

fn list_desired_serve(project: &Project) -> (desired: Vec<(String, u16)>)
    ensures
        desired.deep_view() == desired_serve(project@.services, project@.publications),
{
    let publications = &project.publishing_intent.publications;
    let ghost model = project@.publications;
    let mut desired: Vec<(String, u16)> = Vec::new();
    let mut i: usize = 0;
    assert(desired.deep_view() =~= Seq::empty());
    while i < publications.len()
        invariant
            i <= publications.len(),
            *publications == project.publishing_intent.publications,
            model == project@.publications,
            desired.deep_view() == desired_serve(project@.services, model.take(i as int)),
        decreases publications.len() - i,
    {
        assert(model.take(i + 1).drop_last() =~= model.take(i as int));
        assert(model.take(i + 1).last() == publications@[i as int].deep_view());
        if same_text(publications[i].publisher.as_str(), TAILSCALE_SERVE_TCP_PUBLISHER) {
            if let Some(k) = find_service(
                &project.declaration,
                publications[i].service.as_str(),
            ) {
                let port: u16 = project.declaration.services[k].port;
                let ghost before = desired.deep_view();
                desired.push((publications[i].service.clone(), port));
                assert(desired.deep_view() =~= before.push((publications@[i as int].service@, port)));
            }
        }
        i = i + 1;
    }
    assert(model.take(model.len() as int) =~= model);
    desired
}

/// Whether a port is among the entries.
pub open spec fn lists_port(entries: Seq<(Seq<char>, u16)>, port: u16) -> bool {
    exists|k: int| 0 <= k < entries.len() && (#[trigger] entries[k]).1 == port
}

/// The ports of the desired publications, each once, with the service that uses it
/// first.
pub open spec fn backend_entries(
    services: Seq<ServiceModel>,
    publications: Seq<PublicationModel>,
) -> Seq<(Seq<char>, u16)>
    decreases publications.len(),
{
    if publications.len() == 0 {
        Seq::empty()
    } else {
        let before = backend_entries(services, publications.drop_last());
        let service = publications.last().service;
        match last_port(services, service) {
            Some(port) => if lists_port(before, port) {
                before
            } else {
                before.push((service, port))
            },
            None => before,
        }
    }
}

fn list_backends(project: &Project) -> (entries: Vec<(String, u16)>)
    ensures
        entries.deep_view() == backend_entries(project@.services, project@.publications),
{
    let publications = &project.publishing_intent.publications;
    let ghost model = project@.publications;
    let mut entries: Vec<(String, u16)> = Vec::new();
    let mut i: usize = 0;
    assert(entries.deep_view() =~= Seq::empty());
    while i < publications.len()
        invariant
            i <= publications.len(),
            *publications == project.publishing_intent.publications,
            model == project@.publications,
            entries.deep_view() == backend_entries(project@.services, model.take(i as int)),
        decreases publications.len() - i,
    {
        assert(model.take(i + 1).drop_last() =~= model.take(i as int));
        assert(model.take(i + 1).last() == publications@[i as int].deep_view());
        if let Some(port) = declared_port(
            &project.declaration,
            publications[i].service.as_str(),
        ) {
            let mut known = false;
            let mut j: usize = 0;
            while j < entries.len()
                invariant
                    j <= entries.len(),
                    known == exists|k: int|
                        0 <= k < j && (#[trigger] entries.deep_view()[k]).1 == port,
                decreases entries.len() - j,
            {
                assert(entries.deep_view()[j as int].1 == entries@[j as int].1);
                if entries[j].1 == port {
                    known = true;
                }
                j = j + 1;
            }
            assert(entries.deep_view().len() == entries.len());
            assert(known == lists_port(entries.deep_view(), port));
            if !known {
                let ghost before = entries.deep_view();
                entries.push((publications[i].service.clone(), port));
                assert(entries.deep_view() =~= before.push((publications@[i as int].service@, port)));
            }
        }
        i = i + 1;
    }
    assert(model.take(model.len() as int) =~= model);
    entries
}

/// Whether every desired publisher has an operation behind it.
pub open spec fn support_row(project: ProjectModel) -> RowModel {
    let tokens = unsupported_publishers(project.publications);
    if tokens.len() == 0 {
        pass_row("Operational publisher support"@)
    } else {
        fail_row(
            "Operational publisher support: unsupported desired publisher tokens: "@ + comma_list(
                tokens,
            ),
        )
    }
}

/// Whether each Serve publication has a port of its own.
pub open spec fn slot_rule_row(project: ProjectModel) -> RowModel {
    if ambiguous_serve(project.services, project.publications) {
        fail_row(
            "Tailscale desired-slot rules: multiple publications target the same current-node TCP port"@,
        )
    } else {
        pass_row("Tailscale desired-slot rules"@)
    }
}

/// The rows on the project as a whole.
pub open spec fn overview_rows(project: ProjectModel) -> Seq<RowModel> {
    let rows = seq![
        info_row("Desired publications: "@ + decimal(project.publications.len())),
        support_row(project),
    ];
    if desired_serve(project.services, project.publications).len() > 0 {
        rows.push(slot_rule_row(project)).push(heading_row("Local backends"@))
    } else {
        rows.push(heading_row("Local backends"@))
    }
}

fn report_overview(report: &mut DoctorReport, project: &Project)
    requires
        old(report).wf(),
    ensures
        final(report)@ == old(report)@ + overview_rows(project@),
        final(report).wf(),
{
    let ghost start = report@;
    let publications = &project.publishing_intent.publications;
    report.info(
        concat2("Desired publications: ", decimal_text(publications.len() as u64).as_str()),
    );
    let tokens = list_unsupported(project);
    assert(tokens.deep_view().len() == tokens.len());
    if tokens.len() == 0 {
        report.pass("Operational publisher support".to_owned());
    } else {
        report.fail(
            concat2(
                "Operational publisher support: unsupported desired publisher tokens: ",
                join_list(&tokens).as_str(),
            ),
        );
    }
    let desired = list_desired_serve(project);
    assert(desired.deep_view().len() == desired.len());
    if desired.len() > 0 {
        if tailscale_serve_tcp_publications_are_ambiguous(
            &project.declaration,
            &project.publishing_intent,
        ) {
            report.fail(
                "Tailscale desired-slot rules: multiple publications target the same current-node TCP port".to_owned(),
            );
        } else {
            report.pass("Tailscale desired-slot rules".to_owned());
        }
    }
    report.heading("Local backends");
    assert(report@ =~= start + overview_rows(project@));
}

/// Whether a local backend was reached.
pub open spec fn backend_row(entry: (Seq<char>, u16), reached: bool) -> RowModel {
    let address = entry.0 + " 127.0.0.1:"@ + decimal(entry.1 as nat);
    if reached {
        pass_row(address)
    } else {
        fail_row(address + " is not reachable"@)
    }
}

/// The rows on the local backends from one on.
pub open spec fn backend_section(
    entries: Seq<(Seq<char>, u16)>,
    answers: Seq<bool>,
    i: int,
) -> Section
    decreases entries.len() - i,
{
    if i >= entries.len() {
        complete(Seq::empty())
    } else if i >= answers.len() {
        waiting(Seq::empty(), DoctorQuestion::Connect(entries[i].1))
    } else {
        complete(seq![backend_row(entries[i], answers[i])]).before(
            backend_section(entries, answers, i + 1),
        )
    }
}

fn report_backends(report: &mut DoctorReport, project: &Project, answers: &Vec<bool>) -> (request:
    Option<DoctorRequest>)
    requires
        old(report).wf(),
    ensures
        ({
            let section = backend_section(
                backend_entries(project@.services, project@.publications),
                answers@,
                0,
            );
            final(report)@ == old(report)@ + section.rows && request.deep_view()
                == section.question
        }),
        final(report).wf(),
{
    let entries = list_backends(project);
    let ghost model = entries.deep_view();
    let ghost start = report@;
    let ghost section = backend_section(model, answers@, 0);
    let mut i: usize = 0;
    while i < entries.len()
        invariant
            i <= entries.len(),
            model == entries.deep_view(),
            model == backend_entries(project@.services, project@.publications),
            start == old(report)@,
            section == backend_section(model, answers@, 0),
            report.wf(),
            section.question == backend_section(model, answers@, i as int).question,
            start + section.rows == report@ + backend_section(model, answers@, i as int).rows,
        decreases entries.len() - i,
    {
        assert(model[i as int] == (entries@[i as int].0@, entries@[i as int].1));
        if i >= answers.len() {
            assert(report@ =~= start + section.rows);
            return Some(DoctorRequest::Connect(entries[i].1));
        }
        let ghost before = report@;
        let ghost rest = backend_section(model, answers@, i + 1);
        let mut line = entries[i].0.clone();
        line.append(" 127.0.0.1:");
        line.append(decimal_text(entries[i].1 as u64).as_str());
        if answers[i] {
            report.pass(line);
        } else {
            line.append(" is not reachable");
            report.fail(line);
        }
        assert(report@ =~= before.push(backend_row(model[i as int], answers@[i as int])));
        assert(report@ + rest.rows =~= before + (seq![
            backend_row(model[i as int], answers@[i as int]),
        ] + rest.rows));
        i = i + 1;
    }
    assert(report@ =~= start + section.rows);
    None
}

/// Whether a Serve slot permits the publication of a service.
pub open spec fn slot_row(service: Seq<char>, state: ProviderState) -> RowModel {
    match state {
        ProviderState::Absent => pass_row(service + " Serve slot permits apply"@),
        ProviderState::AlreadySatisfied => pass_row(service + " Serve slot permits apply"@),
        ProviderState::Conflict => fail_row(
            service + " Serve slot is blocked by incompatible existing state"@,
        ),
        ProviderState::Indeterminate => fail_row(
            service + " Serve slot cannot be classified safely"@,
        ),
    }
}

/// The rows on the Serve slots, in the order of the publications.
pub open spec fn slot_rows(
    desired: Seq<(Seq<char>, u16)>,
    states: Seq<ProviderState>,
) -> Seq<RowModel> {
    Seq::new(desired.len(), |i: int| slot_row(desired[i].0, states[i]))
}

/// The ports of the entries.
pub open spec fn entry_ports(entries: Seq<(Seq<char>, u16)>) -> Seq<u16> {
    entries.map_values(|entry: (Seq<char>, u16)| entry.1)
}

/// The rows on Tailscale.
pub open spec fn serve_section(
    client: Option<ClientReply>,
    serve: Option<ServeReply>,
    desired: Seq<(Seq<char>, u16)>,
) -> Section {
    let heading = seq![heading_row("Tailscale"@)];
    let ready = heading.push(pass_row("Client state permits endpoint resolution"@));
    match client {
        None => waiting(heading, DoctorQuestion::QueryClient(client_arguments())),
        Some(reply) => match node_name(reply) {
            Err(failure) => complete(
                heading.push(fail_row(explained("Tailscale client prerequisites: "@, failure))),
            ),
            Ok(_) => match serve {
                None => waiting(ready, DoctorQuestion::QueryServe(serve_arguments())),
                Some(reply) => match observations(reply, entry_ports(desired)) {
                    Err(failure) => complete(
                        ready.push(fail_row(explained("Serve state observation: "@, failure))),
                    ),
                    Ok(states) => complete(ready + slot_rows(desired, states)),
                },
            },
        },
    }
}

fn report_slots(
    report: &mut DoctorReport,
    desired: &Vec<(String, u16)>,
    states: &Vec<ProviderState>,
)
    requires
        old(report).wf(),
        states.len() == desired.len(),
    ensures
        final(report)@ == old(report)@ + slot_rows(desired.deep_view(), states@),
        final(report).wf(),
{
    let ghost start = report@;
    let ghost rows = slot_rows(desired.deep_view(), states@);
    let mut i: usize = 0;
    assert(report@ =~= start + rows.take(0));
    while i < desired.len()
        invariant
            i <= desired.len() == states.len(),
            rows == slot_rows(desired.deep_view(), states@),
            report.wf(),
            report@ == start + rows.take(i as int),
        decreases desired.len() - i,
    {
        assert(desired.deep_view()[i as int].0 == desired@[i as int].0@);
        let service = desired[i].0.as_str();
        match states[i] {
            ProviderState::Absent => report.pass(concat2(service, " Serve slot permits apply")),
            ProviderState::AlreadySatisfied => report.pass(
                concat2(service, " Serve slot permits apply"),
            ),
            ProviderState::Conflict => report.fail(
                concat2(service, " Serve slot is blocked by incompatible existing state"),
            ),
            ProviderState::Indeterminate => report.fail(
                concat2(service, " Serve slot cannot be classified safely"),
            ),
        }
        i = i + 1;
        assert(report@ =~= start + rows.take(i as int));
    }
    assert(rows.take(rows.len() as int) =~= rows);
}

fn report_serve(
    report: &mut DoctorReport,
    client: &Option<ClientReply>,
    serve: &Option<ServeReply>,
    desired: &Vec<(String, u16)>,
) -> (request: Option<DoctorRequest>)
    requires
        old(report).wf(),
    ensures
        ({
            let section = serve_section(*client, *serve, desired.deep_view());
            final(report)@ == old(report)@ + section.rows && request.deep_view()
                == section.question
        }),
        final(report).wf(),
{
    let ghost start = report@;
    let ghost section = serve_section(*client, *serve, desired.deep_view());
    report.heading("Tailscale");
    match client {
        None => {
            assert(report@ =~= start + section.rows);
            return Some(DoctorRequest::QueryClient(client_query()));
        },
        Some(reply) => {
            if let Err(failure) = inspect_client_prerequisites(reply) {
                report.fail(explain("Tailscale client prerequisites: ", failure));
                assert(report@ =~= start + section.rows);
                return None;
            }
        },
    }
    report.pass("Client state permits endpoint resolution".to_owned());
    let reply = match serve {
        None => {
            assert(report@ =~= start + section.rows);
            return Some(DoctorRequest::QueryServe(serve_query()));
        },
        Some(reply) => reply,
    };
    let mut ports: Vec<u16> = Vec::new();
    let mut i: usize = 0;
    while i < desired.len()
        invariant
            i <= desired.len(),
            ports.len() == i,
            forall|k: int| 0 <= k < i ==> ports@[k] == desired@[k].1,
        decreases desired.len() - i,
    {
        ports.push(desired[i].1);
        i = i + 1;
    }
    assert(ports@ =~= entry_ports(desired.deep_view()));
    match observe_ports(reply, &ports) {
        Ok(states) => {
            assert(states@.len() == ports@.len());
            report_slots(report, desired, &states);
        },
        Err(failure) => {
            report.fail(explain("Serve state observation: ", failure));
        },
    }
    assert(report@ =~= start + section.rows);
    None
}

/// What is known of the control path of a forward.
pub open spec fn known_expansion(controls: Seq<ControlFacts>, i: int) -> Option<SshReply> {
    if i < controls.len() {
        controls[i].expanded
    } else {
        None
    }
}

/// What is known of the entry at the control path of a forward.
pub open spec fn known_entry(controls: Seq<ControlFacts>, i: int) -> Option<EntryReply> {
    if i < controls.len() {
        controls[i].entry
    } else {
        None
    }
}

/// What is known of the control master of a forward.
pub open spec fn known_check(controls: Seq<ControlFacts>, i: int) -> Option<SshReply> {
    if i < controls.len() {
        controls[i].check
    } else {
        None
    }
}

/// The rows on the control state of a forward.
pub open spec fn control_section(
    i: int,
    service: Seq<char>,
    controls: Seq<ControlFacts>,
    runtime: RuntimeModel,
    configuration: Seq<ProviderModel>,
) -> Section {
    let resolved = seq![pass_row(service + " ssh executable and control-path resolution"@)];
    match publication_for(Ok(configuration), service) {
        Err(failure) => complete(
            seq![fail_row(explained(service + " provider configuration: "@, failure))],
        ),
        Ok(publication) => match known_expansion(controls, i) {
            None => waiting(
                Seq::empty(),
                DoctorQuestion::QueryControlPath(
                    i as nat,
                    control_path_query_model(runtime.directory, publication),
                ),
            ),
            Some(reply) => match expansion(reply, runtime.directory, publication) {
                Err(failure) => complete(
                    seq![
                        fail_row(
                            explained(
                                service + " ssh executable and control-path resolution: "@,
                                failure,
                            ),
                        ),
                    ],
                ),
                Ok(path) => match probe_step(
                    known_entry(controls, i),
                    known_check(controls, i),
                    runtime.uid,
                    path,
                    publication,
                ) {
                    Next::Act(MasterProbeModel::InspectSocket(path)) => waiting(
                        resolved,
                        DoctorQuestion::InspectSocket(i as nat, path),
                    ),
                    Next::Act(MasterProbeModel::CheckMaster(command)) => waiting(
                        resolved,
                        DoctorQuestion::CheckMaster(i as nat, command),
                    ),
                    Next::Done(Ok(ExistingMaster::Absent)) => complete(
                        resolved.push(
                            pass_row(service + " local control state: no existing master"@),
                        ),
                    ),
                    Next::Done(Ok(ExistingMaster::Responding)) => complete(
                        resolved.push(
                            pass_row(service + " local control state: existing master responds"@),
                        ),
                    ),
                    Next::Done(Err(failure)) => complete(
                        resolved.push(
                            fail_row(explained(service + " local control state: "@, failure)),
                        ),
                    ),
                },
            },
        },
    }
}

/// The rows on the control state of the forwards from one on.
pub open spec fn controls_section(
    services: Seq<Seq<char>>,
    i: int,
    controls: Seq<ControlFacts>,
    runtime: RuntimeModel,
    configuration: Seq<ProviderModel>,
) -> Section
    decreases services.len() - i,
{
    if i >= services.len() {
        complete(Seq::empty())
    } else {
        control_section(i, services[i], controls, runtime, configuration).before(
            controls_section(services, i + 1, controls, runtime, configuration),
        )
    }
}

fn report_control(
    report: &mut DoctorReport,
    i: usize,
    service: &str,
    controls: &Vec<ControlFacts>,
    runtime: &Runtime,
    configuration: &ProviderConfiguration,
) -> (request: Option<DoctorRequest>)
    requires
        old(report).wf(),
    ensures
        ({
            let section = control_section(
                i as int,
                service@,
                controls@,
                runtime@,
                configuration@,
            );
            final(report)@ == old(report)@ + section.rows && request.deep_view()
                == section.question
        }),
        final(report).wf(),
{
    let ghost start = report@;
    let ghost section = control_section(i as int, service@, controls@, runtime@, configuration@);
    let publication = match configuration.get(service) {
        Ok(publication) => publication,
        Err(failure) => {
            let subject = concat2(service, " provider configuration: ");
            report.fail(explain(subject.as_str(), failure));
            assert(report@ =~= start + section.rows);
            return None;
        },
    };
    let unknown = ControlFacts::new();
    let facts: &ControlFacts = if i < controls.len() {
        &controls[i]
    } else {
        &unknown
    };
    let path = match &facts.expanded {
        None => {
            assert(report@ =~= start + section.rows);
            return Some(
                DoctorRequest::QueryControlPath(
                    i,
                    control_path_query(&runtime.directory, &publication),
                ),
            );
        },
        Some(reply) => match expand_control_path(reply, &runtime.directory, &publication) {
            Ok(path) => path,
            Err(failure) => {
                let subject = concat2(service, " ssh executable and control-path resolution: ");
                report.fail(explain(subject.as_str(), failure));
                assert(report@ =~= start + section.rows);
                return None;
            },
        },
    };
    report.pass(concat2(service, " ssh executable and control-path resolution"));
    let request = match inspect_existing_master(
        &facts.entry,
        &facts.check,
        runtime.uid,
        &path,
        &publication,
    ) {
        Next::Act(MasterProbe::InspectSocket(path)) => Some(DoctorRequest::InspectSocket(i, path)),
        Next::Act(MasterProbe::CheckMaster(command)) => Some(
            DoctorRequest::CheckMaster(i, command),
        ),
        Next::Done(Ok(ExistingMaster::Absent)) => {
            report.pass(concat2(service, " local control state: no existing master"));
            None
        },
        Next::Done(Ok(ExistingMaster::Responding)) => {
            report.pass(concat2(service, " local control state: existing master responds"));
            None
        },
        Next::Done(Err(failure)) => {
            let subject = concat2(service, " local control state: ");
            report.fail(explain(subject.as_str(), failure));
            None
        },
    };
    assert(report@ =~= start + section.rows);
    request
}

fn report_controls(
    report: &mut DoctorReport,
    services: &Vec<String>,
    controls: &Vec<ControlFacts>,
    runtime: &Runtime,
    configuration: &ProviderConfiguration,
) -> (request: Option<DoctorRequest>)
    requires
        old(report).wf(),
    ensures
        ({
            let section = controls_section(
                services.deep_view(),
                0,
                controls@,
                runtime@,
                configuration@,
            );
            final(report)@ == old(report)@ + section.rows && request.deep_view()
                == section.question
        }),
        final(report).wf(),
{
    let ghost model = services.deep_view();
    let ghost start = report@;
    let ghost section = controls_section(model, 0, controls@, runtime@, configuration@);
    let mut i: usize = 0;
    while i < services.len()
        invariant
            i <= services.len(),
            model == services.deep_view(),
            start == old(report)@,
            section == controls_section(model, 0, controls@, runtime@, configuration@),
            report.wf(),
            section.question == controls_section(
                model,
                i as int,
                controls@,
                runtime@,
                configuration@,
            ).question,
            start + section.rows == report@ + controls_section(
                model,
                i as int,
                controls@,
                runtime@,
                configuration@,
            ).rows,
        decreases services.len() - i,
    {
        assert(model[i as int] == services@[i as int]@);
        let ghost before = report@;
        let ghost part = control_section(
            i as int,
            model[i as int],
            controls@,
            runtime@,
            configuration@,
        );
        let ghost rest = controls_section(model, i + 1, controls@, runtime@, configuration@);
        let request = report_control(
            report,
            i,
            services[i].as_str(),
            controls,
            runtime,
            configuration,
        );
        if request.is_some() {
            assert(report@ =~= start + section.rows);
            return request;
        }
        assert(report@ + rest.rows =~= before + (part.rows + rest.rows));
        i = i + 1;
    }
    assert(report@ =~= start + section.rows);
    None
}

/// The rows on the configuration, the runtime directory and the control state of the
/// forwards.
pub open spec fn forward_checks(
    services: Seq<Seq<char>>,
    configuration: Option<Result<Seq<ProviderModel>, Failure>>,
    runtime: RuntimeFacts,
    controls: Seq<ControlFacts>,
) -> Section {
    let configured = seq![pass_row("Provider configuration and desired-slot rules"@)];
    match configuration {
        None => waiting(Seq::empty(), DoctorQuestion::ReadConfiguration),
        Some(Err(failure)) => complete(
            seq![
                fail_row(explained("Provider configuration and desired-slot rules: "@, failure)),
            ],
        ),
        Some(Ok(publications)) => match inspect_step(runtime) {
            Next::Act(action) => waiting(configured, DoctorQuestion::InspectRuntime(action)),
            Next::Done(Err(failure)) => complete(
                configured.push(fail_row(explained("Runtime path inspection: "@, failure))),
            ),
            Next::Done(Ok(runtime)) => complete(
                configured.push(pass_row("Runtime path has no unsafe existing entry"@)),
            ).before(controls_section(services, 0, controls, runtime, publications)),
        },
    }
}

/// What is left out of the checks on OpenSSH.
pub open spec fn unprobed_row() -> RowModel {
    info_row(
        "OpenSSH remote reachability, host-key trust, credentials, authentication, forwarding policy, and listener availability were not probed"@,
    )
}

/// The rows on OpenSSH.
pub open spec fn forward_section(
    services: Seq<Seq<char>>,
    configuration: Option<Result<Seq<ProviderModel>, Failure>>,
    runtime: RuntimeFacts,
    controls: Seq<ControlFacts>,
) -> Section {
    complete(seq![heading_row("OpenSSH"@)]).before(
        forward_checks(services, configuration, runtime, controls),
    ).before(complete(seq![unprobed_row()]))
}

fn report_forward_checks(
    report: &mut DoctorReport,
    services: &Vec<String>,
    configuration: &Option<Result<ProviderConfiguration, Failure>>,
    runtime: &RuntimeFacts,
    controls: &Vec<ControlFacts>,
) -> (request: Option<DoctorRequest>)
    requires
        old(report).wf(),
    ensures
        ({
            let section = forward_checks(
                services.deep_view(),
                configuration_option(*configuration),
                *runtime,
                controls@,
            );
            final(report)@ == old(report)@ + section.rows && request.deep_view()
                == section.question
        }),
        final(report).wf(),
{
    let ghost start = report@;
    let ghost section = forward_checks(
        services.deep_view(),
        configuration_option(*configuration),
        *runtime,
        controls@,
    );
    let resolved = match configuration {
        None => {
            assert(report@ =~= start + section.rows);
            return Some(DoctorRequest::ReadConfiguration);
        },
        Some(Err(failure)) => {
            report.fail(explain("Provider configuration and desired-slot rules: ", *failure));
            assert(report@ =~= start + section.rows);
            return None;
        },
        Some(Ok(resolved)) => resolved,
    };
    report.pass("Provider configuration and desired-slot rules".to_owned());
    let runtime = match inspect_runtime(runtime) {
        Next::Act(action) => {
            assert(report@ =~= start + section.rows);
            return Some(DoctorRequest::InspectRuntime(action));
        },
        Next::Done(Err(failure)) => {
            report.fail(explain("Runtime path inspection: ", failure));
            assert(report@ =~= start + section.rows);
            return None;
        },
        Next::Done(Ok(runtime)) => runtime,
    };
    report.pass("Runtime path has no unsafe existing entry".to_owned());
    let request = report_controls(report, services, controls, &runtime, resolved);
    assert(report@ =~= start + section.rows);
    request
}

fn report_forwards(
    report: &mut DoctorReport,
    services: &Vec<String>,
    configuration: &Option<Result<ProviderConfiguration, Failure>>,
    runtime: &RuntimeFacts,
    controls: &Vec<ControlFacts>,
) -> (request: Option<DoctorRequest>)
    requires
        old(report).wf(),
    ensures
        ({
            let section = forward_section(
                services.deep_view(),
                configuration_option(*configuration),
                *runtime,
                controls@,
            );
            final(report)@ == old(report)@ + section.rows && request.deep_view()
                == section.question
        }),
        final(report).wf(),
{
    let ghost start = report@;
    let ghost section = forward_section(
        services.deep_view(),
        configuration_option(*configuration),
        *runtime,
        controls@,
    );
    report.heading("OpenSSH");
    let request = report_forward_checks(report, services, configuration, runtime, controls);
    if request.is_none() {
        report.info(
            "OpenSSH remote reachability, host-key trust, credentials, authentication, forwarding policy, and listener availability were not probed".to_owned(),
        );
    }
    assert(report@ =~= start + section.rows);
    request
}

/// Whether the Serve slots of a project are looked at.
pub open spec fn examines_serve(project: ProjectModel) -> bool {
    desired_serve(project.services, project.publications).len() > 0 && !ambiguous_serve(
        project.services,
        project.publications,
    )
}

/// The rows on the publications of a valid project, given its provider configuration if
/// that was read.
pub open spec fn project_section(
    facts: DoctorFacts,
    project: ProjectModel,
    configuration: Option<Result<Seq<ProviderModel>, Failure>>,
) -> Section {
    let forwards = desired_forwards(project);
    if project.publications.len() == 0 {
        complete(seq![info_row("No desired publications to check"@)])
    } else {
        complete(overview_rows(project)).before(
            backend_section(
                backend_entries(project.services, project.publications),
                facts.backends@,
                0,
            ),
        ).before(
            if examines_serve(project) {
                serve_section(
                    facts.client,
                    facts.serve,
                    desired_serve(project.services, project.publications),
                )
            } else {
                complete(Seq::empty())
            },
        ).before(
            if forwards.len() > 0 {
                forward_section(forwards, configuration, facts.runtime, facts.controls@)
            } else {
                complete(Seq::empty())
            },
        )
    }
}

/// The rows on the project files and on what they ask for.
pub open spec fn doctor_section(facts: DoctorFacts) -> Section {
    let heading = seq![heading_row("Project"@)];
    match facts.project.declaration {
        None => waiting(heading, DoctorQuestion::ReadDeclaration),
        Some(contents) => match loaded_declaration(bytes_of(contents)) {
            Err(failure) => complete(
                heading.push(fail_row(explained(DECLARATION_PATH@ + ": "@, failure))),
            ),
            Ok(services) => {
                let declared = heading.push(pass_row(DECLARATION_PATH@));
                match facts.project.publishing {
                    None => waiting(declared, DoctorQuestion::ReadPublishing),
                    Some(contents) => match loaded_intent(bytes_of(contents), services) {
                        Err(failure) => complete(
                            declared.push(fail_row(explained(PUBLISHING_PATH@ + ": "@, failure))),
                        ),
                        Ok(publications) => {
                            let project = ProjectModel { services, publications };
                            complete(declared.push(pass_row(PUBLISHING_PATH@))).before(
                                project_section(
                                    facts,
                                    project,
                                    project_configuration(facts.configuration, project),
                                ),
                            )
                        },
                    },
                }
            },
        },
    }
}

/// Reports on the publications of a valid project, whose provider configuration was
/// resolved if it was read, as far as the facts go.
pub fn examine_project(
    report: &mut DoctorReport,
    facts: &DoctorFacts,
    project: &Project,
    configuration: &Option<Result<ProviderConfiguration, Failure>>,
) -> (request: Option<DoctorRequest>)
    requires
        old(report).wf(),
    ensures
        ({
            let section = project_section(
                *facts,
                project@,
                configuration_option(*configuration),
            );
            final(report)@ == old(report)@ + section.rows && request.deep_view()
                == section.question
        }),
        final(report).wf(),
{
    let ghost start = report@;
    let ghost section = project_section(*facts, project@, configuration_option(*configuration));
    if project.publishing_intent.publications.len() == 0 {
        report.info("No desired publications to check".to_owned());
        assert(report@ =~= start + section.rows);
        return None;
    }
    report_overview(report, project);
    let request = report_backends(report, project, &facts.backends);
    if request.is_some() {
        assert(report@ =~= start + section.rows);
        return request;
    }
    let desired = list_desired_serve(project);
    assert(desired.deep_view().len() == desired.len());
    if desired.len() > 0 && !tailscale_serve_tcp_publications_are_ambiguous(
        &project.declaration,
        &project.publishing_intent,
    ) {
        let request = report_serve(report, &facts.client, &facts.serve, &desired);
        if request.is_some() {
            assert(report@ =~= start + section.rows);
            return request;
        }
    }
    let forwards = services_desired_from(
        &project.publishing_intent,
        OPENSSH_REVERSE_TCP_PUBLISHER,
    );
    assert(forwards.deep_view().len() == forwards.len());
    let request = if forwards.len() > 0 {
        report_forwards(report, &forwards, configuration, &facts.runtime, &facts.controls)
    } else {
        None
    };
    assert(report@ =~= start + section.rows);
    request
}

/// The report so far, and the question to be answered before it can go on. Without a
/// question the report is complete.
pub struct DoctorProgress {
    pub report: DoctorReport,
    pub request: Option<DoctorRequest>,
}

/// Reports on the project as far as the facts go.
pub fn doctor(facts: &DoctorFacts) -> (progress: DoctorProgress)
    ensures
        progress.report@ == doctor_section(*facts).rows,
        progress.request.deep_view() == doctor_section(*facts).question,
        progress.report.wf(),
{
    let ghost section = doctor_section(*facts);
    let mut report = DoctorReport::new();
    report.heading("Project");
    let declaration = match &facts.project.declaration {
        None => {
            assert(report@ =~= section.rows);
            return DoctorProgress { report, request: Some(DoctorRequest::ReadDeclaration) };
        },
        Some(contents) => match load_declaration(contents) {
            Ok(declaration) => declaration,
            Err(failure) => {
                let subject = concat2(DECLARATION_PATH, ": ");
                report.fail(explain(subject.as_str(), failure));
                assert(report@ =~= section.rows);
                return DoctorProgress { report, request: None };
            },
        },
    };
    report.pass(DECLARATION_PATH.to_owned());
    let publishing_intent = match &facts.project.publishing {
        None => {
            assert(report@ =~= section.rows);
            return DoctorProgress { report, request: Some(DoctorRequest::ReadPublishing) };
        },
        Some(contents) => match load_publishing_intent(contents, &declaration) {
            Ok(publishing_intent) => publishing_intent,
            Err(failure) => {
                let subject = concat2(PUBLISHING_PATH, ": ");
                report.fail(explain(subject.as_str(), failure));
                assert(report@ =~= section.rows);
                return DoctorProgress { report, request: None };
            },
        },
    };
    report.pass(PUBLISHING_PATH.to_owned());
    let project = Project { declaration, publishing_intent };
    let configuration = match &facts.configuration {
        None => None,
        Some(contents) => {
            let declared = declared_services(&project.declaration);
            let desired = services_desired_from(
                &project.publishing_intent,
                OPENSSH_REVERSE_TCP_PUBLISHER,
            );
            Some(load_and_resolve_desired(contents, &declared, &desired))
        },
    };
    let request = examine_project(&mut report, facts, &project, &configuration);
    assert(report@ =~= section.rows);
    DoctorProgress { report, request }
}

/// Whether a fact that is known stays known.
pub open spec fn stays<T>(known: Option<T>, later: Option<T>) -> bool {
    known is Some ==> later == known
}

/// Whether later facts add to earlier ones and change none of them.
pub open spec fn extends(facts: DoctorFacts, later: DoctorFacts) -> bool {
    &&& stays(facts.project.declaration, later.project.declaration)
    &&& stays(facts.project.publishing, later.project.publishing)
    &&& facts.backends@.is_prefix_of(later.backends@)
    &&& stays(facts.client, later.client)
    &&& stays(facts.serve, later.serve)
    &&& stays(facts.configuration, later.configuration)
    &&& runtime_extends(facts.runtime, later.runtime)
    &&& controls_extend(facts.controls@, later.controls@)
}

/// Whether later facts on the runtime directory add to earlier ones and change none of
/// them.
pub open spec fn runtime_extends(runtime: RuntimeFacts, later: RuntimeFacts) -> bool {
    &&& stays(runtime.user, later.user)
    &&& stays(runtime.root, later.root)
    &&& stays(runtime.root_entry, later.root_entry)
    &&& stays(runtime.application.found, later.application.found)
    &&& stays(runtime.provider.found, later.provider.found)
}

/// Whether later facts on the forwards add to earlier ones and change none of them.
pub open spec fn controls_extend(controls: Seq<ControlFacts>, later: Seq<ControlFacts>) -> bool {
    forall|i: int|
        0 <= i < controls.len() ==> i < later.len() && stays(
            (#[trigger] controls[i]).expanded,
            later[i].expanded,
        ) && stays(controls[i].entry, later[i].entry) && stays(controls[i].check, later[i].check)
}

impl Section {
    /// Whether a later part continues this one, and is the same when this one is known to
    /// its end.
    pub open spec fn grows_into(self, later: Section) -> bool {
        &&& self.rows.is_prefix_of(later.rows)
        &&& self.question is None ==> self == later
    }
}

proof fn lemma_before_grows(
    first: Section,
    second: Section,
    first_later: Section,
    second_later: Section,
)
    requires
        first.grows_into(first_later),
        second.grows_into(second_later),
    ensures
        first.before(second).grows_into(first_later.before(second_later)),
{
    let whole = first.before(second);
    let later = first_later.before(second_later);
    if first.question is Some {
        assert(later.rows.take(whole.rows.len() as int) =~= whole.rows);
    } else {
        assert(later.rows.take(whole.rows.len() as int) =~= whole.rows) by {
            assert(second_later.rows.take(second.rows.len() as int) == second.rows);
            assert forall|i: int| 0 <= i < whole.rows.len() implies later.rows[i]
                == whole.rows[i] by {
                if i >= first.rows.len() {
                    assert(second_later.rows.take(second.rows.len() as int)[i - first.rows.len()]
                        == second.rows[i - first.rows.len()]);
                }
            }
        }
        if second.question is None {
            assert(whole.rows =~= later.rows);
        }
    }
}

proof fn lemma_backends_grow(
    entries: Seq<(Seq<char>, u16)>,
    answers: Seq<bool>,
    later: Seq<bool>,
    i: int,
)
    requires
        answers.is_prefix_of(later),
        0 <= i,
    ensures
        backend_section(entries, answers, i).grows_into(backend_section(entries, later, i)),
    decreases entries.len() - i,
{
    let section = backend_section(entries, answers, i);
    let after = backend_section(entries, later, i);
    if i < entries.len() {
        if i < answers.len() {
            assert(later.take(answers.len() as int)[i] == answers[i]);
            let row = complete(seq![backend_row(entries[i], answers[i])]);
            assert(row.rows.take(row.rows.len() as int) =~= row.rows);
            lemma_backends_grow(entries, answers, later, i + 1);
            lemma_before_grows(
                row,
                backend_section(entries, answers, i + 1),
                row,
                backend_section(entries, later, i + 1),
            );
        } else {
            assert(after.rows.take(0) =~= section.rows);
        }
    } else {
        assert(after.rows.take(0) =~= section.rows);
    }
}

proof fn lemma_serve_grows(
    client: Option<ClientReply>,
    serve: Option<ServeReply>,
    client_later: Option<ClientReply>,
    serve_later: Option<ServeReply>,
    desired: Seq<(Seq<char>, u16)>,
)
    requires
        stays(client, client_later),
        stays(serve, serve_later),
    ensures
        serve_section(client, serve, desired).grows_into(
            serve_section(client_later, serve_later, desired),
        ),
{
    let section = serve_section(client, serve, desired);
    let later = serve_section(client_later, serve_later, desired);
    assert(later.rows.take(section.rows.len() as int) =~= section.rows);
}

proof fn lemma_control_grows(
    i: int,
    service: Seq<char>,
    controls: Seq<ControlFacts>,
    later: Seq<ControlFacts>,
    runtime: RuntimeModel,
    configuration: Seq<ProviderModel>,
)
    requires
        0 <= i,
        controls_extend(controls, later),
    ensures
        control_section(i, service, controls, runtime, configuration).grows_into(
            control_section(i, service, later, runtime, configuration),
        ),
{
    let section = control_section(i, service, controls, runtime, configuration);
    let after = control_section(i, service, later, runtime, configuration);
    if i < controls.len() {
        assert(stays(controls[i].expanded, later[i].expanded));
        assert(stays(controls[i].entry, later[i].entry));
        assert(stays(controls[i].check, later[i].check));
    }
    assert(after.rows.take(section.rows.len() as int) =~= section.rows);
}

proof fn lemma_controls_grow(
    services: Seq<Seq<char>>,
    i: int,
    controls: Seq<ControlFacts>,
    later: Seq<ControlFacts>,
    runtime: RuntimeModel,
    configuration: Seq<ProviderModel>,
)
    requires
        0 <= i,
        controls_extend(controls, later),
    ensures
        controls_section(services, i, controls, runtime, configuration).grows_into(
            controls_section(services, i, later, runtime, configuration),
        ),
    decreases services.len() - i,
{
    if i < services.len() {
        lemma_control_grows(i, services[i], controls, later, runtime, configuration);
        lemma_controls_grow(services, i + 1, controls, later, runtime, configuration);
        lemma_before_grows(
            control_section(i, services[i], controls, runtime, configuration),
            controls_section(services, i + 1, controls, runtime, configuration),
            control_section(i, services[i], later, runtime, configuration),
            controls_section(services, i + 1, later, runtime, configuration),
        );
    } else {
        let section = controls_section(services, i, controls, runtime, configuration);
        assert(section.rows.take(0) =~= section.rows);
    }
}

proof fn lemma_complete_grows(rows: Seq<RowModel>)
    ensures
        complete(rows).grows_into(complete(rows)),
{
    assert(rows.take(rows.len() as int) =~= rows);
}

proof fn lemma_forward_checks_grow(
    services: Seq<Seq<char>>,
    configuration: Option<Result<Seq<ProviderModel>, Failure>>,
    configuration_later: Option<Result<Seq<ProviderModel>, Failure>>,
    runtime: RuntimeFacts,
    runtime_later: RuntimeFacts,
    controls: Seq<ControlFacts>,
    later: Seq<ControlFacts>,
)
    requires
        stays(configuration, configuration_later),
        runtime_extends(runtime, runtime_later),
        controls_extend(controls, later),
    ensures
        forward_checks(services, configuration, runtime, controls).grows_into(
            forward_checks(services, configuration_later, runtime_later, later),
        ),
{
    let section = forward_checks(services, configuration, runtime, controls);
    let after = forward_checks(services, configuration_later, runtime_later, later);
    if configuration matches Some(Ok(publications)) {
        if inspect_step(runtime) matches Next::Done(Ok(known)) {
            let publications = configuration->0->Ok_0;
            let known = inspect_step(runtime)->Done_0->Ok_0;
            let front = seq![
                pass_row("Provider configuration and desired-slot rules"@),
            ].push(pass_row("Runtime path has no unsafe existing entry"@));
            lemma_controls_grow(services, 0, controls, later, known, publications);
            lemma_complete_grows(front);
            lemma_before_grows(
                complete(front),
                controls_section(services, 0, controls, known, publications),
                complete(front),
                controls_section(services, 0, later, known, publications),
            );
        } else {
            assert(after.rows.take(section.rows.len() as int) =~= section.rows);
        }
    } else {
        assert(after.rows.take(section.rows.len() as int) =~= section.rows);
    }
}

proof fn lemma_project_grows(facts: DoctorFacts, later: DoctorFacts, project: ProjectModel)
    requires
        extends(facts, later),
    ensures
        project_section(
            facts,
            project,
            project_configuration(facts.configuration, project),
        ).grows_into(
            project_section(later, project, project_configuration(later.configuration, project)),
        ),
{
    let configuration = project_configuration(facts.configuration, project);
    let configuration_later = project_configuration(later.configuration, project);
    let entries = backend_entries(project.services, project.publications);
    let desired = desired_serve(project.services, project.publications);
    let forwards = desired_forwards(project);
    let nothing = complete(Seq::<RowModel>::empty());
    if project.publications.len() == 0 {
        lemma_complete_grows(seq![info_row("No desired publications to check"@)]);
    } else {
        let overview = complete(overview_rows(project));
        lemma_complete_grows(overview_rows(project));
        lemma_complete_grows(Seq::<RowModel>::empty());
        lemma_backends_grow(entries, facts.backends@, later.backends@, 0);
        let backends = backend_section(entries, facts.backends@, 0);
        let backends_later = backend_section(entries, later.backends@, 0);
        lemma_before_grows(overview, backends, overview, backends_later);
        lemma_serve_grows(facts.client, facts.serve, later.client, later.serve, desired);
        let serve = if examines_serve(project) {
            serve_section(facts.client, facts.serve, desired)
        } else {
            nothing
        };
        let serve_later = if examines_serve(project) {
            serve_section(later.client, later.serve, desired)
        } else {
            nothing
        };
        lemma_before_grows(
            overview.before(backends),
            serve,
            overview.before(backends_later),
            serve_later,
        );
        let heading = complete(seq![heading_row("OpenSSH"@)]);
        let closing = complete(seq![unprobed_row()]);
        lemma_complete_grows(seq![heading_row("OpenSSH"@)]);
        lemma_complete_grows(seq![unprobed_row()]);
        lemma_forward_checks_grow(
            forwards,
            configuration,
            configuration_later,
            facts.runtime,
            later.runtime,
            facts.controls@,
            later.controls@,
        );
        let checks = forward_checks(forwards, configuration, facts.runtime, facts.controls@);
        let checks_later = forward_checks(
            forwards,
            configuration_later,
            later.runtime,
            later.controls@,
        );
        lemma_before_grows(heading, checks, heading, checks_later);
        lemma_before_grows(heading.before(checks), closing, heading.before(checks_later), closing);
        let forward = if forwards.len() > 0 {
            heading.before(checks).before(closing)
        } else {
            nothing
        };
        let forward_later = if forwards.len() > 0 {
            heading.before(checks_later).before(closing)
        } else {
            nothing
        };
        lemma_before_grows(
            overview.before(backends).before(serve),
            forward,
            overview.before(backends_later).before(serve_later),
            forward_later,
        );
    }
}

/// What was reported once stays reported: with more facts the report only grows at its
/// end, and a complete report does not change.
pub proof fn report_only_grows(facts: DoctorFacts, later: DoctorFacts)
    requires
        extends(facts, later),
    ensures
        doctor_section(facts).rows.is_prefix_of(doctor_section(later).rows),
        doctor_section(facts).question is None ==> doctor_section(later) == doctor_section(facts),
{
    let section = doctor_section(facts);
    let after = doctor_section(later);
    let both_read = facts.project.declaration is Some && facts.project.publishing is Some;
    if both_read {
        let declared = loaded_declaration(bytes_of(facts.project.declaration->0));
        if declared is Ok {
            let services = declared->Ok_0;
            let intent = loaded_intent(bytes_of(facts.project.publishing->0), services);
            if intent is Ok {
                let project = ProjectModel { services, publications: intent->Ok_0 };
                let front = seq![heading_row("Project"@)].push(pass_row(DECLARATION_PATH@)).push(
                    pass_row(PUBLISHING_PATH@),
                );
                lemma_complete_grows(front);
                lemma_project_grows(facts, later, project);
                lemma_before_grows(
                    complete(front),
                    project_section(
                        facts,
                        project,
                        project_configuration(facts.configuration, project),
                    ),
                    complete(front),
                    project_section(
                        later,
                        project,
                        project_configuration(later.configuration, project),
                    ),
                );
            } else {
                assert(after.rows.take(section.rows.len() as int) =~= section.rows);
            }
        } else {
            assert(after.rows.take(section.rows.len() as int) =~= section.rows);
        }
    } else {
        assert(after.rows.take(section.rows.len() as int) =~= section.rows);
    }
}

proof fn lemma_backend_question(entries: Seq<(Seq<char>, u16)>, answers: Seq<bool>, i: int)
    requires
        0 <= i <= answers.len(),
    ensures
        backend_section(entries, answers, i).question == if answers.len() < entries.len() {
            Some(DoctorQuestion::Connect(entries[answers.len() as int].1))
        } else {
            None::<DoctorQuestion>
        },
    decreases entries.len() - i,
{
    if i < entries.len() && i < answers.len() {
        lemma_backend_question(entries, answers, i + 1);
    }
}

/// Whether a question is about the control state of a forward, is not answered yet, and
/// asks OpenSSH for nothing but a control path or whether a control master runs.
pub open spec fn asks_unknown_control(
    question: DoctorQuestion,
    services: Seq<Seq<char>>,
    controls: Seq<ControlFacts>,
    runtime: RuntimeModel,
    configuration: Seq<ProviderModel>,
) -> bool {
    match question {
        DoctorQuestion::QueryControlPath(k, command) => k < services.len() && known_expansion(
            controls,
            k as int,
        ) is None && (configured(configuration, services[k as int]) matches Some(publication)
            && command == control_path_query_model(runtime.directory, publication)),
        DoctorQuestion::InspectSocket(k, _) => k < services.len() && known_entry(
            controls,
            k as int,
        ) is None,
        DoctorQuestion::CheckMaster(k, command) => k < services.len() && known_check(
            controls,
            k as int,
        ) is None && (configured(configuration, services[k as int]) matches Some(publication)
            && exists|path: Seq<u8>| command == #[trigger] master_check_model(path, publication)),
        _ => false,
    }
}

proof fn lemma_controls_question(
    services: Seq<Seq<char>>,
    i: int,
    controls: Seq<ControlFacts>,
    runtime: RuntimeModel,
    configuration: Seq<ProviderModel>,
)
    requires
        0 <= i,
    ensures
        controls_section(
            services,
            i,
            controls,
            runtime,
            configuration,
        ).question matches Some(question) ==> asks_unknown_control(
            question,
            services,
            controls,
            runtime,
            configuration,
        ),
    decreases services.len() - i,
{
    if i < services.len() {
        lemma_controls_question(services, i + 1, controls, runtime, configuration);
    }
}

/// Every question is about something that is not known yet, so no check is made twice,
/// and none creates a directory:
/// each backend is connected to once, and the client and Serve states are queried once.
/// The Tailscale state is asked for only for Serve publications, and everything about
/// OpenSSH only for forwards.
pub proof fn questions_are_needed_and_new(facts: DoctorFacts, project: ProjectModel)
    ensures
        ({
            let configuration = project_configuration(facts.configuration, project);
            let entries = backend_entries(project.services, project.publications);
            let forwards = desired_forwards(project);
            match project_section(facts, project, configuration).question {
                None => true,
                Some(DoctorQuestion::Connect(port)) => facts.backends@.len() < entries.len() && port
                    == entries[facts.backends@.len() as int].1,
                Some(DoctorQuestion::QueryClient(_)) => facts.client is None && examines_serve(
                    project,
                ),
                Some(DoctorQuestion::QueryServe(_)) => facts.serve is None && facts.client is Some
                    && examines_serve(project),
                Some(DoctorQuestion::ReadConfiguration) => facts.configuration is None
                    && forwards.len() > 0,
                Some(DoctorQuestion::InspectRuntime(action)) => asks_unknown(
                    facts.runtime,
                    Next::Act(action),
                ) && !(action is Create) && forwards.len() > 0,
                Some(DoctorQuestion::ReadDeclaration) => false,
                Some(DoctorQuestion::ReadPublishing) => false,
                Some(question) => configuration matches Some(Ok(publications)) && (
                inspect_step(facts.runtime) matches Next::Done(Ok(runtime)) && asks_unknown_control(
                    question,
                    forwards,
                    facts.controls@,
                    runtime,
                    publications,
                )),
            }
        }),
{
    let configuration = project_configuration(facts.configuration, project);
    let entries = backend_entries(project.services, project.publications);
    let forwards = desired_forwards(project);
    lemma_backend_question(entries, facts.backends@, 0);
    runtime_steps_make_progress(facts.runtime);
    inspection_creates_nothing(facts.runtime);
    if configuration matches Some(Ok(publications)) {
        if inspect_step(facts.runtime) matches Next::Done(Ok(runtime)) {
            lemma_controls_question(
                forwards,
                0,
                facts.controls@,
                inspect_step(facts.runtime)->Done_0->Ok_0,
                configuration->0->Ok_0,
            );
        }
    }
}

/// Doctor connects to the same backends as `apply`, in the same order.
pub proof fn doctor_and_apply_check_the_same_backends(
    services: Seq<ServiceModel>,
    publications: Seq<PublicationModel>,
)
    ensures
        entry_ports(backend_entries(services, publications)) == backend_ports(
            services,
            publications,
        ),
    decreases publications.len(),
{
    let entries = backend_entries(services, publications);
    let ports = backend_ports(services, publications);
    if publications.len() > 0 {
        let shorter = publications.drop_last();
        let before = backend_entries(services, shorter);
        doctor_and_apply_check_the_same_backends(services, shorter);
        if let Some(port) = last_port(services, publications.last().service) {
            if lists_port(before, port) {
                let k = choose|k: int| 0 <= k < before.len() && (#[trigger] before[k]).1 == port;
                assert(entry_ports(before)[k] == port);
            } else if entry_ports(before).contains(port) {
                let k = choose|k: int|
                    0 <= k < entry_ports(before).len() && entry_ports(before)[k] == port;
                assert(before[k].1 == port);
            }
        }
    }
    assert(entries.len() == ports.len());
    assert(entry_ports(entries) =~= ports);
}

/// A slot that passes is one that a publication is carried out in or left alone.
pub proof fn passing_slots_are_usable(
    service: Seq<char>,
    facts: EnsureFacts,
    port: u16,
    state: ProviderState,
)
    requires
        facts.before matches Some(reply) && observation(reply, port) == Ok::<
            ProviderState,
            Failure,
        >(state),
        facts.client matches Some(reply) && node_name(reply) is Ok,
        facts.reachable == Some(true),
        facts.mutation is None,
    ensures
        slot_row(service, state).kind == RowKind::Pass <==> match ensure_step(facts, port) {
            Next::Act(action) => action is CreateMapping,
            Next::Done(result) => result is Ok,
        },
{
}

/// A row is printed with its mark in front, and a heading as it stands.
pub proof fn rows_are_marked(message: Seq<char>)
    ensures
        row_text(pass_row(message)) == "PASS  "@ + message,
        row_text(fail_row(message)) == "FAIL  "@ + message,
        row_text(info_row(message)) == "INFO  "@ + message,
        row_text(heading_row(message)) == message,
        pass_row(message).kind == RowKind::Pass && fail_row(message).kind == RowKind::Fail,
        info_row(message).kind == RowKind::Info && heading_row(message).kind == RowKind::Heading,
{
}

proof fn lemma_failures_concat(left: Seq<RowModel>, right: Seq<RowModel>)
    ensures
        failures(left + right) == failures(left) + failures(right),
    decreases right.len(),
{
    if right.len() == 0 {
        assert(left + right =~= left);
    } else {
        lemma_failures_concat(left, right.drop_last());
        assert((left + right).drop_last() =~= left + right.drop_last());
        assert((left + right).last() == right.last());
    }
}

/// Exactly the failed checks count, wherever they stand in the report. A report without any
/// closes with that and exit code zero, and every other one with their number and exit code
/// one.
pub proof fn failed_checks_are_counted(
    left: Seq<RowModel>,
    row: RowModel,
    right: Seq<RowModel>,
    count: nat,
)
    ensures
        failures(Seq::empty()) == 0,
        failures(left + seq![row] + right) == failures(left) + failures(right) + (if row.kind
            == RowKind::Fail {
            1nat
        } else {
            0nat
        }),
        closing_line(0) == "No blocking readiness issues detected by performed checks"@,
        exit_code(0) == 0,
        count > 0 ==> closing_line(count) == "Found "@ + decimal(count)
            + " blocking readiness issues"@,
        count > 0 ==> exit_code(count) == 1,
{
    let one = seq![row];
    lemma_failures_concat(left, one);
    lemma_failures_concat(left + one, right);
    assert(one.drop_last() =~= Seq::<RowModel>::empty());
    assert(failures(one.drop_last()) == 0);
    assert(one.last() == row);
}

proof fn lemma_one_row(row: RowModel)
    ensures
        failures(seq![row]) == (if row.kind == RowKind::Fail {
            1nat
        } else {
            0nat
        }),
{
    failed_checks_are_counted(Seq::empty(), row, Seq::empty(), 0);
    assert(Seq::<RowModel>::empty() + seq![row] + Seq::<RowModel>::empty() =~= seq![row]);
}

/// The publishers that are listed as unsupported are those of the publications other than the
/// two, each of them once and in the order in which they first occur.
pub proof fn unsupported_publishers_are_listed_once(
    publications: Seq<PublicationModel>,
    publication: PublicationModel,
)
    ensures
        unsupported_publishers(Seq::empty()).len() == 0,
        unsupported_publishers(publications.push(publication)) == if publication.publisher
            == "tailscale-serve-tcp"@ || publication.publisher == "openssh-reverse-tcp"@
            || unsupported_publishers(publications).contains(publication.publisher) {
            unsupported_publishers(publications)
        } else {
            unsupported_publishers(publications) + seq![publication.publisher]
        },
{
    two_publishers_are_supported(publication.publisher);
    let more = publications.push(publication);
    assert(more.drop_last() =~= publications);
    assert(more.last() == publication);
    assert(unsupported_publishers(publications).push(publication.publisher)
        =~= unsupported_publishers(publications) + seq![publication.publisher]);
}

proof fn lemma_unsupported(publications: Seq<PublicationModel>)
    ensures
        unsupported_publishers(publications).len() == 0 <==> forall|i: int|
            0 <= i < publications.len() ==> supported((#[trigger] publications[i]).publisher),
    decreases publications.len(),
{
    if publications.len() > 0 {
        let before = publications.drop_last();
        lemma_unsupported(before);
        if unsupported_publishers(publications).len() == 0 {
            assert forall|i: int| 0 <= i < publications.len() implies supported(
                (#[trigger] publications[i]).publisher,
            ) by {
                if i < before.len() {
                    assert(before[i] == publications[i]);
                    assert(supported(before[i].publisher));
                } else if !supported(publications.last().publisher) {
                    assert(unsupported_publishers(before).contains(
                        publications.last().publisher,
                    ));
                }
            }
        }
        if forall|i: int|
            0 <= i < publications.len() ==> supported((#[trigger] publications[i]).publisher) {
            assert(supported(publications[publications.len() - 1].publisher));
            assert forall|i: int| 0 <= i < before.len() implies supported(
                (#[trigger] before[i]).publisher,
            ) by {
                assert(supported(publications[i].publisher));
            }
        }
    }
}

/// Items are listed with a comma and a space between two of them.
pub proof fn items_are_separated_by_commas(items: Seq<Seq<char>>, item: Seq<char>)
    ensures
        comma_list(seq![item]) == item,
        items.len() > 0 ==> comma_list(items.push(item)) == comma_list(items) + ", "@ + item,
{
    assert(seq![item][0] == item);
    assert(items.push(item).drop_last() =~= items);
}

/// The overview counts the publications, and fails exactly when a publisher is not one of the
/// two, naming those, and when the Serve publications are ambiguous. That rule is left out
/// when there is no Serve publication.
pub proof fn overviews_judge_the_project(project: ProjectModel)
    ensures
        ({
            let rows = overview_rows(project);
            let tokens = unsupported_publishers(project.publications);
            let serve = desired_serve(project.services, project.publications).len() > 0;
            &&& rows.len() == if serve { 4nat } else { 3nat }
            &&& rows[0] == info_row("Desired publications: "@ + decimal(project.publications.len()))
            &&& rows[1] == if forall|i: int|
                0 <= i < project.publications.len() ==> supported(
                    (#[trigger] project.publications[i]).publisher,
                ) {
                pass_row("Operational publisher support"@)
            } else {
                fail_row(
                    "Operational publisher support: unsupported desired publisher tokens: "@
                        + comma_list(tokens),
                )
            }
            &&& serve ==> rows[2] == if ambiguous_serve(project.services, project.publications) {
                fail_row(
                    "Tailscale desired-slot rules: multiple publications target the same current-node TCP port"@,
                )
            } else {
                pass_row("Tailscale desired-slot rules"@)
            }
            &&& rows.last() == heading_row("Local backends"@)
        }),
{
    lemma_unsupported(project.publications);
}

/// Each Serve publication is examined for its own service, and at the port which that service
/// declares.
pub proof fn serve_slots_belong_to_their_services(
    services: Seq<ServiceModel>,
    publications: Seq<PublicationModel>,
    i: int,
    k: int,
)
    requires
        valid_declaration(services),
        0 <= i < publications.len(),
        0 <= k < services.len(),
        publications[i].publisher == "tailscale-serve-tcp"@,
        publications[i].service == services[k].name,
    ensures
        ({
            let place = desired_serve(services, publications.take(i)).len() as int;
            &&& place < desired_serve(services, publications).len()
            &&& desired_serve(services, publications)[place] == (
                services[k].name,
                services[k].port,
            )
        }),
    decreases publications.len(),
{
    names_find_their_ports(services, services[k].name, k);
    let before = publications.drop_last();
    if i < publications.len() - 1 {
        assert(before[i] == publications[i]);
        assert(before.take(i) =~= publications.take(i));
        serve_slots_belong_to_their_services(services, before, i, k);
    } else {
        assert(publications.take(i) =~= before);
    }
}

/// Nothing else is examined as a Serve slot: every slot is that of some Serve publication, with
/// its service and the port that this declares.
pub proof fn serve_slots_are_desired(
    services: Seq<ServiceModel>,
    publications: Seq<PublicationModel>,
    place: int,
)
    requires
        valid_declaration(services),
        0 <= place < desired_serve(services, publications).len(),
    ensures
        exists|i: int|
            0 <= i < publications.len() && (#[trigger] publications[i]).publisher
                == "tailscale-serve-tcp"@ && publications[i].service == desired_serve(
                services,
                publications,
            )[place].0 && last_port(services, publications[i].service) == Some(
                desired_serve(services, publications)[place].1,
            ) && desired_serve(services, publications.take(i)).len() == place,
    decreases publications.len(),
{
    let before = publications.drop_last();
    let last = publications.len() - 1;
    if place < desired_serve(services, before).len() {
        serve_slots_are_desired(services, before, place);
        let i = choose|i: int|
            0 <= i < before.len() && (#[trigger] before[i]).publisher == "tailscale-serve-tcp"@
                && before[i].service == desired_serve(services, before)[place].0 && last_port(
                services,
                before[i].service,
            ) == Some(desired_serve(services, before)[place].1) && desired_serve(
                services,
                before.take(i),
            ).len() == place;
        assert(publications[i] == before[i]);
        assert(publications.take(i) =~= before.take(i));
    } else {
        declared_port_is_unique(services, publications.last().service);
        assert(publications[last] == publications.last());
        assert(publications.take(last) =~= before);
    }
}

/// Whether a slot permits the publication of its service: nothing holds it, or the very
/// mapping that is wanted.
pub open spec fn slot_permits(reply: ServeReply, port: u16) -> bool {
    ||| observation(reply, port) == Ok::<ProviderState, Failure>(ProviderState::Absent)
    ||| observation(reply, port) == Ok::<ProviderState, Failure>(ProviderState::AlreadySatisfied)
}

/// When the Serve state says something at all, there is one row for each desired slot, in
/// order. It names the service of that slot and passes exactly when the state that is observed
/// at the port of that slot permits it.
pub proof fn slots_are_judged_at_their_own_port(
    client: ClientReply,
    reply: ServeReply,
    desired: Seq<(Seq<char>, u16)>,
    k: int,
)
    requires
        node_name(client) is Ok,
        observations(reply, entry_ports(desired)) is Ok,
        0 <= k < desired.len(),
    ensures
        ({
            let section = serve_section(Some(client), Some(reply), desired);
            let row = section.rows[k + 2];
            &&& section.question is None
            &&& section.rows.len() == desired.len() + 2
            &&& row.kind == RowKind::Pass <==> slot_permits(reply, desired[k].1)
            &&& row == match observation(reply, desired[k].1) {
                Ok(ProviderState::Absent) => pass_row(desired[k].0 + " Serve slot permits apply"@),
                Ok(ProviderState::AlreadySatisfied) => pass_row(
                    desired[k].0 + " Serve slot permits apply"@,
                ),
                Ok(ProviderState::Conflict) => fail_row(
                    desired[k].0 + " Serve slot is blocked by incompatible existing state"@,
                ),
                _ => fail_row(desired[k].0 + " Serve slot cannot be classified safely"@),
            }
        }),
{
    slots_are_observed_at_their_ports(reply, entry_ports(desired));
    assert(entry_ports(desired)[k] == desired[k].1);
    let states = observations(reply, entry_ports(desired))->Ok_0;
    assert(observation(reply, entry_ports(desired)[k]) == Ok::<ProviderState, Failure>(states[k]));
}

/// The first rows on Tailscale tell whether the client can be used, and whether the Serve
/// state could be observed. The client is asked first, and Serve only after it.
pub proof fn clients_are_examined_before_slots(
    client: ClientReply,
    serve: Option<ServeReply>,
    reply: ServeReply,
    desired: Seq<(Seq<char>, u16)>,
    failure: Failure,
)
    ensures
        serve_section(None, serve, desired) == (Section {
            rows: seq![heading_row("Tailscale"@)],
            question: Some(DoctorQuestion::QueryClient(seq!["status"@, "--json"@])),
        }),
        node_name(client) == Err::<Seq<char>, Failure>(failure) ==> serve_section(
            Some(client),
            serve,
            desired,
        ) == (Section {
            rows: seq![
                heading_row("Tailscale"@),
                fail_row("Tailscale client prerequisites: "@ + detail(message(failure))),
            ],
            question: None,
        }),
        node_name(client) is Ok ==> {
            let front = seq![
                heading_row("Tailscale"@),
                pass_row("Client state permits endpoint resolution"@),
            ];
            &&& serve_section(Some(client), None, desired) == (Section {
                rows: front,
                question: Some(
                    DoctorQuestion::QueryServe(seq!["serve"@, "status"@, "--json"@]),
                ),
            })
            &&& observations(reply, entry_ports(desired)) == Err::<Seq<ProviderState>, Failure>(
                failure,
            ) ==> serve_section(Some(client), Some(reply), desired) == (Section {
                rows: front.push(
                    fail_row("Serve state observation: "@ + detail(message(failure))),
                ),
                question: None,
            })
            &&& observations(reply, entry_ports(desired)) is Ok ==> serve_section(
                Some(client),
                Some(reply),
                desired,
            ).rows.take(2) == front
        },
{
    let heading = seq![heading_row("Tailscale"@)];
    let front = seq![
        heading_row("Tailscale"@),
        pass_row("Client state permits endpoint resolution"@),
    ];
    assert(heading.push(pass_row("Client state permits endpoint resolution"@)) =~= front);
    assert(heading.push(fail_row(explained("Tailscale client prerequisites: "@, failure))) =~= seq![
        heading_row("Tailscale"@),
        fail_row("Tailscale client prerequisites: "@ + detail(message(failure))),
    ]);
    if observations(reply, entry_ports(desired)) is Ok {
        let states = observations(reply, entry_ports(desired))->Ok_0;
        assert((front + slot_rows(desired, states)).take(2) =~= front);
    }
}

/// The backends are examined one after the other, each by its own answer: a row names the
/// service and the address, and passes exactly when the connection was accepted.
pub proof fn backends_are_judged_by_their_answers(
    entries: Seq<(Seq<char>, u16)>,
    answers: Seq<bool>,
    i: int,
)
    requires
        0 <= i <= entries.len(),
        entries.len() <= answers.len(),
    ensures
        backend_section(entries, answers, i).question is None,
        backend_section(entries, answers, i).rows.len() == entries.len() - i,
        forall|k: int|
            i <= k < entries.len() ==> {
                let address = entries[k].0 + " 127.0.0.1:"@ + decimal(entries[k].1 as nat);
                #[trigger] backend_section(entries, answers, i).rows[k - i] == if answers[k] {
                    pass_row(address)
                } else {
                    fail_row(address + " is not reachable"@)
                }
            },
    decreases entries.len() - i,
{
    if i < entries.len() {
        backends_are_judged_by_their_answers(entries, answers, i + 1);
        let rest = backend_section(entries, answers, i + 1);
        let section = backend_section(entries, answers, i);
        assert(section.rows =~= seq![backend_row(entries[i], answers[i])] + rest.rows);
        assert forall|k: int| i <= k < entries.len() implies ({
            let address = entries[k].0 + " 127.0.0.1:"@ + decimal(entries[k].1 as nat);
            #[trigger] section.rows[k - i] == if answers[k] {
                pass_row(address)
            } else {
                fail_row(address + " is not reachable"@)
            }
        }) by {
            if k > i {
                assert(section.rows[k - i] == rest.rows[k - (i + 1)]);
            }
        }
    }
}

/// A backend is listed with the service that uses its port first.
pub proof fn backends_are_listed_with_their_first_service(
    services: Seq<ServiceModel>,
    publications: Seq<PublicationModel>,
    publication: PublicationModel,
)
    ensures
        backend_entries(services, Seq::empty()).len() == 0,
        last_port(services, publication.service) matches Some(port) ==> backend_entries(
            services,
            publications.push(publication),
        ) == if exists|k: int|
            0 <= k < backend_entries(services, publications).len() && (#[trigger] backend_entries(
                services,
                publications,
            )[k]).1 == port {
            backend_entries(services, publications)
        } else {
            backend_entries(services, publications) + seq![(publication.service, port)]
        },
{
    let more = publications.push(publication);
    assert(more.drop_last() =~= publications);
    assert(more.last() == publication);
    if let Some(port) = last_port(services, publication.service) {
        assert(backend_entries(services, publications).push((publication.service, port))
            =~= backend_entries(services, publications) + seq![(publication.service, port)]);
    }
}

/// The control state of a forward is judged by its own configuration, and by what is known at
/// its own place: the control path must resolve, and what is there must be nothing or a live
/// control master.
pub proof fn controls_are_judged_by_their_own_facts(
    i: int,
    service: Seq<char>,
    controls: Seq<ControlFacts>,
    runtime: RuntimeModel,
    configuration: Seq<ProviderModel>,
    publication: ProviderModel,
    expanded: SshReply,
    path: Seq<u8>,
    failure: Failure,
)
    requires
        0 <= i < controls.len(),
        configured(configuration, service) == Some(publication),
    ensures
        ({
            let section = control_section(i, service, controls, runtime, configuration);
            let resolved = pass_row(service + " ssh executable and control-path resolution"@);
            &&& controls[i].expanded is None ==> section == waiting(
                Seq::empty(),
                DoctorQuestion::QueryControlPath(
                    i as nat,
                    control_path_query_model(runtime.directory, publication),
                ),
            )
            &&& controls[i].expanded == Some(expanded) && expansion(
                expanded,
                runtime.directory,
                publication,
            ) == Err::<Seq<u8>, Failure>(failure) ==> section == complete(
                seq![
                    fail_row(
                        service + " ssh executable and control-path resolution: "@ + detail(
                            message(failure),
                        ),
                    ),
                ],
            )
            &&& controls[i].expanded == Some(expanded) && expansion(
                expanded,
                runtime.directory,
                publication,
            ) == Ok::<Seq<u8>, Failure>(path) ==> section == match probe_step(
                controls[i].entry,
                controls[i].check,
                runtime.uid,
                path,
                publication,
            ) {
                Next::Act(MasterProbeModel::InspectSocket(socket)) => waiting(
                    seq![resolved],
                    DoctorQuestion::InspectSocket(i as nat, socket),
                ),
                Next::Act(MasterProbeModel::CheckMaster(command)) => waiting(
                    seq![resolved],
                    DoctorQuestion::CheckMaster(i as nat, command),
                ),
                Next::Done(Ok(ExistingMaster::Absent)) => complete(
                    seq![
                        resolved,
                        pass_row(service + " local control state: no existing master"@),
                    ],
                ),
                Next::Done(Ok(ExistingMaster::Responding)) => complete(
                    seq![
                        resolved,
                        pass_row(service + " local control state: existing master responds"@),
                    ],
                ),
                Next::Done(Err(reason)) => complete(
                    seq![
                        resolved,
                        fail_row(service + " local control state: "@ + detail(message(reason))),
                    ],
                ),
            }
        }),
{
    let resolved = seq![pass_row(service + " ssh executable and control-path resolution"@)];
    assert forall|row: RowModel| #[trigger] resolved.push(row) == seq![resolved[0], row] by {
        assert(resolved.push(row) =~= seq![resolved[0], row]);
    }
}

/// The configuration of the forwards is examined first, then the runtime directory, then the
/// control state of each forward in order. A failure of the first two ends the examination of
/// OpenSSH, and one remark closes it in every case.
pub proof fn forwards_are_examined_in_order(
    services: Seq<Seq<char>>,
    configuration: Option<Result<Seq<ProviderModel>, Failure>>,
    runtime: RuntimeFacts,
    controls: Seq<ControlFacts>,
    publications: Seq<ProviderModel>,
    failure: Failure,
)
    ensures
        configuration is None ==> forward_checks(services, configuration, runtime, controls)
            == waiting(Seq::empty(), DoctorQuestion::ReadConfiguration),
        configuration == Some(Err::<Seq<ProviderModel>, Failure>(failure)) ==> forward_checks(
            services,
            configuration,
            runtime,
            controls,
        ) == complete(
            seq![
                fail_row(
                    "Provider configuration and desired-slot rules: "@ + detail(message(failure)),
                ),
            ],
        ),
        configuration == Some(Ok::<Seq<ProviderModel>, Failure>(publications)) ==> {
            let configured = pass_row("Provider configuration and desired-slot rules"@);
            match inspect_step(runtime) {
                Next::Act(action) => forward_checks(services, configuration, runtime, controls)
                    == waiting(seq![configured], DoctorQuestion::InspectRuntime(action)),
                Next::Done(Err(reason)) => forward_checks(
                    services,
                    configuration,
                    runtime,
                    controls,
                ) == complete(
                    seq![
                        configured,
                        fail_row("Runtime path inspection: "@ + detail(message(reason))),
                    ],
                ),
                Next::Done(Ok(found)) => forward_checks(services, configuration, runtime, controls)
                    == (Section {
                    rows: seq![
                        configured,
                        pass_row("Runtime path has no unsafe existing entry"@),
                    ] + controls_section(services, 0, controls, found, publications).rows,
                    question: controls_section(services, 0, controls, found, publications).question,
                }),
            }
        },
        unprobed_row() == info_row(
            "OpenSSH remote reachability, host-key trust, credentials, authentication, forwarding policy, and listener availability were not probed"@,
        ),
        forward_section(services, configuration, runtime, controls) == {
            let checks = forward_checks(services, configuration, runtime, controls);
            Section {
                rows: if checks.question is Some {
                    seq![heading_row("OpenSSH"@)] + checks.rows
                } else {
                    seq![heading_row("OpenSSH"@)] + checks.rows + seq![unprobed_row()]
                },
                question: checks.question,
            }
        },
{
    let configured = seq![pass_row("Provider configuration and desired-slot rules"@)];
    assert forall|row: RowModel| #[trigger] configured.push(row) == seq![configured[0], row] by {
        assert(configured.push(row) =~= seq![configured[0], row]);
    }
}

/// Whether the control state of a forward is fine: it is configured, its control path
/// resolves, and there is nothing at that path or a live control master.
pub open spec fn control_is_fine(
    service: Seq<char>,
    facts: ControlFacts,
    runtime: RuntimeModel,
    configuration: Seq<ProviderModel>,
) -> bool {
    &&& configured(configuration, service) matches Some(publication)
    &&& facts.expanded matches Some(reply)
    &&& expansion(reply, runtime.directory, publication) matches Ok(path)
    &&& probe_step(facts.entry, facts.check, runtime.uid, path, publication) matches Next::Done(
        Ok(_),
    )
}

/// Whether a project is ready to be applied, as far as was looked: every publisher is one of
/// the two, no two Serve publications share a port, every backend was reached, the client can
/// be used and the slot of every Serve publication permits it at the port that its service
/// declares, and the forwards are configured, in safe directories, and fine.
pub open spec fn project_is_ready(facts: DoctorFacts, project: ProjectModel) -> bool {
    let forwards = desired_services(project.publications, "openssh-reverse-tcp"@);
    let ports = backend_ports(project.services, project.publications);
    &&& forall|i: int|
        0 <= i < project.publications.len() ==> (#[trigger] project.publications[i]).publisher
            == "tailscale-serve-tcp"@ || project.publications[i].publisher
            == "openssh-reverse-tcp"@
    &&& !ambiguous_serve(project.services, project.publications)
    &&& ports.len() <= facts.backends@.len()
    &&& forall|k: int| 0 <= k < ports.len() ==> #[trigger] facts.backends@[k]
    &&& forall|i: int|
        0 <= i < project.publications.len() && (#[trigger] project.publications[i]).publisher
            == "tailscale-serve-tcp"@ ==> {
            &&& facts.client matches Some(client) && node_name(client) is Ok
            &&& facts.serve matches Some(reply) && slot_permits(
                reply,
                last_port(project.services, project.publications[i].service)->0,
            )
        }
    &&& forwards.len() > 0 ==> {
        &&& project_configuration(facts.configuration, project) matches Some(Ok(configuration))
        &&& inspect_step(facts.runtime) matches Next::Done(Ok(runtime))
        &&& forwards.len() <= facts.controls@.len()
        &&& forall|k: int|
            0 <= k < forwards.len() ==> control_is_fine(
                #[trigger] forwards[k],
                facts.controls@[k],
                runtime,
                configuration,
            )
    }
}

proof fn lemma_no_failures(rows: Seq<RowModel>)
    ensures
        failures(rows) == 0 <==> forall|i: int|
            0 <= i < rows.len() ==> (#[trigger] rows[i]).kind != RowKind::Fail,
{
    ready_means_nothing_failed(rows);
}

proof fn lemma_backends_ready(facts: DoctorFacts, project: ProjectModel)
    requires
        backend_section(
            backend_entries(project.services, project.publications),
            facts.backends@,
            0,
        ).question is None,
    ensures
        ({
            let ports = backend_ports(project.services, project.publications);
            failures(
                backend_section(
                    backend_entries(project.services, project.publications),
                    facts.backends@,
                    0,
                ).rows,
            ) == 0 <==> ports.len() <= facts.backends@.len() && forall|k: int|
                0 <= k < ports.len() ==> #[trigger] facts.backends@[k]
        }),
{
    let entries = backend_entries(project.services, project.publications);
    let ports = backend_ports(project.services, project.publications);
    let answers = facts.backends@;
    let rows = backend_section(entries, answers, 0).rows;
    doctor_and_apply_check_the_same_backends(project.services, project.publications);
    assert(entry_ports(entries).len() == entries.len());
    lemma_backend_question(entries, answers, 0);
    backends_are_judged_by_their_answers(entries, answers, 0);
    lemma_no_failures(rows);
    assert forall|k: int| 0 <= k < entries.len() implies ((#[trigger] rows[k]).kind == RowKind::Fail)
        == !answers[k] by {
        let same = k - 0;
        assert(rows[same] == rows[k]);
    }
    if failures(rows) == 0 {
        assert forall|k: int| 0 <= k < ports.len() implies #[trigger] answers[k] by {
            assert(rows[k].kind != RowKind::Fail);
        }
    }
    if forall|k: int| 0 <= k < ports.len() ==> #[trigger] answers[k] {
        assert forall|k: int| 0 <= k < rows.len() implies (#[trigger] rows[k]).kind
            != RowKind::Fail by {
            assert(answers[k]);
        }
    }
}

proof fn lemma_overview_ready(project: ProjectModel)
    requires
        project.valid(),
    ensures
        failures(overview_rows(project)) == 0 <==> {
            &&& forall|i: int|
                0 <= i < project.publications.len() ==> (
                #[trigger] project.publications[i]).publisher == "tailscale-serve-tcp"@
                    || project.publications[i].publisher == "openssh-reverse-tcp"@
            &&& !ambiguous_serve(project.services, project.publications)
        },
        desired_serve(project.services, project.publications).len() == 0 ==> forall|i: int|
            0 <= i < project.publications.len() ==> (#[trigger] project.publications[i]).publisher
                != "tailscale-serve-tcp"@,
{
    let rows = overview_rows(project);
    let services = project.services;
    let publications = project.publications;
    overviews_judge_the_project(project);
    lemma_no_failures(rows);
    assert forall|i: int| 0 <= i < publications.len() implies supported(
        (#[trigger] publications[i]).publisher,
    ) == (publications[i].publisher == "tailscale-serve-tcp"@ || publications[i].publisher
        == "openssh-reverse-tcp"@) by {
        two_publishers_are_supported(publications[i].publisher);
    }
    if desired_serve(services, publications).len() == 0 {
        assert forall|i: int| 0 <= i < publications.len() implies (
        #[trigger] publications[i]).publisher != "tailscale-serve-tcp"@ by {
            if publications[i].publisher == "tailscale-serve-tcp"@ {
                assert(declares(services, publications[i].service));
                let k = choose|k: int|
                    0 <= k < services.len() && (#[trigger] services[k]).name
                        == publications[i].service;
                serve_slots_belong_to_their_services(services, publications, i, k);
            }
        }
        assert(!ambiguous_serve(services, publications)) by {
            assert forall|i: int| 0 <= i < publications.len() implies !#[trigger] is_serve(
                publications,
                i,
            ) by {
                assert(publications[i].publisher != "tailscale-serve-tcp"@);
            }
        }
    }
    let all_supported = forall|i: int|
        0 <= i < publications.len() ==> supported((#[trigger] publications[i]).publisher);
    let all_known = forall|i: int|
        0 <= i < publications.len() ==> (#[trigger] publications[i]).publisher
            == "tailscale-serve-tcp"@ || publications[i].publisher == "openssh-reverse-tcp"@;
    assert(all_supported == all_known);
    assert((rows[1].kind == RowKind::Fail) == !all_supported);
    if failures(rows) == 0 {
        assert(rows[1].kind != RowKind::Fail);
        if desired_serve(services, publications).len() > 0 {
            assert(rows[2].kind != RowKind::Fail);
        }
    }
    if all_known && !ambiguous_serve(services, publications) {
        assert forall|i: int| 0 <= i < rows.len() implies (#[trigger] rows[i]).kind
            != RowKind::Fail by {
            if desired_serve(services, publications).len() > 0 {
                assert(i == 0 || i == 1 || i == 2 || i == 3);
            } else {
                assert(i == 0 || i == 1 || i == 2);
            }
        }
    }
}

proof fn lemma_serve_ready(facts: DoctorFacts, project: ProjectModel)
    requires
        project.valid(),
        examines_serve(project),
        serve_section(
            facts.client,
            facts.serve,
            desired_serve(project.services, project.publications),
        ).question is None,
    ensures
        failures(
            serve_section(
                facts.client,
                facts.serve,
                desired_serve(project.services, project.publications),
            ).rows,
        ) == 0 <==> forall|i: int|
            0 <= i < project.publications.len() && (#[trigger] project.publications[i]).publisher
                == "tailscale-serve-tcp"@ ==> {
                &&& facts.client matches Some(client) && node_name(client) is Ok
                &&& facts.serve matches Some(reply) && slot_permits(
                    reply,
                    last_port(project.services, project.publications[i].service)->0,
                )
            },
{
    let services = project.services;
    let publications = project.publications;
    let desired = desired_serve(services, publications);
    let rows = serve_section(facts.client, facts.serve, desired).rows;
    let client = facts.client->0;
    lemma_no_failures(rows);
    let all_permit = forall|i: int|
        0 <= i < publications.len() && (#[trigger] publications[i]).publisher
            == "tailscale-serve-tcp"@ ==> {
            &&& facts.client matches Some(client) && node_name(client) is Ok
            &&& facts.serve matches Some(reply) && slot_permits(
                reply,
                last_port(services, publications[i].service)->0,
            )
        };
    serve_slots_are_desired(services, publications, 0);
    let first = choose|i: int|
        0 <= i < publications.len() && (#[trigger] publications[i]).publisher
            == "tailscale-serve-tcp"@ && publications[i].service == desired[0].0 && last_port(
            services,
            publications[i].service,
        ) == Some(desired[0].1) && desired_serve(services, publications.take(i)).len() == 0;
    assert(publications[first].publisher == "tailscale-serve-tcp"@);
    if node_name(client) is Err {
        assert(rows[1].kind == RowKind::Fail);
        assert(!all_permit);
    } else {
        let reply = facts.serve->0;
        slots_are_observed_at_their_ports(reply, entry_ports(desired));
        if observations(reply, entry_ports(desired)) is Err {
            assert(rows[2].kind == RowKind::Fail);
            assert(observation(reply, desired[0].1) is Err);
            assert(!slot_permits(reply, desired[0].1));
            assert(!all_permit);
        } else {
            slots_are_judged_at_their_own_port(client, reply, desired, 0);
            clients_are_examined_before_slots(
                client,
                facts.serve,
                reply,
                desired,
                Failure::ClientDown,
            );
            assert(rows.take(2)[0] == rows[0] && rows.take(2)[1] == rows[1]);
            if failures(rows) == 0 {
                assert forall|i: int|
                    0 <= i < publications.len() && (#[trigger] publications[i]).publisher
                        == "tailscale-serve-tcp"@ implies slot_permits(
                    reply,
                    last_port(services, publications[i].service)->0,
                ) by {
                    assert(declares(services, publications[i].service));
                    let k = choose|k: int|
                        0 <= k < services.len() && (#[trigger] services[k]).name
                            == publications[i].service;
                    serve_slots_belong_to_their_services(services, publications, i, k);
                    names_find_their_ports(services, services[k].name, k);
                    let place = desired_serve(services, publications.take(i)).len() as int;
                    slots_are_judged_at_their_own_port(client, reply, desired, place);
                    assert(rows[place + 2].kind != RowKind::Fail);
                }
            }
            if all_permit {
                assert forall|r: int| 0 <= r < rows.len() implies (#[trigger] rows[r]).kind
                    != RowKind::Fail by {
                    if r >= 2 {
                        let place = r - 2;
                        slots_are_judged_at_their_own_port(client, reply, desired, place);
                        serve_slots_are_desired(services, publications, place);
                        let i = choose|i: int|
                            0 <= i < publications.len() && (#[trigger] publications[i]).publisher
                                == "tailscale-serve-tcp"@ && publications[i].service
                                == desired[place].0 && last_port(services, publications[i].service)
                                == Some(desired[place].1) && desired_serve(
                                services,
                                publications.take(i),
                            ).len() == place;
                        assert(publications[i].publisher == "tailscale-serve-tcp"@);
                        assert(rows[place + 2] == rows[r]);
                    }
                }
            }
        }
    }
}

proof fn lemma_controls_ready(
    services: Seq<Seq<char>>,
    i: int,
    controls: Seq<ControlFacts>,
    runtime: RuntimeModel,
    configuration: Seq<ProviderModel>,
)
    requires
        0 <= i <= services.len(),
        controls_section(services, i, controls, runtime, configuration).question is None,
        forall|k: int|
            0 <= k < services.len() ==> configured(configuration, #[trigger] services[k]) is Some,
    ensures
        i < services.len() ==> services.len() <= controls.len(),
        failures(controls_section(services, i, controls, runtime, configuration).rows) == 0
            <==> forall|k: int|
            i <= k < services.len() ==> control_is_fine(
                #[trigger] services[k],
                controls[k],
                runtime,
                configuration,
            ),
    decreases services.len() - i,
{
    if i < services.len() {
        let part = control_section(i, services[i], controls, runtime, configuration);
        let rest = controls_section(services, i + 1, controls, runtime, configuration);
        lemma_controls_ready(services, i + 1, controls, runtime, configuration);
        lemma_failures_concat(part.rows, rest.rows);
        let publication = configured(configuration, services[i])->0;
        assert(i < controls.len());
        let expanded = controls[i].expanded->0;
        let path = expansion(expanded, runtime.directory, publication)->Ok_0;
        let failure = expansion(expanded, runtime.directory, publication)->Err_0;
        controls_are_judged_by_their_own_facts(
            i,
            services[i],
            controls,
            runtime,
            configuration,
            publication,
            expanded,
            path,
            failure,
        );
        lemma_no_failures(part.rows);
        assert((failures(part.rows) == 0) == control_is_fine(
            services[i],
            controls[i],
            runtime,
            configuration,
        )) by {
            if expansion(expanded, runtime.directory, publication) is Err {
                assert(part.rows[0].kind == RowKind::Fail);
            } else {
                match probe_step(
                    controls[i].entry,
                    controls[i].check,
                    runtime.uid,
                    path,
                    publication,
                ) {
                    Next::Done(Err(_)) => {
                        assert(part.rows[1].kind == RowKind::Fail);
                    },
                    _ => {
                        assert(forall|r: int|
                            0 <= r < part.rows.len() ==> (#[trigger] part.rows[r]).kind
                                != RowKind::Fail);
                    },
                }
            }
        }
        if forall|k: int|
            i + 1 <= k < services.len() ==> control_is_fine(
                #[trigger] services[k],
                controls[k],
                runtime,
                configuration,
            ) {
            if control_is_fine(services[i], controls[i], runtime, configuration) {
                assert forall|k: int| i <= k < services.len() implies control_is_fine(
                    #[trigger] services[k],
                    controls[k],
                    runtime,
                    configuration,
                ) by {}
            }
        }
    }
}

proof fn lemma_forwards_ready(facts: DoctorFacts, project: ProjectModel)
    requires
        desired_forwards(project).len() > 0,
        forward_section(
            desired_forwards(project),
            project_configuration(facts.configuration, project),
            facts.runtime,
            facts.controls@,
        ).question is None,
    ensures
        ({
            let forwards = desired_forwards(project);
            failures(
                forward_section(
                    forwards,
                    project_configuration(facts.configuration, project),
                    facts.runtime,
                    facts.controls@,
                ).rows,
            ) == 0 <==> {
                &&& project_configuration(facts.configuration, project) matches Some(
                    Ok(configuration),
                )
                &&& inspect_step(facts.runtime) matches Next::Done(Ok(runtime))
                &&& forwards.len() <= facts.controls@.len()
                &&& forall|k: int|
                    0 <= k < forwards.len() ==> control_is_fine(
                        #[trigger] forwards[k],
                        facts.controls@[k],
                        runtime,
                        configuration,
                    )
            }
        }),
{
    let forwards = desired_forwards(project);
    let configuration = project_configuration(facts.configuration, project);
    let checks = forward_checks(forwards, configuration, facts.runtime, facts.controls@);
    let section = forward_section(forwards, configuration, facts.runtime, facts.controls@);
    let failure = configuration->0->Err_0;
    let publications = configuration->0->Ok_0;
    forwards_are_examined_in_order(
        forwards,
        configuration,
        facts.runtime,
        facts.controls@,
        publications,
        failure,
    );
    lemma_failures_concat(seq![heading_row("OpenSSH"@)] + checks.rows, seq![unprobed_row()]);
    lemma_failures_concat(seq![heading_row("OpenSSH"@)], checks.rows);
    lemma_one_row(heading_row("OpenSSH"@));
    lemma_one_row(unprobed_row());
    assert(failures(section.rows) == failures(checks.rows));
    lemma_no_failures(checks.rows);
    if configuration->0 is Err {
        assert(checks.rows[0].kind == RowKind::Fail);
    } else if inspect_step(facts.runtime)->Done_0 is Err {
        assert(checks.rows[1].kind == RowKind::Fail);
    } else {
        let runtime = inspect_step(facts.runtime)->Done_0->Ok_0;
        resolved_publications_are_valid(
            bytes_of(facts.configuration->0),
            service_names(project.services),
            forwards,
            forwards[0],
        );
        assert forall|k: int| 0 <= k < forwards.len() implies configured(
            publications,
            #[trigger] forwards[k],
        ) is Some by {
            resolved_services_are_configured(publications, forwards, k);
        }
        lemma_controls_ready(forwards, 0, facts.controls@, runtime, publications);
        let front = seq![
            pass_row("Provider configuration and desired-slot rules"@),
            pass_row("Runtime path has no unsafe existing entry"@),
        ];
        let rest = controls_section(forwards, 0, facts.controls@, runtime, publications).rows;
        lemma_failures_concat(front, rest);
        lemma_no_failures(front);
        assert(forall|r: int| 0 <= r < front.len() ==> (#[trigger] front[r]).kind != RowKind::Fail);
    }
}

/// A complete report of a project with publications shows no failed check exactly when the
/// project is ready to be applied.
pub proof fn reports_pass_exactly_when_ready(facts: DoctorFacts, project: ProjectModel)
    requires
        project.valid(),
        project.publications.len() > 0,
        project_section(
            facts,
            project,
            project_configuration(facts.configuration, project),
        ).question is None,
    ensures
        failures(
            project_section(
                facts,
                project,
                project_configuration(facts.configuration, project),
            ).rows,
        ) == 0 <==> project_is_ready(facts, project),
{
    let configuration = project_configuration(facts.configuration, project);
    let entries = backend_entries(project.services, project.publications);
    let forwards = desired_forwards(project);
    let overview = complete(overview_rows(project));
    let backends = backend_section(entries, facts.backends@, 0);
    let nothing = complete(Seq::<RowModel>::empty());
    let serve = if examines_serve(project) {
        serve_section(
            facts.client,
            facts.serve,
            desired_serve(project.services, project.publications),
        )
    } else {
        nothing
    };
    let forward = if forwards.len() > 0 {
        forward_section(forwards, configuration, facts.runtime, facts.controls@)
    } else {
        nothing
    };
    let section = project_section(facts, project, configuration);
    assert(section == overview.before(backends).before(serve).before(forward));
    assert(backends.question is None && serve.question is None && forward.question is None);
    assert(section.rows == overview.rows + backends.rows + serve.rows + forward.rows);
    lemma_failures_concat(overview.rows + backends.rows + serve.rows, forward.rows);
    lemma_failures_concat(overview.rows + backends.rows, serve.rows);
    lemma_failures_concat(overview.rows, backends.rows);
    assert(failures(Seq::<RowModel>::empty()) == 0);
    lemma_overview_ready(project);
    lemma_backends_ready(facts, project);
    if examines_serve(project) {
        lemma_serve_ready(facts, project);
    }
    if forwards.len() > 0 {
        lemma_forwards_ready(facts, project);
    }
}

/// When doctor exits with zero on a project, no desired Serve publication has a slot in
/// conflict or one that cannot be classified, and every backend was reached.
pub proof fn exit_zero_means_usable_slots(
    facts: DoctorFacts,
    project: ProjectModel,
    i: int,
    k: int,
)
    requires
        loading_step(facts.project) == LoadingStep::Ready(project),
        doctor_section(facts).question is None,
        exit_code(failures(doctor_section(facts).rows)) == 0,
        0 <= i < project.publications.len(),
        0 <= k < project.services.len(),
        project.publications[i].service == project.services[k].name,
    ensures
        project.publications[i].publisher == "tailscale-serve-tcp"@ ==> (
        facts.serve matches Some(reply) && observation(reply, project.services[k].port) matches Ok(
            state,
        ) && (state == ProviderState::Absent || state == ProviderState::AlreadySatisfied)),
        project_is_ready(facts, project),
{
    let section = project_section(
        facts,
        project,
        project_configuration(facts.configuration, project),
    );
    let front = seq![heading_row("Project"@)].push(pass_row(DECLARATION_PATH@)).push(
        pass_row(PUBLISHING_PATH@),
    );
    assert(doctor_section(facts) == complete(front).before(section));
    lemma_failures_concat(front, section.rows);
    reports_pass_exactly_when_ready(facts, project);
    names_find_their_ports(project.services, project.services[k].name, k);
    assert(project.publications[i].publisher == "tailscale-serve-tcp"@
        || project.publications[i].publisher == "openssh-reverse-tcp"@);
}

/// The report begins with the two project files. A file that cannot be used is a failed check
/// with the detail of its failure, and the last one; a valid one passes, and a project without
/// publications has nothing to check.
pub proof fn reports_begin_with_the_files(
    facts: DoctorFacts,
    declaration: Option<Vec<u8>>,
    publishing: Option<Vec<u8>>,
    services: Seq<ServiceModel>,
    publications: Seq<PublicationModel>,
    failure: Failure,
)
    ensures
        facts.project.declaration is None ==> doctor_section(facts) == waiting(
            seq![heading_row("Project"@)],
            DoctorQuestion::ReadDeclaration,
        ),
        facts.project.declaration == Some(declaration) && loaded_declaration(bytes_of(declaration))
            == Err::<Seq<ServiceModel>, Failure>(failure) ==> doctor_section(facts) == complete(
            seq![
                heading_row("Project"@),
                fail_row("aequimuta.toml: "@ + detail(message(failure))),
            ],
        ),
        facts.project.declaration == Some(declaration) && loaded_declaration(bytes_of(declaration))
            == Ok::<Seq<ServiceModel>, Failure>(services) ==> {
            let declared = seq![heading_row("Project"@), pass_row("aequimuta.toml"@)];
            &&& facts.project.publishing is None ==> doctor_section(facts) == waiting(
                declared,
                DoctorQuestion::ReadPublishing,
            )
            &&& facts.project.publishing == Some(publishing) && loaded_intent(
                bytes_of(publishing),
                services,
            ) == Err::<Seq<PublicationModel>, Failure>(failure) ==> doctor_section(facts)
                == complete(
                declared.push(
                    fail_row("aequimuta.publish.toml: "@ + detail(message(failure))),
                ),
            )
            &&& facts.project.publishing == Some(publishing) && loaded_intent(
                bytes_of(publishing),
                services,
            ) == Ok::<Seq<PublicationModel>, Failure>(publications) ==> {
                let project = ProjectModel { services, publications };
                let rest = project_section(
                    facts,
                    project,
                    project_configuration(facts.configuration, project),
                );
                &&& doctor_section(facts).question == rest.question
                &&& doctor_section(facts).rows == declared.push(pass_row("aequimuta.publish.toml"@))
                    + rest.rows
                &&& publications.len() == 0 ==> rest == complete(
                    seq![info_row("No desired publications to check"@)],
                )
            }
        },
{
    lemma_file_subjects();
    let heading = seq![heading_row("Project"@)];
    let failed = fail_row("aequimuta.toml: "@ + detail(message(failure)));
    assert(heading.push(failed) =~= seq![heading_row("Project"@), failed]);
    assert(heading.push(pass_row("aequimuta.toml"@)) =~= seq![
        heading_row("Project"@),
        pass_row("aequimuta.toml"@),
    ]);
}

proof fn lemma_file_subjects()
    ensures
        DECLARATION_PATH@ == "aequimuta.toml"@,
        PUBLISHING_PATH@ == "aequimuta.publish.toml"@,
        DECLARATION_PATH@ + ": "@ == "aequimuta.toml: "@,
        PUBLISHING_PATH@ + ": "@ == "aequimuta.publish.toml: "@,
{
    reveal_strlit("aequimuta.toml");
    reveal_strlit("aequimuta.publish.toml");
    reveal_strlit(": ");
    reveal_strlit("aequimuta.toml: ");
    reveal_strlit("aequimuta.publish.toml: ");
    assert(DECLARATION_PATH@ + ": "@ =~= "aequimuta.toml: "@);
    assert(PUBLISHING_PATH@ + ": "@ =~= "aequimuta.publish.toml: "@);
}

/// The model of a report is its rows, one for one and in order, each with its own kind and
/// message, and the model of a request is the request with its arguments.
pub proof fn reports_are_shown_as_they_are(
    report: DoctorReport,
    i: int,
    port: u16,
    arguments: Vec<String>,
    runtime: RuntimeAction,
    k: usize,
    command: SshCommand,
    path: Vec<u8>,
)
    ensures
        report@.len() == report.rows@.len(),
        0 <= i < report@.len() ==> report@[i].kind == report.rows@[i].kind && report@[i].message
            == report.rows@[i].message@,
        DoctorRequest::ReadDeclaration.deep_view() == DoctorQuestion::ReadDeclaration,
        DoctorRequest::ReadPublishing.deep_view() == DoctorQuestion::ReadPublishing,
        DoctorRequest::Connect(port).deep_view() == DoctorQuestion::Connect(port),
        DoctorRequest::QueryClient(arguments).deep_view() == DoctorQuestion::QueryClient(
            arguments.deep_view(),
        ),
        DoctorRequest::QueryServe(arguments).deep_view() == DoctorQuestion::QueryServe(
            arguments.deep_view(),
        ),
        DoctorRequest::ReadConfiguration.deep_view() == DoctorQuestion::ReadConfiguration,
        DoctorRequest::InspectRuntime(runtime).deep_view() == DoctorQuestion::InspectRuntime(
            runtime@,
        ),
        DoctorRequest::QueryControlPath(k, command).deep_view() == DoctorQuestion::QueryControlPath(
            k as nat,
            command@,
        ),
        DoctorRequest::InspectSocket(k, path).deep_view() == DoctorQuestion::InspectSocket(
            k as nat,
            path@,
        ),
        DoctorRequest::CheckMaster(k, command).deep_view() == DoctorQuestion::CheckMaster(
            k as nat,
            command@,
        ),
{
}

/// A part of the report is followed by the next one exactly when it waits for nothing.
pub proof fn parts_follow_one_another(first: Section, second: Section)
    ensures
        first.question is Some ==> first.before(second) == first,
        first.question is None ==> first.before(second).rows == first.rows + second.rows
            && first.before(second).question == second.question,
        complete(first.rows).rows == first.rows && complete(first.rows).question is None,
{
}

/// A project with publications is examined as a whole first, then its backends, then the Serve
/// slots if there are Serve publications and they are not ambiguous, and then the forwards if
/// there are any.
pub proof fn projects_are_examined_in_order(
    facts: DoctorFacts,
    project: ProjectModel,
    configuration: Option<Result<Seq<ProviderModel>, Failure>>,
)
    requires
        project.publications.len() > 0,
    ensures
        ({
            let desired = desired_serve(project.services, project.publications);
            let forwards = desired_services(project.publications, "openssh-reverse-tcp"@);
            let front = complete(overview_rows(project)).before(
                backend_section(
                    backend_entries(project.services, project.publications),
                    facts.backends@,
                    0,
                ),
            );
            let slots = if desired.len() > 0 && !ambiguous_serve(
                project.services,
                project.publications,
            ) {
                front.before(serve_section(facts.client, facts.serve, desired))
            } else {
                front.before(complete(Seq::empty()))
            };
            project_section(facts, project, configuration) == if forwards.len() > 0 {
                slots.before(
                    forward_section(forwards, configuration, facts.runtime, facts.controls@),
                )
            } else {
                slots.before(complete(Seq::empty()))
            }
        }),
{
}

/// While a backend was not asked yet, the rows of those before it are there and the next one
/// is connected to.
pub proof fn backends_are_asked_one_by_one(
    entries: Seq<(Seq<char>, u16)>,
    answers: Seq<bool>,
    i: int,
)
    requires
        0 <= i <= answers.len() < entries.len(),
    ensures
        backend_section(entries, answers, i).question == Some(
            DoctorQuestion::Connect(entries[answers.len() as int].1),
        ),
        backend_section(entries, answers, i).rows.len() == answers.len() - i,
    decreases entries.len() - i,
{
    lemma_backend_question(entries, answers, i);
    if i < answers.len() {
        backends_are_asked_one_by_one(entries, answers, i + 1);
    }
}

/// The control states are examined in the order of the forwards. Of a forward that nothing is
/// known of the control path is asked for first, and one without a configuration fails.
pub proof fn controls_are_examined_in_order(
    services: Seq<Seq<char>>,
    i: int,
    controls: Seq<ControlFacts>,
    runtime: RuntimeModel,
    configuration: Seq<ProviderModel>,
    service: Seq<char>,
)
    requires
        0 <= i,
    ensures
        i >= services.len() ==> controls_section(services, i, controls, runtime, configuration)
            == complete(Seq::empty()),
        i < services.len() ==> controls_section(services, i, controls, runtime, configuration)
            == control_section(i, services[i], controls, runtime, configuration).before(
            controls_section(services, i + 1, controls, runtime, configuration),
        ),
        configured(configuration, service) is None ==> control_section(
            i,
            service,
            controls,
            runtime,
            configuration,
        ) == complete(
            seq![
                fail_row(
                    service + " provider configuration: "@ + detail(
                        message(Failure::ConfigurationUnresolved),
                    ),
                ),
            ],
        ),
        configured(configuration, service) is Some && i >= controls.len() ==> control_section(
            i,
            service,
            controls,
            runtime,
            configuration,
        ) == waiting(
            Seq::empty(),
            DoctorQuestion::QueryControlPath(
                i as nat,
                control_path_query_model(
                    runtime.directory,
                    configured(configuration, service)->0,
                ),
            ),
        ),
{
}

} // verus!
