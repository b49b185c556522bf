//! The decisions that lead to an acknowledged forward.

use crate::failure::Failure;
use crate::openssh_reverse_tcp::commands::{
    control_path_query, control_path_query_model, forward_request, forward_request_model,
    forward_result, live_master_pid, live_pid, master_arguments, master_check, master_check_model,
    request_forward, SshCommand, SshCommandModel,
};
use crate::openssh_reverse_tcp::configuration::{ProviderModel, ProviderPublication};
use crate::openssh_reverse_tcp::control_path::{expand_control_path, expansion, SshReply};
use crate::openssh_reverse_tcp::processes::{
    create_or_reuse_master, established_means_live, master_step, MasterAction, MasterActionModel,
    MasterFacts,
};
use crate::openssh_reverse_tcp::runtime::{
    asks_unknown, is_private_socket, known_uid, prepare_runtime_directory, prepare_step,
    prepared_directories_are_found_again, prepared_directories_are_private,
    runtime_steps_make_progress, runtime_unchanged, validate_control_socket, Entry, EntryReply,
    RuntimeAction, RuntimeActionModel, RuntimeFacts, RuntimeModel, RuntimeStep,
};
use crate::paths::copy_bytes;
use crate::publishing::OPENSSH_REVERSE_TCP_PUBLISHER;
use crate::step::Next;
use crate::text::{decimal, decimal_text, text_result};
use vstd::prelude::*;

verus! {

/// What is known while a forward is being ensured.
pub struct ForwardFacts {
    /// Whether the local backend accepted a connection.
    pub reachable: Option<bool>,
    /// What is known of the runtime directory.
    pub runtime: RuntimeFacts,
    /// What became of asking OpenSSH for the control path.
    pub expanded: Option<SshReply>,
    /// What was found at the control path.
    pub entry: Option<EntryReply>,
    /// What became of checking the control master that was found.
    pub check: Option<SshReply>,
    /// What is known of a control master that is started.
    pub master: MasterFacts,
    /// What became of the forwarding request.
    pub forward: Option<SshReply>,
}

impl ForwardFacts {
    /// Nothing is known.
    pub open spec fn unknown() -> ForwardFacts {
        ForwardFacts {
            reachable: None,
            runtime: RuntimeFacts::unknown(),
            expanded: None,
            entry: None,
            check: None,
            master: MasterFacts::unknown(),
            forward: None,
        }
    }

    /// Nothing is known yet.
    pub fn new() -> (facts: ForwardFacts)
        ensures
            facts == Self::unknown(),
    {
        ForwardFacts {
            reachable: None,
            runtime: RuntimeFacts::new(),
            expanded: None,
            entry: None,
            check: None,
            master: MasterFacts::new(),
            forward: None,
        }
    }
}

/// What to do to ensure a forward.
pub enum ForwardAction {
    /// Connect to the local backend on this port.
    Connect(u16),
    /// Do this to prepare the runtime directory.
    Runtime(RuntimeAction),
    /// Run this command to have OpenSSH expand the control path.
    QueryControlPath(SshCommand),
    /// Look at this control path.
    InspectSocket(Vec<u8>),
    /// Run this command to check the control master that was found.
    CheckMaster(SshCommand),
    /// Do this to start a control master.
    Master(MasterAction),
    /// Run this command to request the forward.
    RequestForward(SshCommand),
}

/// The mathematical model of an action.
pub enum ForwardActionModel {
    Connect(u16),
    Runtime(RuntimeActionModel),
    QueryControlPath(SshCommandModel),
    InspectSocket(Seq<u8>),
    CheckMaster(SshCommandModel),
    Master(MasterActionModel),
    RequestForward(SshCommandModel),
}

impl View for ForwardAction {
    type V = ForwardActionModel;

    open spec fn view(&self) -> ForwardActionModel {
        match self {
            ForwardAction::Connect(port) => ForwardActionModel::Connect(*port),
            ForwardAction::Runtime(action) => ForwardActionModel::Runtime(action@),
            ForwardAction::QueryControlPath(command) => ForwardActionModel::QueryControlPath(
                command@,
            ),
            ForwardAction::InspectSocket(path) => ForwardActionModel::InspectSocket(path@),
            ForwardAction::CheckMaster(command) => ForwardActionModel::CheckMaster(command@),
            ForwardAction::Master(action) => ForwardActionModel::Master(action@),
            ForwardAction::RequestForward(command) => ForwardActionModel::RequestForward(command@),
        }
    }
}

/// The mathematical model of what to do next.
pub type ForwardStep = Next<ForwardActionModel, Result<(), Failure>>;

/// The mathematical model of what is decided next.
pub open spec fn forward_model(next: Next<ForwardAction, Result<(), Failure>>) -> ForwardStep {
    match next {
        Next::Act(action) => Next::Act(action@),
        Next::Done(result) => Next::Done(result),
    }
}

/// What to do next to have a live control master at a path. It is done once there is one.
pub open spec fn control_step(
    facts: ForwardFacts,
    path: Seq<u8>,
    uid: u32,
    publication: ProviderModel,
) -> ForwardStep {
    match facts.entry {
        None => Next::Act(ForwardActionModel::InspectSocket(path)),
        Some(EntryReply::Unreadable) => Next::Done(Err(Failure::ControlSocketUnsafe)),
        Some(EntryReply::Present(entry)) => if !is_private_socket(entry, uid) {
            Next::Done(Err(Failure::ControlSocketUnsafe))
        } else {
            match facts.check {
                None => Next::Act(
                    ForwardActionModel::CheckMaster(master_check_model(path, publication)),
                ),
                Some(reply) => match live_pid(reply, Failure::ControlSocketUnsafe) {
                    Err(failure) => Next::Done(Err(failure)),
                    Ok(_) => Next::Done(Ok(())),
                },
            }
        },
        Some(EntryReply::Missing) => match master_step(facts.master, path, publication, uid) {
            Next::Act(action) => Next::Act(ForwardActionModel::Master(action)),
            Next::Done(result) => Next::Done(result),
        },
    }
}

/// What to do next once the control path is known.
pub open spec fn request_step(
    facts: ForwardFacts,
    path: Seq<u8>,
    uid: u32,
    publication: ProviderModel,
    local_port: u16,
) -> ForwardStep {
    match control_step(facts, path, uid, publication) {
        Next::Done(Ok(_)) => match facts.forward {
            None => Next::Act(
                ForwardActionModel::RequestForward(
                    forward_request_model(path, publication, local_port),
                ),
            ),
            Some(reply) => Next::Done(forward_result(reply)),
        },
        step => step,
    }
}

/// What to do next once the runtime directory is prepared.
pub open spec fn session_step(
    facts: ForwardFacts,
    runtime: RuntimeModel,
    local_port: u16,
    publication: ProviderModel,
) -> ForwardStep {
    match facts.expanded {
        None => Next::Act(
            ForwardActionModel::QueryControlPath(
                control_path_query_model(runtime.directory, publication),
            ),
        ),
        Some(reply) => match expansion(reply, runtime.directory, publication) {
            Err(failure) => Next::Done(Err(failure)),
            Ok(path) => request_step(facts, path, runtime.uid, publication, local_port),
        },
    }
}

/// What to do next to ensure a forward.
pub open spec fn forward_step(
    facts: ForwardFacts,
    local_port: u16,
    publication: ProviderModel,
) -> ForwardStep {
    match facts.reachable {
        None => Next::Act(ForwardActionModel::Connect(local_port)),
        Some(false) => Next::Done(Err(Failure::BackendUnreachable(local_port))),
        Some(true) => match prepare_step(facts.runtime) {
            Next::Act(action) => Next::Act(ForwardActionModel::Runtime(action)),
            Next::Done(Err(failure)) => Next::Done(Err(failure)),
            Next::Done(Ok(runtime)) => session_step(facts, runtime, local_port, publication),
        },
    }
}

/// Decides what to do next to have a live control master at a path.
pub fn ensure_master(
    facts: &ForwardFacts,
    path: &Vec<u8>,
    uid: u32,
    publication: &ProviderPublication,
) -> (next: Next<ForwardAction, Result<(), Failure>>)
    ensures
        forward_model(next) == control_step(*facts, path@, uid, publication.deep_view()),
{
    match &facts.entry {
        None => Next::Act(ForwardAction::InspectSocket(copy_bytes(path))),
        Some(EntryReply::Unreadable) => Next::Done(Err(Failure::ControlSocketUnsafe)),
        Some(EntryReply::Present(entry)) => {
            if let Err(failure) = validate_control_socket(entry, uid) {
                return Next::Done(Err(failure));
            }
            match &facts.check {
                None => Next::Act(ForwardAction::CheckMaster(master_check(path, publication))),
                Some(reply) => match live_master_pid(reply, Failure::ControlSocketUnsafe) {
                    Err(failure) => Next::Done(Err(failure)),
                    Ok(_) => Next::Done(Ok(())),
                },
            }
        },
        Some(EntryReply::Missing) => match create_or_reuse_master(
            &facts.master,
            path,
            publication,
            uid,
        ) {
            Next::Act(action) => Next::Act(ForwardAction::Master(action)),
            Next::Done(result) => Next::Done(result),
        },
    }
}

/// Decides what to do next to ensure the forward of a publication.
pub fn ensure(facts: &ForwardFacts, local_port: u16, publication: &ProviderPublication) -> (next:
    Next<ForwardAction, Result<(), Failure>>)
    ensures
        forward_model(next) == forward_step(*facts, local_port, publication.deep_view()),
{
    match facts.reachable {
        None => {
            return Next::Act(ForwardAction::Connect(local_port));
        },
        Some(false) => {
            return Next::Done(Err(Failure::BackendUnreachable(local_port)));
        },
        Some(true) => {},
    }
    let runtime = match prepare_runtime_directory(&facts.runtime) {
        Next::Act(action) => {
            return Next::Act(ForwardAction::Runtime(action));
        },
        Next::Done(Err(failure)) => {
            return Next::Done(Err(failure));
        },
        Next::Done(Ok(runtime)) => runtime,
    };
    let path = match &facts.expanded {
        None => {
            return Next::Act(
                ForwardAction::QueryControlPath(
                    control_path_query(&runtime.directory, publication),
                ),
            );
        },
        Some(reply) => match expand_control_path(reply, &runtime.directory, publication) {
            Ok(path) => path,
            Err(failure) => {
                return Next::Done(Err(failure));
            },
        },
    };
    match ensure_master(facts, &path, runtime.uid, publication) {
        Next::Done(Ok(_)) => match &facts.forward {
            None => Next::Act(
                ForwardAction::RequestForward(forward_request(&path, publication, local_port)),
            ),
            Some(reply) => Next::Done(request_forward(reply)),
        },
        next => next,
    }
}

/// A forward is reported only after its request was acknowledged, for a backend that
/// was reached, in runtime directories that are prepared, over a control master that was
/// found live or was just established.
pub proof fn ensured_means_acknowledged(
    facts: ForwardFacts,
    local_port: u16,
    publication: ProviderModel,
)
    requires
        forward_step(facts, local_port, publication) matches Next::Done(Ok(_)),
    ensures
        facts.reachable == Some(true),
        prepare_step(facts.runtime) matches Next::Done(Ok(_)),
        facts.forward matches Some(reply) && (reply matches SshReply::Exited {
            success,
            stdout,
            stderr,
        } && success),
        ({
            let uid = known_uid(facts.runtime);
            &&& known_path(facts, publication) matches Some(path)
            &&& match facts.entry {
                Some(EntryReply::Present(entry)) => is_private_socket(entry, uid) && (
                facts.check matches Some(reply) && live_pid(
                    reply,
                    Failure::ControlSocketUnsafe,
                ) is Ok),
                Some(EntryReply::Missing) => master_step(
                    facts.master,
                    path,
                    publication,
                    uid,
                ) matches Next::Done(Ok(_)),
                _ => false,
            }
        }),
{
}

/// Nothing is asked of OpenSSH before the local backend was reached and the runtime
/// directory is prepared.
pub proof fn backend_comes_first(facts: ForwardFacts, local_port: u16, publication: ProviderModel)
    ensures
        match forward_step(facts, local_port, publication) {
            Next::Act(ForwardActionModel::Connect(_)) => facts.reachable is None,
            Next::Act(ForwardActionModel::Runtime(_)) => facts.reachable == Some(true),
            Next::Act(_) => facts.reachable == Some(true) && (prepare_step(
                facts.runtime,
            ) matches Next::Done(Ok(_))),
            Next::Done(_) => true,
        },
{
}

/// A control master is started only where nothing was found: an entry that is stale or
/// not private is kept, and makes the operation fail.
pub proof fn existing_entries_are_kept(
    facts: ForwardFacts,
    path: Seq<u8>,
    uid: u32,
    publication: ProviderModel,
)
    ensures
        control_step(facts, path, uid, publication) matches Next::Act(
            ForwardActionModel::Master(_),
        ) ==> facts.entry == Some(EntryReply::Missing),
        (facts.entry matches Some(EntryReply::Present(entry)) && !is_private_socket(entry, uid))
            ==> control_step(facts, path, uid, publication) == ForwardStep::Done(
            Err(Failure::ControlSocketUnsafe),
        ),
        facts.entry is Some && facts.entry != Some(EntryReply::Missing) && (
        facts.check matches Some(reply) && live_pid(reply, Failure::ControlSocketUnsafe) is Err)
            ==> control_step(facts, path, uid, publication) matches Next::Done(Err(_)),
{
}

/// What is reported of a forward that was acknowledged.
pub open spec fn forward_line(
    service: Seq<char>,
    local_port: u16,
    publication: ProviderModel,
) -> Seq<char> {
    "Ensured "@ + service + " via "@ + OPENSSH_REVERSE_TCP_PUBLISHER@ + ": "@ + publication.user
        + "@"@ + publication.host + ":"@ + decimal(publication.ssh_port as nat) + " listen "@
        + publication.listen_address + ":"@ + decimal(publication.listen_port as nat)
        + " -> 127.0.0.1:"@ + decimal(local_port as nat)
        + " (SSH-session-backed; no automatic reconnect)"@
}

/// The mathematical model of what is decided next of a publication.
pub open spec fn forward_line_model(next: Next<ForwardAction, Result<String, Failure>>) -> Next<
    ForwardActionModel,
    Result<Seq<char>, Failure>,
> {
    match next {
        Next::Act(action) => Next::Act(action@),
        Next::Done(result) => Next::Done(text_result(result)),
    }
}

/// What to do next to publish a service from its local port, or the line to report.
pub open spec fn forward_publication_step(
    service: Seq<char>,
    local_port: u16,
    publication: ProviderModel,
    facts: ForwardFacts,
) -> Next<ForwardActionModel, Result<Seq<char>, Failure>> {
    match forward_step(facts, local_port, publication) {
        Next::Act(action) => Next::Act(action),
        Next::Done(Ok(_)) => Next::Done(Ok(forward_line(service, local_port, publication))),
        Next::Done(Err(failure)) => Next::Done(Err(failure)),
    }
}

/// Decides what to do next to publish a service from its local port, and reports it.
pub fn ensure_openssh_publication(
    service_name: &str,
    local_port: u16,
    publication: &ProviderPublication,
    facts: &ForwardFacts,
) -> (next: Next<ForwardAction, Result<String, Failure>>)
    ensures
        forward_line_model(next) == forward_publication_step(
            service_name@,
            local_port,
            publication.deep_view(),
            *facts,
        ),
{
    match ensure(facts, local_port, publication) {
        Next::Act(action) => {
            return Next::Act(action);
        },
        Next::Done(Err(failure)) => {
            return Next::Done(Err(failure));
        },
        Next::Done(Ok(_)) => {},
    }
    let mut line = "Ensured ".to_owned();
    line.append(service_name);
    line.append(" via ");
    line.append(OPENSSH_REVERSE_TCP_PUBLISHER);
    line.append(": ");
    line.append(publication.user.as_str());
    line.append("@");
    line.append(publication.host.as_str());
    line.append(":");
    line.append(decimal_text(publication.ssh_port as u64).as_str());
    line.append(" listen ");
    line.append(publication.listen_address.as_str());
    line.append(":");
    line.append(decimal_text(publication.listen_port as u64).as_str());
    line.append(" -> 127.0.0.1:");
    line.append(decimal_text(local_port as u64).as_str());
    line.append(" (SSH-session-backed; no automatic reconnect)");
    Next::Done(Ok(line))
}

/// Whether a control master answers at a control path.
#[derive(Clone, Copy, PartialEq, Eq, Structural, Debug)]
pub enum ExistingMaster {
    Absent,
    Responding,
}

/// What to do to see whether a control master is there.
pub enum MasterProbe {
    /// Look at this control path.
    InspectSocket(Vec<u8>),
    /// Run this command to check the control master.
    CheckMaster(SshCommand),
}

/// The mathematical model of a probe.
pub enum MasterProbeModel {
    InspectSocket(Seq<u8>),
    CheckMaster(SshCommandModel),
}

impl View for MasterProbe {
    type V = MasterProbeModel;

    open spec fn view(&self) -> MasterProbeModel {
        match self {
            MasterProbe::InspectSocket(path) => MasterProbeModel::InspectSocket(path@),
            MasterProbe::CheckMaster(command) => MasterProbeModel::CheckMaster(command@),
        }
    }
}

/// The mathematical model of what to do next.
pub type ProbeStep = Next<MasterProbeModel, Result<ExistingMaster, Failure>>;

/// The mathematical model of what is decided next.
pub open spec fn probe_model(
    next: Next<MasterProbe, Result<ExistingMaster, Failure>>,
) -> ProbeStep {
    match next {
        Next::Act(probe) => Next::Act(probe@),
        Next::Done(result) => Next::Done(result),
    }
}

/// What to do next to see whether a control master is there.
pub open spec fn probe_step(
    entry: Option<EntryReply>,
    check: Option<SshReply>,
    uid: u32,
    path: Seq<u8>,
    publication: ProviderModel,
) -> ProbeStep {
    match entry {
        None => Next::Act(MasterProbeModel::InspectSocket(path)),
        Some(EntryReply::Missing) => Next::Done(Ok(ExistingMaster::Absent)),
        Some(EntryReply::Unreadable) => Next::Done(Err(Failure::ControlSocketUnsafe)),
        Some(EntryReply::Present(entry)) => if !is_private_socket(entry, uid) {
            Next::Done(Err(Failure::ControlSocketUnsafe))
        } else {
            match check {
                None => Next::Act(
                    MasterProbeModel::CheckMaster(master_check_model(path, publication)),
                ),
                Some(reply) => match live_pid(reply, Failure::ControlSocketUnsafe) {
                    Err(failure) => Next::Done(Err(failure)),
                    Ok(_) => Next::Done(Ok(ExistingMaster::Responding)),
                },
            }
        },
    }
}

/// Decides what to do next to see whether a control master is there. Nothing is
/// started or changed.
pub fn inspect_existing_master(
    entry: &Option<EntryReply>,
    check: &Option<SshReply>,
    uid: u32,
    path: &Vec<u8>,
    publication: &ProviderPublication,
) -> (next: Next<MasterProbe, Result<ExistingMaster, Failure>>)
    ensures
        probe_model(next) == probe_step(*entry, *check, uid, path@, publication.deep_view()),
{
    match entry {
        None => Next::Act(MasterProbe::InspectSocket(copy_bytes(path))),
        Some(EntryReply::Missing) => Next::Done(Ok(ExistingMaster::Absent)),
        Some(EntryReply::Unreadable) => Next::Done(Err(Failure::ControlSocketUnsafe)),
        Some(EntryReply::Present(entry)) => {
            if let Err(failure) = validate_control_socket(entry, uid) {
                return Next::Done(Err(failure));
            }
            match check {
                None => Next::Act(MasterProbe::CheckMaster(master_check(path, publication))),
                Some(reply) => match live_master_pid(reply, Failure::ControlSocketUnsafe) {
                    Err(failure) => Next::Done(Err(failure)),
                    Ok(_) => Next::Done(Ok(ExistingMaster::Responding)),
                },
            }
        },
    }
}

/// Looking for a control master and ensuring one judge what is there alike: a control
/// master that responds is used, one that is not safe is a failure, and one is started
/// only where none is there.
pub proof fn probing_agrees_with_ensuring(
    facts: ForwardFacts,
    path: Seq<u8>,
    uid: u32,
    publication: ProviderModel,
)
    ensures
        match probe_step(facts.entry, facts.check, uid, path, publication) {
            Next::Act(MasterProbeModel::InspectSocket(path)) => control_step(
                facts,
                path,
                uid,
                publication,
            ) == ForwardStep::Act(ForwardActionModel::InspectSocket(path)),
            Next::Act(MasterProbeModel::CheckMaster(command)) => control_step(
                facts,
                path,
                uid,
                publication,
            ) == ForwardStep::Act(ForwardActionModel::CheckMaster(command)),
            Next::Done(Ok(ExistingMaster::Responding)) => control_step(
                facts,
                path,
                uid,
                publication,
            ) matches Next::Done(Ok(_)),
            Next::Done(Ok(ExistingMaster::Absent)) => facts.entry == Some(EntryReply::Missing),
            Next::Done(Err(failure)) => control_step(facts, path, uid, publication)
                == ForwardStep::Done(Err(failure)),
        },
{
}

/// Every action asks for something that is not known yet, but for what starts a control
/// master: that has a time limit of its own.
pub proof fn forwarding_makes_progress(
    facts: ForwardFacts,
    local_port: u16,
    publication: ProviderModel,
)
    ensures
        match forward_step(facts, local_port, publication) {
            Next::Act(ForwardActionModel::Connect(_)) => facts.reachable is None,
            Next::Act(ForwardActionModel::Runtime(action)) => asks_unknown(
                facts.runtime,
                Next::Act(action),
            ),
            Next::Act(ForwardActionModel::QueryControlPath(_)) => facts.expanded is None,
            Next::Act(ForwardActionModel::InspectSocket(_)) => facts.entry is None,
            Next::Act(ForwardActionModel::CheckMaster(_)) => facts.check is None,
            Next::Act(ForwardActionModel::Master(_)) => facts.entry == Some(EntryReply::Missing),
            Next::Act(ForwardActionModel::RequestForward(_)) => facts.forward is None,
            Next::Done(_) => true,
        },
{
    runtime_steps_make_progress(facts.runtime);
}

/// A control master is started, checked and asked for the forward at one and the same
/// control path: the one that belongs to the destination, in the prepared directory.
pub proof fn one_control_path_is_used(
    facts: ForwardFacts,
    local_port: u16,
    publication: ProviderModel,
)
    ensures
        match forward_step(facts, local_port, publication) {
            Next::Act(ForwardActionModel::InspectSocket(path)) => known_path(facts, publication)
                == Some(path),
            Next::Act(ForwardActionModel::CheckMaster(command)) => known_path(
                facts,
                publication,
            ) matches Some(path) && command == master_check_model(path, publication),
            Next::Act(ForwardActionModel::Master(action)) => known_path(
                facts,
                publication,
            ) matches Some(path) && match action {
                MasterActionModel::Spawn(arguments) => arguments == master_arguments(
                    path,
                    publication,
                ),
                MasterActionModel::InspectSocket(socket) => socket == path,
                MasterActionModel::CheckMaster(command) => command == master_check_model(
                    path,
                    publication,
                ),
                _ => true,
            },
            Next::Act(ForwardActionModel::RequestForward(command)) => known_path(
                facts,
                publication,
            ) matches Some(path) && command == forward_request_model(path, publication, local_port),
            _ => true,
        },
{
}

/// The control path that is known for a publication.
pub open spec fn known_path(facts: ForwardFacts, publication: ProviderModel) -> Option<Seq<u8>> {
    match (prepare_step(facts.runtime), facts.expanded) {
        (Next::Done(Ok(runtime)), Some(reply)) => match expansion(
            reply,
            runtime.directory,
            publication,
        ) {
            Ok(path) => Some(path),
            Err(_) => None,
        },
        _ => None,
    }
}

/// What was seen last at the control path.
pub open spec fn entry_seen_last(facts: ForwardFacts) -> Option<EntryReply> {
    if facts.entry == Some(EntryReply::Missing) {
        facts.master.entry
    } else {
        facts.entry
    }
}

/// What the control master answered last.
pub open spec fn check_seen_last(facts: ForwardFacts) -> Option<SshReply> {
    if facts.entry == Some(EntryReply::Missing) {
        facts.master.check
    } else {
        facts.check
    }
}

/// Whether all that is known in a later run of a forward is as it was seen last before.
pub open spec fn forward_unchanged(first: ForwardFacts, again: ForwardFacts) -> bool {
    &&& again.reachable is Some ==> again.reachable == first.reachable
    &&& runtime_unchanged(first.runtime, again.runtime)
    &&& again.expanded is Some ==> again.expanded == first.expanded
    &&& again.entry is Some ==> again.entry == entry_seen_last(first)
    &&& again.check is Some ==> again.check == check_seen_last(first)
    &&& again.forward is Some ==> again.forward == first.forward
}

/// A forward that was ensured is ensured again as long as nothing changes: it is requested
/// once more over the same control master, and neither a directory nor a control master is
/// made anew.
pub proof fn ensured_forwards_are_ensured_again(
    first: ForwardFacts,
    again: ForwardFacts,
    local_port: u16,
    publication: ProviderModel,
)
    requires
        forward_step(first, local_port, publication) matches Next::Done(Ok(_)),
        forward_unchanged(first, again),
    ensures
        match forward_step(again, local_port, publication) {
            Next::Act(ForwardActionModel::Runtime(action)) => !(action is Create),
            Next::Act(ForwardActionModel::RequestForward(command)) => known_path(
                first,
                publication,
            ) matches Some(path) && command == forward_request_model(path, publication, local_port),
            Next::Act(action) => !(action is Master),
            Next::Done(result) => result is Ok && again.forward is Some,
        },
{
    let runtime = prepare_step(first.runtime)->Done_0->Ok_0;
    prepared_directories_are_found_again(first.runtime, again.runtime, runtime);
    prepared_directories_are_private(first.runtime, runtime);
    ensured_means_acknowledged(first, local_port, publication);
    let path = known_path(first, publication)->0;
    if first.entry == Some(EntryReply::Missing) {
        established_means_live(first.master, path, publication, runtime.uid);
    }
}

/// What is reported of a forward names the service, the destination as `user@host:port`, the
/// listener and the local port.
pub proof fn lines_tell_what_was_forwarded(
    service: Seq<char>,
    local_port: u16,
    publication: ProviderModel,
)
    ensures
        forward_line(service, local_port, publication) == "Ensured "@ + service
            + " via openssh-reverse-tcp: "@ + publication.user + "@"@ + publication.host + ":"@
            + decimal(publication.ssh_port as nat) + " listen "@ + publication.listen_address
            + ":"@ + decimal(publication.listen_port as nat) + " -> 127.0.0.1:"@ + decimal(
            local_port as nat,
        ) + " (SSH-session-backed; no automatic reconnect)"@,
{
    reveal_strlit(" via ");
    reveal_strlit("openssh-reverse-tcp");
    reveal_strlit(": ");
    reveal_strlit(" via openssh-reverse-tcp: ");
    assert(" via "@ + "openssh-reverse-tcp"@ + ": "@ =~= " via openssh-reverse-tcp: "@);
    assert(forward_line(service, local_port, publication) =~= "Ensured "@ + service + (" via "@
        + "openssh-reverse-tcp"@ + ": "@) + publication.user + "@"@ + publication.host + ":"@
        + decimal(publication.ssh_port as nat) + " listen "@ + publication.listen_address + ":"@
        + decimal(publication.listen_port as nat) + " -> 127.0.0.1:"@ + decimal(local_port as nat)
        + " (SSH-session-backed; no automatic reconnect)"@);
}

/// A forward is ensured in this order: the backend on the local port is reached, the runtime
/// directory is prepared, the control path is resolved in it, a control master is there, and
/// the forward is requested. What fails on the way is the failure.
pub proof fn forwards_are_ensured_in_order(
    facts: ForwardFacts,
    local_port: u16,
    publication: ProviderModel,
    runtime: RuntimeModel,
    path: Seq<u8>,
    expanded: SshReply,
    reply: SshReply,
)
    ensures
        facts.reachable is None ==> forward_step(facts, local_port, publication)
            == ForwardStep::Act(ForwardActionModel::Connect(local_port)),
        facts.reachable == Some(false) ==> forward_step(facts, local_port, publication)
            == ForwardStep::Done(Err(Failure::BackendUnreachable(local_port))),
        facts.reachable == Some(true) ==> match prepare_step(facts.runtime) {
            Next::Act(action) => forward_step(facts, local_port, publication) == ForwardStep::Act(
                ForwardActionModel::Runtime(action),
            ),
            Next::Done(Err(failure)) => forward_step(facts, local_port, publication)
                == ForwardStep::Done(Err(failure)),
            Next::Done(Ok(_)) => true,
        },
        facts.reachable == Some(true) && prepare_step(facts.runtime) == RuntimeStep::Done(
            Ok(runtime),
        ) ==> {
            &&& facts.expanded is None ==> forward_step(facts, local_port, publication)
                == ForwardStep::Act(
                ForwardActionModel::QueryControlPath(
                    control_path_query_model(runtime.directory, publication),
                ),
            )
            &&& facts.expanded == Some(expanded) ==> match expansion(
                expanded,
                runtime.directory,
                publication,
            ) {
                Err(failure) => forward_step(facts, local_port, publication) == ForwardStep::Done(
                    Err(failure),
                ),
                Ok(found) => found == path ==> match control_step(
                    facts,
                    path,
                    runtime.uid,
                    publication,
                ) {
                    Next::Act(action) => forward_step(facts, local_port, publication)
                        == ForwardStep::Act(action),
                    Next::Done(Err(failure)) => forward_step(facts, local_port, publication)
                        == ForwardStep::Done(Err(failure)),
                    Next::Done(Ok(_)) => {
                        &&& facts.forward is None ==> forward_step(facts, local_port, publication)
                            == ForwardStep::Act(
                            ForwardActionModel::RequestForward(
                                forward_request_model(path, publication, local_port),
                            ),
                        )
                        &&& facts.forward == Some(reply) ==> forward_step(
                            facts,
                            local_port,
                            publication,
                        ) == ForwardStep::Done(forward_result(reply))
                    },
                },
            }
        },
{
}

/// What is at the control path decides: nothing lets a control master be started, a private
/// socket is checked and used when a live master answers there, and everything else is unsafe.
pub proof fn control_paths_are_judged_by_their_entry(
    facts: ForwardFacts,
    path: Seq<u8>,
    uid: u32,
    publication: ProviderModel,
    entry: Entry,
    reply: SshReply,
)
    ensures
        facts.entry is None ==> control_step(facts, path, uid, publication) == ForwardStep::Act(
            ForwardActionModel::InspectSocket(path),
        ) && probe_step(facts.entry, facts.check, uid, path, publication) == ProbeStep::Act(
            MasterProbeModel::InspectSocket(path),
        ),
        facts.entry == Some(EntryReply::Unreadable) || (facts.entry == Some(
            EntryReply::Present(entry),
        ) && !is_private_socket(entry, uid)) ==> control_step(facts, path, uid, publication)
            == ForwardStep::Done(Err(Failure::ControlSocketUnsafe)) && probe_step(
            facts.entry,
            facts.check,
            uid,
            path,
            publication,
        ) == ProbeStep::Done(Err(Failure::ControlSocketUnsafe)),
        facts.entry == Some(EntryReply::Missing) ==> probe_step(
            facts.entry,
            facts.check,
            uid,
            path,
            publication,
        ) == ProbeStep::Done(Ok(ExistingMaster::Absent)) && match master_step(
            facts.master,
            path,
            publication,
            uid,
        ) {
            Next::Act(action) => control_step(facts, path, uid, publication) == ForwardStep::Act(
                ForwardActionModel::Master(action),
            ),
            Next::Done(result) => control_step(facts, path, uid, publication) == ForwardStep::Done(
                result,
            ),
        },
        facts.entry == Some(EntryReply::Present(entry)) && is_private_socket(entry, uid) ==> {
            &&& facts.check is None ==> control_step(facts, path, uid, publication)
                == ForwardStep::Act(
                ForwardActionModel::CheckMaster(master_check_model(path, publication)),
            ) && probe_step(facts.entry, facts.check, uid, path, publication) == ProbeStep::Act(
                MasterProbeModel::CheckMaster(master_check_model(path, publication)),
            )
            &&& facts.check == Some(reply) ==> match live_pid(
                reply,
                Failure::ControlSocketUnsafe,
            ) {
                Ok(_) => (control_step(facts, path, uid, publication) matches Next::Done(Ok(_)))
                    && probe_step(facts.entry, facts.check, uid, path, publication)
                    == ProbeStep::Done(Ok(ExistingMaster::Responding)),
                Err(failure) => control_step(facts, path, uid, publication) == ForwardStep::Done(
                    Err(failure),
                ) && probe_step(facts.entry, facts.check, uid, path, publication)
                    == ProbeStep::Done(Err(failure)),
            }
        },
{
}

/// Publishing asks for what ensuring asks for and fails as it fails, and a success is
/// reported with its line.
pub proof fn publishing_reports_what_was_forwarded(
    service: Seq<char>,
    local_port: u16,
    publication: ProviderModel,
    facts: ForwardFacts,
)
    ensures
        match forward_step(facts, local_port, publication) {
            Next::Act(action) => forward_publication_step(service, local_port, publication, facts)
                == Next::<ForwardActionModel, Result<Seq<char>, Failure>>::Act(action),
            Next::Done(Err(failure)) => forward_publication_step(
                service,
                local_port,
                publication,
                facts,
            ) == Next::<ForwardActionModel, Result<Seq<char>, Failure>>::Done(Err(failure)),
            Next::Done(Ok(_)) => forward_publication_step(service, local_port, publication, facts)
                == Next::<ForwardActionModel, Result<Seq<char>, Failure>>::Done(
                Ok(forward_line(service, local_port, publication)),
            ),
        },
{
}

/// The model of what is decided is what is asked for, with its arguments, or the result.
pub proof fn forwards_are_shown_as_they_are(
    port: u16,
    runtime: RuntimeAction,
    command: SshCommand,
    path: Vec<u8>,
    master: MasterAction,
    action: ForwardAction,
    result: Result<(), Failure>,
    line: String,
    failure: Failure,
)
    ensures
        ForwardAction::Connect(port)@ == ForwardActionModel::Connect(port),
        ForwardAction::Runtime(runtime)@ == ForwardActionModel::Runtime(runtime@),
        ForwardAction::QueryControlPath(command)@ == ForwardActionModel::QueryControlPath(command@),
        ForwardAction::InspectSocket(path)@ == ForwardActionModel::InspectSocket(path@),
        ForwardAction::CheckMaster(command)@ == ForwardActionModel::CheckMaster(command@),
        ForwardAction::Master(master)@ == ForwardActionModel::Master(master@),
        ForwardAction::RequestForward(command)@ == ForwardActionModel::RequestForward(command@),
        MasterProbe::InspectSocket(path)@ == MasterProbeModel::InspectSocket(path@),
        MasterProbe::CheckMaster(command)@ == MasterProbeModel::CheckMaster(command@),
        forward_model(Next::Act(action)) == ForwardStep::Act(action@),
        forward_model(Next::Done(result)) == ForwardStep::Done(result),
        forward_line_model(Next::Act(action)) == Next::<
            ForwardActionModel,
            Result<Seq<char>, Failure>,
        >::Act(action@),
        forward_line_model(Next::Done(Ok(line))) == Next::<
            ForwardActionModel,
            Result<Seq<char>, Failure>,
        >::Done(Ok(line@)),
        forward_line_model(Next::Done(Err(failure))) == Next::<
            ForwardActionModel,
            Result<Seq<char>, Failure>,
        >::Done(Err(failure)),
{
}

/// The model of what a probe decides is what it asks for, or its result.
pub proof fn probes_are_shown_as_they_are(
    probe: MasterProbe,
    result: Result<ExistingMaster, Failure>,
)
    ensures
        probe_model(Next::Act(probe)) == ProbeStep::Act(probe@),
        probe_model(Next::Done(result)) == ProbeStep::Done(result),
{
}

} // verus!
