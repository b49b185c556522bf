use std::collections::{BTreeMap, BTreeSet};

use aequimuta::apply::{apply, ApplyAction, ApplyFacts};
use aequimuta::cli::{parse_command, usage, version, Command};
use aequimuta::doctor::{doctor, ControlFacts, DoctorFacts, DoctorRequest};
use aequimuta::init::{init, CreateReply, InitAction, InitFacts};
use aequimuta::openssh_reverse_tcp::commands::{Argument, SshCommand};
use aequimuta::openssh_reverse_tcp::control_path::SshReply;
use aequimuta::openssh_reverse_tcp::processes::{
    CleanupAction, MasterAction, MasterFacts, SpawnReply, WaitReply,
};
use aequimuta::openssh_reverse_tcp::runtime::{
    Entry, EntryKind, EntryReply, Place, RuntimeAction, RuntimeFacts,
};
use aequimuta::openssh_reverse_tcp::session::{ForwardAction, ForwardFacts};
use aequimuta::outcome::Outcome;
use aequimuta::project::{validate, validate_publishing, ProjectFacts, ValidateAction};
use aequimuta::publish::{publish, CarryAction, CarryFacts, PublishAction, PublishFacts};
use aequimuta::status::{status, StatusAction, StatusFacts};
use aequimuta::tailscale_serve_tcp::{
    ClientReply, EnsureAction, EnsureFacts, ServeConfig, ServeReply, TailnetStatus, TailscaleNode,
    TailscaleStatus, TcpPortHandler,
};
use serde_json::Value;

const DECLARATION_FILE: &str = "aequimuta.toml";
const PUBLISHING_FILE: &str = "aequimuta.publish.toml";
const CONFIGURATION_FILE: &str = "aequimuta.openssh-reverse-tcp.toml";
const TAILSCALE_PUBLISHER: &str = "tailscale-serve-tcp";
const OPENSSH_PUBLISHER: &str = "openssh-reverse-tcp";
const RUNTIME: &str = "/run/user/1000";
const USER: u32 = 1000;
const OPENSSH_CONTROL_FILE: &str = "cm-0123456789abcdef0123456789abcdef01234567";
const GOOD_CLIENT: &str = r#"{"BackendState":"Running","Self":{"DNSName":"publish-test.example.ts.net.","Online":true},"CurrentTailnet":{"MagicDNSEnabled":true}}"#;

fn boolean(value: Option<&Value>) -> Option<bool> {
    match value {
        None => Some(false),
        Some(value) => value.as_bool(),
    }
}

fn string(value: Option<&Value>) -> Option<String> {
    match value {
        None => Some(String::new()),
        Some(value) => value.as_str().map(str::to_owned),
    }
}

fn handler(value: &Value) -> Option<TcpPortHandler> {
    let fields = value.as_object()?;
    let known = ["HTTPS", "HTTP", "TCPForward", "TerminateTLS", "ProxyProtocol"];
    if fields.keys().any(|key| !known.contains(&key.as_str())) {
        return None;
    }
    Some(TcpPortHandler {
        https: boolean(fields.get("HTTPS"))?,
        http: boolean(fields.get("HTTP"))?,
        tcp_forward: string(fields.get("TCPForward"))?,
        terminate_tls: string(fields.get("TerminateTLS"))?,
        proxy_protocol: match fields.get("ProxyProtocol") {
            None => 0,
            Some(value) => value.as_i64()?,
        },
    })
}

fn serve_config(value: &Value) -> Option<ServeConfig> {
    let fields = value.as_object()?;
    let known = ["TCP", "Web", "Services", "AllowFunnel", "Foreground"];
    if fields.keys().any(|key| !known.contains(&key.as_str())) {
        return None;
    }
    let mut config = ServeConfig::default();
    if let Some(tcp) = fields.get("TCP") {
        for (key, value) in tcp.as_object()? {
            config.tcp.push((key.clone(), handler(value)?));
        }
    }
    if let Some(web) = fields.get("Web") {
        config.web.extend(web.as_object()?.keys().cloned());
    }
    if let Some(services) = fields.get("Services") {
        services.as_object()?;
    }
    if let Some(funnel) = fields.get("AllowFunnel") {
        for (key, value) in funnel.as_object()? {
            config.allow_funnel.push((key.clone(), value.as_bool()?));
        }
    }
    if let Some(foreground) = fields.get("Foreground") {
        for value in foreground.as_object()?.values() {
            config.foreground.push(serve_config(value)?);
        }
    }
    Some(config)
}

fn decode_serve(stdout: &[u8]) -> Option<Option<ServeConfig>> {
    let value: Value = serde_json::from_slice(stdout).ok()?;
    if value.is_null() {
        return Some(None);
    }
    serve_config(&value).map(Some)
}

fn decode_client(stdout: &[u8]) -> Option<TailscaleStatus> {
    let value: Value = serde_json::from_slice(stdout).ok()?;
    let fields = value.as_object()?;
    let local_node = match fields.get("Self") {
        None | Some(Value::Null) => None,
        Some(node) => Some(TailscaleNode {
            dns_name: node.get("DNSName")?.as_str()?.to_owned(),
            online: node.get("Online")?.as_bool()?,
        }),
    };
    let current_tailnet = match fields.get("CurrentTailnet") {
        None | Some(Value::Null) => None,
        Some(tailnet) => Some(TailnetStatus {
            magic_dns_enabled: tailnet.get("MagicDNSEnabled")?.as_bool()?,
        }),
    };
    Some(TailscaleStatus {
        backend_state: fields.get("BackendState")?.as_str()?.to_owned(),
        local_node,
        current_tailnet,
    })
}

/// A Tailscale client that keeps its Serve state, or shows a fixed one.
struct FakeTailscale {
    /// The answer to `status --json`, or a failure.
    client: Option<String>,
    /// A fixed answer to `serve status --json`; otherwise the mappings are shown.
    serve: Option<String>,
    serve_fails: bool,
    mapped: BTreeSet<u16>,
    /// The port whose mapping fails.
    failing_port: Option<u16>,
    /// What the mappings look like after a change, in place of the real ones.
    serve_after: Option<String>,
}

impl FakeTailscale {
    fn new() -> FakeTailscale {
        FakeTailscale {
            client: Some(GOOD_CLIENT.to_owned()),
            serve: None,
            serve_fails: false,
            mapped: BTreeSet::new(),
            failing_port: None,
            serve_after: None,
        }
    }

    fn showing(serve: &str) -> FakeTailscale {
        let mut fake = FakeTailscale::new();
        fake.serve = Some(serve.to_owned());
        fake
    }

    fn serve_output(&self) -> String {
        if let Some(serve) = &self.serve {
            return serve.clone();
        }
        let mut entries: Vec<String> = Vec::new();
        for port in &self.mapped {
            entries.push(format!(r#""{port}":{{"TCPForward":"127.0.0.1:{port}"}}"#));
        }
        format!(r#"{{"TCP":{{{}}}}}"#, entries.join(","))
    }
}

/// An OpenSSH client with at most one control master per control path.
struct FakeSsh {
    /// What `ssh -G` prints; `None` fails.
    expansion: Option<String>,
    masters: BTreeMap<Vec<u8>, u32>,
    /// Whether a started master binds its socket.
    binds: bool,
    /// Whether a started master exits at once.
    exits: bool,
    failing_local_port: Option<u16>,
    next_pid: u32,
    started: usize,
    killed: Vec<u32>,
    /// The control path, process and start of the master that is starting.
    starting: (Vec<u8>, u32, u64),
}

impl FakeSsh {
    fn new() -> FakeSsh {
        FakeSsh {
            expansion: Some(format!(
                "host edge\ncontrolpath {RUNTIME}/aequimuta/openssh-reverse-tcp/{OPENSSH_CONTROL_FILE}\nport 22\n"
            )),
            masters: BTreeMap::new(),
            binds: true,
            exits: false,
            failing_local_port: None,
            next_pid: 4_000,
            started: 0,
            killed: Vec::new(),
            starting: (Vec::new(), 0, 0),
        }
    }
}

/// Everything outside the library.
struct World {
    files: BTreeMap<&'static str, Vec<u8>>,
    reads: Vec<&'static str>,
    listening: BTreeSet<u16>,
    connections: Vec<u16>,
    tailscale: Option<FakeTailscale>,
    tailscale_calls: Vec<String>,
    ssh: Option<FakeSsh>,
    ssh_calls: Vec<Vec<String>>,
    order: Vec<String>,
    runtime_root: Option<String>,
    entries: BTreeMap<Vec<u8>, (EntryKind, u32, u32)>,
    /// Paths whose canonical form differs.
    canonical: BTreeMap<Vec<u8>, Vec<u8>>,
    clock: u64,
}

struct Output {
    code: u8,
    stdout: String,
    stderr: String,
}

fn lines(all: &[String]) -> String {
    let mut text = String::new();
    for line in all {
        text.push_str(line);
        text.push('\n');
    }
    text
}

fn output(outcome: &Outcome) -> Output {
    Output {
        code: outcome.code,
        stdout: lines(&outcome.stdout),
        stderr: lines(&outcome.stderr),
    }
}

impl World {
    fn new(declaration: &[u8], publishing: &[u8]) -> World {
        let mut files = BTreeMap::new();
        files.insert(DECLARATION_FILE, declaration.to_vec());
        files.insert(PUBLISHING_FILE, publishing.to_vec());
        let mut entries = BTreeMap::new();
        entries.insert(RUNTIME.as_bytes().to_vec(), (EntryKind::Directory, USER, 0o40700));
        World {
            files,
            reads: Vec::new(),
            listening: BTreeSet::new(),
            connections: Vec::new(),
            tailscale: Some(FakeTailscale::new()),
            tailscale_calls: Vec::new(),
            ssh: Some(FakeSsh::new()),
            ssh_calls: Vec::new(),
            order: Vec::new(),
            runtime_root: Some(RUNTIME.to_owned()),
            entries,
            canonical: BTreeMap::new(),
            clock: 0,
        }
    }

    fn configured(mut self, configuration: &[u8]) -> World {
        self.files.insert(CONFIGURATION_FILE, configuration.to_vec());
        self
    }

    fn serving(mut self, ports: &[u16]) -> World {
        self.listening.extend(ports.iter().copied());
        self
    }

    fn provider_directory(&self) -> String {
        format!("{RUNTIME}/aequimuta/openssh-reverse-tcp")
    }

    fn prepare_provider_directory(&mut self) {
        for path in [format!("{RUNTIME}/aequimuta"), self.provider_directory()] {
            self.entries
                .insert(path.into_bytes(), (EntryKind::Directory, USER, 0o40700));
        }
    }

    fn read(&mut self, name: &'static str) -> Option<Vec<u8>> {
        self.reads.push(name);
        self.files.get(name).cloned()
    }

    fn connect(&mut self, port: u16) -> bool {
        self.connections.push(port);
        self.listening.contains(&port)
    }

    fn client(&mut self, arguments: &[String]) -> ClientReply {
        let fake = match &self.tailscale {
            None => return ClientReply::ExecutableMissing,
            Some(fake) => fake,
        };
        self.tailscale_calls.push(arguments.join(" "));
        match &fake.client {
            None => ClientReply::Unsuccessful,
            Some(stdout) => ClientReply::Answered(decode_client(stdout.as_bytes())),
        }
    }

    fn serve(&mut self, arguments: &[String]) -> ServeReply {
        let fake = match &self.tailscale {
            None => return ServeReply::Failed,
            Some(fake) => fake,
        };
        self.tailscale_calls.push(arguments.join(" "));
        if fake.serve_fails {
            return ServeReply::Failed;
        }
        let stdout = fake.serve_output().into_bytes();
        let config = decode_serve(&stdout);
        ServeReply::Answered { stdout, config }
    }

    fn map_port(&mut self, arguments: &[String]) -> bool {
        self.tailscale_calls.push(arguments.join(" "));
        let target = arguments.last().unwrap();
        let port: u16 = target.rsplit(':').next().unwrap().parse().unwrap();
        self.order.push(format!("tailscale {port}"));
        let fake = match &mut self.tailscale {
            None => return false,
            Some(fake) => fake,
        };
        if fake.serve_after.is_some() {
            fake.serve = fake.serve_after.clone();
        }
        if fake.failing_port == Some(port) {
            return false;
        }
        fake.mapped.insert(port);
        true
    }

    fn perform_serve(&mut self, action: EnsureAction, facts: &mut EnsureFacts) {
        match action {
            EnsureAction::QueryClient(arguments) => facts.client = Some(self.client(&arguments)),
            EnsureAction::Connect(port) => facts.reachable = Some(self.connect(port)),
            EnsureAction::QueryServe(arguments) => facts.before = Some(self.serve(&arguments)),
            EnsureAction::CreateMapping(arguments) => {
                facts.mutation = Some(self.map_port(&arguments));
            }
            EnsureAction::QueryServeAgain(arguments) => {
                facts.after = Some(self.serve(&arguments));
            }
        }
    }

    fn look(&self, path: &[u8]) -> EntryReply {
        match self.entries.get(path) {
            None => EntryReply::Missing,
            Some(&(kind, uid, mode)) => EntryReply::Present(Entry {
                kind,
                uid,
                mode,
                canonical: Some(match self.canonical.get(path) {
                    Some(other) => other.clone(),
                    None => path.to_vec(),
                }),
            }),
        }
    }

    fn perform_runtime(&mut self, action: RuntimeAction, facts: &mut RuntimeFacts) {
        match action {
            RuntimeAction::QueryUser => facts.user = Some(Some(USER)),
            RuntimeAction::QueryRoot => {
                facts.root = Some(self.runtime_root.clone().map(String::into_bytes));
            }
            RuntimeAction::Inspect(Place::Root, path) => {
                facts.root_entry = Some(self.look(&path));
            }
            RuntimeAction::Inspect(Place::Application, path) => {
                facts.application.found = Some(self.look(&path));
            }
            RuntimeAction::Inspect(Place::Provider, path) => {
                facts.provider.found = Some(self.look(&path));
            }
            RuntimeAction::Create(place, path) => {
                self.entries.insert(path, (EntryKind::Directory, USER, 0o40700));
                match place {
                    Place::Root => unreachable!(),
                    Place::Application => facts.application.created = Some(true),
                    Place::Provider => facts.provider.created = Some(true),
                }
            }
            RuntimeAction::InspectAgain(Place::Application, path) => {
                facts.application.found_after = Some(self.look(&path));
            }
            RuntimeAction::InspectAgain(Place::Provider, path) => {
                facts.provider.found_after = Some(self.look(&path));
            }
            RuntimeAction::InspectAgain(Place::Root, _) => unreachable!(),
        }
    }

    fn inspect_runtime(&mut self, action: RuntimeAction, facts: &mut RuntimeFacts) {
        assert!(
            !matches!(action, RuntimeAction::Create(_, _)),
            "an inspection creates nothing"
        );
        self.perform_runtime(action, facts);
    }

    fn run_command(&mut self, command: &SshCommand) -> SshReply {
        let arguments = texts(&command.arguments);
        let fake = match &self.ssh {
            None => return SshReply::ExecutableMissing,
            Some(fake) => fake,
        };
        self.ssh_calls.push(arguments.clone());
        let path = after(&arguments, "-S").into_bytes();
        if arguments.contains(&"-G".to_owned()) {
            return match &fake.expansion {
                None => exited(false, "", "private diagnostic\n"),
                Some(stdout) => exited(true, stdout, ""),
            };
        }
        match after(&arguments, "-O").as_str() {
            "check" => {
                assert!(command.c_locale, "the check runs in the C locale");
                match fake.masters.get(&path) {
                    None => exited(false, "", "Control socket is not live\n"),
                    Some(pid) => exited(true, "", &format!("Master running (pid={pid})\r\n")),
                }
            }
            "forward" => {
                let forward = after(&arguments, "-R");
                let local = forward.rsplit(':').next().unwrap_or("").to_owned();
                self.order.push(format!("openssh {local}"));
                if fake.failing_local_port.map(|port| port.to_string()) == Some(local) {
                    exited(false, "", "super-secret provider diagnostic\n/private/test-key\n")
                } else {
                    exited(true, "", "")
                }
            }
            other => panic!("unexpected request {other}"),
        }
    }

    fn perform_master(&mut self, action: MasterAction, facts: &mut MasterFacts) {
        match action {
            MasterAction::Spawn(arguments) => {
                let arguments = texts(&arguments);
                facts.spawned = Some(match &mut self.ssh {
                    None => SpawnReply::ExecutableMissing,
                    Some(fake) => {
                        let path = after(&arguments, "-S").into_bytes();
                        self.ssh_calls.push(arguments);
                        let pid = fake.next_pid;
                        fake.starting = (path, pid, self.clock);
                        fake.next_pid += 1;
                        fake.started += 1;
                        SpawnReply::Started(pid)
                    }
                });
            }
            MasterAction::ReadClock => {
                let (_, _, start) = self.ssh.as_ref().unwrap().starting;
                facts.elapsed = Some(self.clock - start);
            }
            MasterAction::InspectSocket(path) => facts.entry = Some(self.look(&path)),
            MasterAction::CheckMaster(command) => {
                facts.check = Some(self.run_command(&command));
            }
            MasterAction::TryWait => {
                let fake = self.ssh.as_ref().unwrap();
                facts.waited = Some(if fake.exits {
                    WaitReply::Exited
                } else {
                    WaitReply::Running
                });
            }
            MasterAction::Sleep(duration) => {
                self.clock += duration;
                let fake = self.ssh.as_mut().unwrap();
                let (path, pid, _) = fake.starting.clone();
                if fake.binds {
                    self.entries
                        .insert(path.clone(), (EntryKind::Socket, USER, 0o140600));
                    fake.masters.insert(path, pid);
                }
                facts.begin_round();
            }
            MasterAction::Cleanup(CleanupAction::TryWait) => {
                facts.cleanup.waited = Some(WaitReply::Running);
            }
            MasterAction::Cleanup(CleanupAction::Kill) => {
                let fake = self.ssh.as_mut().unwrap();
                fake.killed.push(fake.starting.1);
                facts.cleanup.killed = Some(true);
            }
            MasterAction::Cleanup(CleanupAction::Wait) => facts.cleanup.reaped = Some(true),
            MasterAction::Cleanup(other) => panic!("unexpected cleanup {other:?}"),
        }
    }

    fn perform_forward(&mut self, action: ForwardAction, facts: &mut ForwardFacts) {
        match action {
            ForwardAction::Connect(port) => facts.reachable = Some(self.connect(port)),
            ForwardAction::Runtime(action) => self.perform_runtime(action, &mut facts.runtime),
            ForwardAction::QueryControlPath(command) => {
                facts.expanded = Some(self.run_command(&command));
            }
            ForwardAction::InspectSocket(path) => facts.entry = Some(self.look(&path)),
            ForwardAction::CheckMaster(command) => {
                facts.check = Some(self.run_command(&command));
            }
            ForwardAction::Master(action) => self.perform_master(action, &mut facts.master),
            ForwardAction::RequestForward(command) => {
                facts.forward = Some(self.run_command(&command));
            }
        }
    }

    fn carry(&mut self, action: CarryAction, facts: &mut CarryFacts) {
        match action {
            CarryAction::Serve(action) => self.perform_serve(action, &mut facts.serve),
            CarryAction::Forward(action) => self.perform_forward(action, &mut facts.forward),
        }
    }

    fn run(&mut self, arguments: &[&str]) -> Output {
        let arguments: Vec<String> = arguments.iter().map(|text| text.to_string()).collect();
        match parse_command(&arguments) {
            Command::Version => output(&version("0.1.0")),
            Command::Usage => output(&usage(&arguments)),
            Command::Init => self.run_init(),
            Command::Validate => {
                let contents = self.read(DECLARATION_FILE);
                output(&validate(&contents))
            }
            Command::ValidatePublishing => self.run_validate_publishing(),
            Command::Doctor => self.run_doctor(),
            Command::Apply => self.run_apply(),
            Command::Publish { service, publisher } => self.run_publish(&service, &publisher),
            Command::Status { service, publisher } => self.run_status(&service, &publisher),
        }
    }

    fn run_init(&mut self) -> Output {
        let mut facts = InitFacts::new();
        loop {
            match init(&facts) {
                InitAction::Create => {
                    facts.created = Some(if self.files.contains_key(DECLARATION_FILE) {
                        CreateReply::AlreadyExists
                    } else {
                        self.files.insert(DECLARATION_FILE, Vec::new());
                        CreateReply::Created
                    });
                }
                InitAction::Write(contents) => {
                    self.files.insert(DECLARATION_FILE, contents);
                    facts.written = Some(Ok(()));
                }
                InitAction::Finish(outcome) => return output(&outcome),
            }
        }
    }

    fn run_validate_publishing(&mut self) -> Output {
        let mut facts = ProjectFacts::new();
        loop {
            match validate_publishing(&facts) {
                ValidateAction::ReadDeclaration => {
                    facts.declaration = Some(self.read(DECLARATION_FILE));
                }
                ValidateAction::ReadPublishing => {
                    facts.publishing = Some(self.read(PUBLISHING_FILE));
                }
                ValidateAction::Finish(outcome) => return output(&outcome),
            }
        }
    }

    fn run_status(&mut self, service: &str, publisher: &str) -> Output {
        let mut facts = StatusFacts::new();
        loop {
            match status(&facts, service, publisher) {
                StatusAction::ReadDeclaration => {
                    facts.project.declaration = Some(self.read(DECLARATION_FILE));
                }
                StatusAction::ReadPublishing => {
                    facts.project.publishing = Some(self.read(PUBLISHING_FILE));
                }
                StatusAction::QueryServe(arguments) => facts.serve = Some(self.serve(&arguments)),
                StatusAction::Finish(outcome) => return output(&outcome),
            }
        }
    }

    fn run_publish(&mut self, service: &str, publisher: &str) -> Output {
        let mut facts = PublishFacts::new();
        loop {
            match publish(&facts, service, publisher) {
                PublishAction::ReadDeclaration => {
                    facts.project.declaration = Some(self.read(DECLARATION_FILE));
                }
                PublishAction::ReadPublishing => {
                    facts.project.publishing = Some(self.read(PUBLISHING_FILE));
                }
                PublishAction::ReadConfiguration => {
                    facts.configuration = Some(self.read(CONFIGURATION_FILE));
                }
                PublishAction::Carry(action) => self.carry(action, &mut facts.publication),
                PublishAction::Finish(outcome) => return output(&outcome),
            }
        }
    }

    fn run_apply(&mut self) -> Output {
        let mut facts = ApplyFacts::new();
        let mut printed: Vec<String> = Vec::new();
        loop {
            match apply(&facts) {
                ApplyAction::ReadDeclaration => {
                    facts.project.declaration = Some(self.read(DECLARATION_FILE));
                }
                ApplyAction::ReadPublishing => {
                    facts.project.publishing = Some(self.read(PUBLISHING_FILE));
                }
                ApplyAction::ReadConfiguration => {
                    facts.configuration = Some(self.read(CONFIGURATION_FILE));
                }
                ApplyAction::Connect(port) => {
                    let reached = self.connect(port);
                    facts.backends.push(reached);
                }
                ApplyAction::InspectRuntime(action) => {
                    self.inspect_runtime(action, &mut facts.runtime);
                }
                ApplyAction::Carry(lines, action) => {
                    assert!(lines.starts_with(&printed), "lines that were printed stay");
                    while facts.publications.len() <= lines.len() {
                        facts.publications.push(CarryFacts::new());
                    }
                    self.carry(action, &mut facts.publications[lines.len()]);
                    printed = lines;
                }
                ApplyAction::Finish(outcome) => {
                    assert!(outcome.stdout.starts_with(&printed), "lines that were printed stay");
                    return output(&outcome);
                }
            }
        }
    }

    fn run_doctor(&mut self) -> Output {
        let mut facts = DoctorFacts::new();
        let mut printed: Vec<String> = Vec::new();
        loop {
            let progress = doctor(&facts);
            let rows: Vec<String> = progress.report.rows.iter().map(|row| row.text()).collect();
            assert!(rows.starts_with(&printed), "rows that were printed stay");
            printed = rows;
            let request = match progress.request {
                Some(request) => request,
                None => {
                    let (line, code) = progress.report.finish();
                    printed.push(line);
                    return Output {
                        code,
                        stdout: lines(&printed),
                        stderr: String::new(),
                    };
                }
            };
            match request {
                DoctorRequest::ReadDeclaration => {
                    facts.project.declaration = Some(self.read(DECLARATION_FILE));
                }
                DoctorRequest::ReadPublishing => {
                    facts.project.publishing = Some(self.read(PUBLISHING_FILE));
                }
                DoctorRequest::Connect(port) => {
                    let reached = self.connect(port);
                    facts.backends.push(reached);
                }
                DoctorRequest::QueryClient(arguments) => {
                    facts.client = Some(self.client(&arguments));
                }
                DoctorRequest::QueryServe(arguments) => facts.serve = Some(self.serve(&arguments)),
                DoctorRequest::ReadConfiguration => {
                    facts.configuration = Some(self.read(CONFIGURATION_FILE));
                }
                DoctorRequest::InspectRuntime(action) => {
                    self.inspect_runtime(action, &mut facts.runtime);
                }
                DoctorRequest::QueryControlPath(i, command) => {
                    while facts.controls.len() <= i {
                        facts.controls.push(ControlFacts::new());
                    }
                    facts.controls[i].expanded = Some(self.run_command(&command));
                }
                DoctorRequest::InspectSocket(i, path) => {
                    facts.controls[i].entry = Some(self.look(&path));
                }
                DoctorRequest::CheckMaster(i, command) => {
                    facts.controls[i].check = Some(self.run_command(&command));
                }
            }
        }
    }
}

fn texts(arguments: &[Argument]) -> Vec<String> {
    arguments
        .iter()
        .map(|argument| match argument {
            Argument::Text(text) => text.clone(),
            Argument::Path(path) => String::from_utf8(path.clone()).unwrap(),
        })
        .collect()
}

fn after(arguments: &[String], flag: &str) -> String {
    let mut following = false;
    for argument in arguments {
        if following {
            return argument.clone();
        }
        following = argument == flag;
    }
    String::new()
}

fn exited(success: bool, stdout: &str, stderr: &str) -> SshReply {
    SshReply::Exited {
        success,
        stdout: stdout.as_bytes().to_vec(),
        stderr: stderr.as_bytes().to_vec(),
    }
}

fn services(all: &[(&str, u16)]) -> Vec<u8> {
    let mut source = String::new();
    for (name, port) in all {
        source.push_str(&format!("[[services]]\nname = \"{name}\"\nport = {port}\n\n"));
    }
    source.into_bytes()
}

fn publications(all: &[(&str, &str)]) -> Vec<u8> {
    let mut source = String::new();
    for (service, publisher) in all {
        source.push_str(&format!(
            "[[publications]]\nservice = \"{service}\"\npublisher = \"{publisher}\"\n\n"
        ));
    }
    source.into_bytes()
}

fn assert_operation_failure(result: &Output, label: &str) {
    assert_eq!(result.code, 1, "{label}: unexpected exit status");
    assert!(result.stdout.is_empty(), "{label}: unexpected stdout");
    assert!(result.stderr.starts_with("error: "), "{label}: {}", result.stderr);
    assert!(result.stderr.ends_with('\n'), "{label}: no final newline");
    assert_eq!(result.stderr.matches('\n').count(), 1, "{label}: not one line");
}

fn assert_exact_failure(result: &Output, expected: &str, label: &str) {
    assert_operation_failure(result, label);
    assert_eq!(result.stderr, expected, "{label}: unexpected stderr");
}

fn read_only_calls() -> Vec<String> {
    vec!["status --json".to_owned(), "serve status --json".to_owned()]
}

fn creation_calls(port: u16) -> Vec<String> {
    vec![
        "status --json".to_owned(),
        "serve status --json".to_owned(),
        format!("serve --bg --tcp={port} tcp://127.0.0.1:{port}"),
        "serve status --json".to_owned(),
    ]
}

fn created_line(service: &str, port: u16) -> String {
    format!("Published {service} via tailscale-serve-tcp at tcp://publish-test.example.ts.net:{port}\n")
}

fn satisfied_line(service: &str, port: u16) -> String {
    format!("Publication already satisfied for {service} via tailscale-serve-tcp at tcp://publish-test.example.ts.net:{port}\n")
}

fn desired_with_unrelated(port: u16) -> String {
    format!(
        r#"{{"TCP":{{"443":{{"HTTPS":true}},"{port}":{{"TCPForward":"127.0.0.1:{port}"}}}},"Web":{{"unrelated.example.ts.net:443":{{"Handlers":{{}}}}}},"Services":{{"svc:unrelated":{{"TCP":{{"{port}":{{"TCPForward":"127.0.0.1:9090"}}}}}}}},"AllowFunnel":{{"unrelated.example.ts.net:443":true}}}}"#
    )
}

fn unrelated(port: u16) -> String {
    format!(
        r#"{{"TCP":{{"443":{{"HTTPS":true}}}},"Web":{{"unrelated.example.ts.net:443":{{"Handlers":{{}}}}}},"Services":{{"svc:unrelated":{{"TCP":{{"{port}":{{"TCPForward":"127.0.0.1:9090"}}}}}}}},"AllowFunnel":{{"unrelated.example.ts.net:443":true}}}}"#
    )
}

#[test]
fn version_prints_package_version() {
    let result = World::new(b"", b"").run(&["version"]);
    assert_eq!((result.code, result.stdout.as_str()), (0, "Aequimuta 0.1.0\n"));
    assert!(result.stderr.is_empty());
}

#[test]
fn init_creates_minimal_declaration() {
    let mut world = World::new(b"", b"");
    world.files.clear();
    let result = world.run(&["init"]);
    assert_eq!(result.code, 0);
    assert_eq!(result.stdout, "Initialized Aequimuta project at aequimuta.toml\n");
    assert!(result.stderr.is_empty());
    assert_eq!(world.files[DECLARATION_FILE], b"# Aequimuta service declarations\n");
    assert_eq!(world.files.len(), 1);
    assert_eq!(world.run(&["validate"]).stdout, "aequimuta.toml is valid\n");
}

#[test]
fn init_does_not_overwrite_existing_declaration() {
    let mut world = World::new(b"existing declaration\n", b"");
    let result = world.run(&["init"]);
    assert_eq!(result.code, 1);
    assert!(result.stdout.is_empty());
    assert_eq!(result.stderr, "error: aequimuta.toml already exists\n");
    assert_eq!(world.files[DECLARATION_FILE], b"existing declaration\n");
}

#[test]
fn init_rejects_additional_arguments() {
    let mut world = World::new(b"", b"");
    world.files.clear();
    let result = world.run(&["init", "extra"]);
    assert_eq!(result.code, 2);
    assert!(result.stdout.is_empty());
    assert_eq!(result.stderr, "Usage: aequimuta <command>\n");
    assert!(world.files.is_empty());
}

#[test]
fn init_reports_the_reason_of_the_system() {
    let refused = InitFacts {
        created: Some(CreateReply::Failed("permission denied".to_owned())),
        written: None,
    };
    let full = InitFacts {
        created: Some(CreateReply::Created),
        written: Some(Err("no space left".to_owned())),
    };
    for (facts, expected) in [
        (refused, "error: failed to create aequimuta.toml: permission denied\n"),
        (full, "error: failed to write aequimuta.toml: no space left\n"),
    ] {
        match init(&facts) {
            InitAction::Finish(outcome) => {
                assert_eq!(outcome.code, 1);
                assert_eq!(lines(&outcome.stderr), expected);
            }
            _ => panic!("the command goes on"),
        }
    }
}

#[test]
fn validate_accepts_valid_declarations() {
    let cases: &[(&str, &[u8])] = &[
        ("validate-comment-only", b"# Aequimuta service declarations\n"),
        ("validate-services-absent", b""),
        ("validate-services-empty", b"services = []\n"),
        (
            "validate-single-minimum-port",
            b"[[services]]\nname = \"web\"\nport = 1\n",
        ),
        (
            "validate-multiple-identity-boundaries",
            br#"[[services]]
name = "web"
port = 8080

[[services]]
name = "api"
port = 8080

[[services]]
name = "Web"
port = 3000

[[services]]
name = "\u00e9"
port = 65535

[[services]]
name = "e\u0301"
port = 4000
"#,
        ),
    ];
    for (label, contents) in cases {
        let result = World::new(contents, b"").run(&["validate"]);
        assert_eq!(result.code, 0, "{label}");
        assert_eq!(result.stdout, "aequimuta.toml is valid\n", "{label}");
        assert!(result.stderr.is_empty(), "{label}");
    }
}

#[test]
fn validate_rejects_invalid_declarations() {
    let cases: &[(&str, &[u8])] = &[
        (
            "validate-duplicate-name",
            b"[[services]]\nname = \"web\"\nport = 8080\n\n[[services]]\nname = \"web\"\nport = 3000\n",
        ),
        ("validate-missing-name", b"[[services]]\nport = 8080\n"),
        ("validate-missing-port", b"[[services]]\nname = \"web\"\n"),
        ("validate-empty-name", b"[[services]]\nname = \"\"\nport = 8080\n"),
        (
            "validate-leading-whitespace-name",
            b"[[services]]\nname = \" web\"\nport = 8080\n",
        ),
        (
            "validate-trailing-whitespace-name",
            b"[[services]]\nname = \"web \"\nport = 8080\n",
        ),
        (
            "validate-control-character-name",
            b"[[services]]\nname = \"we\\u0001b\"\nport = 8080\n",
        ),
        ("validate-zero-port", b"[[services]]\nname = \"web\"\nport = 0\n"),
        (
            "validate-port-above-range",
            b"[[services]]\nname = \"web\"\nport = 65536\n",
        ),
        (
            "validate-port-wrong-type",
            b"[[services]]\nname = \"web\"\nport = \"8080\"\n",
        ),
        (
            "validate-name-wrong-type",
            b"[[services]]\nname = 8080\nport = 8080\n",
        ),
        ("validate-unknown-root-field", b"publisher = \"example\"\n"),
        (
            "validate-unknown-service-field",
            b"[[services]]\nname = \"web\"\nport = 8080\nprotocol = \"tcp\"\n",
        ),
        ("validate-services-wrong-type", b"services = \"web\"\n"),
        ("validate-non-table-service-entry", b"services = [8080]\n"),
        ("validate-malformed-toml", b"[[services]\n"),
    ];
    for (label, contents) in cases {
        let result = World::new(contents, b"").run(&["validate"]);
        assert_exact_failure(
            &result,
            "error: aequimuta.toml is not a valid declaration\n",
            label,
        );
    }
    let result = World::new(&[0xff], b"").run(&["validate"]);
    assert_exact_failure(
        &result,
        "error: aequimuta.toml is not valid UTF-8\n",
        "validate-invalid-utf8",
    );
}

#[test]
fn validate_reports_other_read_errors_without_panicking() {
    let mut world = World::new(b"", b"");
    world.files.remove(DECLARATION_FILE);
    let result = world.run(&["validate"]);
    assert_exact_failure(&result, "error: failed to read aequimuta.toml\n", "read error");
}

#[test]
fn validate_rejects_additional_arguments_before_reading() {
    let mut world = World::new(&[0xff], b"");
    let result = world.run(&["validate", "extra"]);
    assert_eq!(result.code, 2);
    assert!(result.stdout.is_empty());
    assert_eq!(result.stderr, "Usage: aequimuta version\n");
    assert!(world.reads.is_empty());
}

#[test]
fn services_may_be_written_as_arrays() {
    let result = World::new(b"services = [[\"web\", 8080], [\"api\", 9090, true]]\n", b"")
        .run(&["validate"]);
    assert_eq!(result.code, 0);
    for contents in [
        &b"services = [[\"web\", 8080, 99999999999999999999]]\n"[..],
        b"services = [[\"web\", 8080, 99999999999999999999999999999999999999999999]]\n",
        b"services = [[\"web\", 8080, 1e999, { a = 1e999 }, [99999999999999999999]]]\n",
        b"services = [[\"web\", 8080, { \"$__toml_private_datetime\" = \"never\" }]]\n",
    ] {
        assert_eq!(World::new(contents, b"").run(&["validate"]).code, 0);
    }
    let mut world = World::new(
        b"services = [[\"web\", 8080, 99999999999999999999]]\n",
        b"publications = [[\"web\", \"openssh-reverse-tcp\", 99999999999999999999]]\n",
    )
    .configured(
        b"publications = [[\"web\", \"edge\", \"u\", 22, \"127.0.0.1\", 18080, 99999999999999999999]]\n",
    )
    .serving(&[8080]);
    assert_eq!(world.run(&["validate-publishing"]).code, 0);
    assert_eq!(
        world.run(&["publish", "web", OPENSSH_PUBLISHER]).stdout,
        "Ensured web via openssh-reverse-tcp: u@edge:22 listen 127.0.0.1:18080 -> 127.0.0.1:8080 (SSH-session-backed; no automatic reconnect)\n"
    );
    for contents in [
        &b"services = [[\"web\"]]\n"[..],
        b"services = [[\"web\", 99999999999999999999]]\n",
        b"services = [[8080, \"web\"]]\n",
        b"services = [[\"web\", 8080.0]]\n",
        b"services = [1979-05-27]\n",
        b"services = { name = \"web\", port = 8080 }\n",
    ] {
        assert_eq!(World::new(contents, b"").run(&["validate"]).code, 1);
    }
}

const WEB_DECLARATION: &[u8] = b"[[services]]\nname = \"web\"\nport = 8080\n";

#[test]
fn validate_publishing_accepts_valid_intents() {
    let two = services(&[("web", 8080), ("api", 3000)]);
    let capital = services(&[("Web", 8080)]);
    let cases: &[(&str, &[u8], Vec<u8>)] = &[
        ("publishing-empty-file", WEB_DECLARATION, b"".to_vec()),
        ("publishing-whitespace-only", WEB_DECLARATION, b" \n\t\n".to_vec()),
        (
            "publishing-comment-only",
            WEB_DECLARATION,
            b"# No desired publications.\n".to_vec(),
        ),
        (
            "publishing-publications-omitted",
            WEB_DECLARATION,
            b"# The publications field is intentionally omitted.\n".to_vec(),
        ),
        (
            "publishing-empty-collection",
            WEB_DECLARATION,
            b"publications = []\n".to_vec(),
        ),
        (
            "publishing-single-publication",
            WEB_DECLARATION,
            publications(&[("web", "example-publisher")]),
        ),
        (
            "publishing-same-service-different-publishers",
            WEB_DECLARATION,
            publications(&[("web", "example-publisher"), ("web", "another-publisher")]),
        ),
        (
            "publishing-different-services-same-publisher",
            &two,
            publications(&[("web", "example-publisher"), ("api", "example-publisher")]),
        ),
        (
            "publishing-token-single-segment",
            WEB_DECLARATION,
            publications(&[("web", "example")]),
        ),
        (
            "publishing-token-hyphenated",
            WEB_DECLARATION,
            publications(&[("web", "example-publisher")]),
        ),
        (
            "publishing-token-with-digits",
            WEB_DECLARATION,
            publications(&[("web", "publisher2-test3")]),
        ),
        (
            "publishing-exact-service-reference",
            &capital,
            publications(&[("Web", "example-publisher")]),
        ),
    ];
    for (label, declaration, publishing) in cases {
        let result = World::new(declaration, publishing).run(&["validate-publishing"]);
        assert_eq!(result.code, 0, "{label}: {}", result.stderr);
        assert_eq!(result.stdout, "aequimuta.publish.toml is valid\n", "{label}");
        assert!(result.stderr.is_empty(), "{label}");
    }
}

#[test]
fn validate_publishing_rejects_invalid_intents() {
    let cases: &[(&str, Vec<u8>)] = &[
        ("publishing-malformed-toml", b"[[publications]\n".to_vec()),
        ("publishing-invalid-root-type", b"publications = \"web\"\n".to_vec()),
        ("publishing-invalid-entry-shape", b"publications = [8080]\n".to_vec()),
        (
            "publishing-missing-service",
            b"[[publications]]\npublisher = \"example-publisher\"\n".to_vec(),
        ),
        (
            "publishing-missing-publisher",
            b"[[publications]]\nservice = \"web\"\n".to_vec(),
        ),
        (
            "publishing-invalid-service-type",
            b"[[publications]]\nservice = 8080\npublisher = \"example-publisher\"\n".to_vec(),
        ),
        (
            "publishing-invalid-publisher-type",
            b"[[publications]]\nservice = \"web\"\npublisher = 8080\n".to_vec(),
        ),
        (
            "publishing-unknown-service",
            publications(&[("Web", "example-publisher")]),
        ),
        (
            "publishing-duplicate-pair",
            publications(&[("web", "example-publisher"), ("web", "example-publisher")]),
        ),
        (
            "publishing-token-starts-uppercase",
            publications(&[("web", "Example")]),
        ),
        (
            "publishing-token-starts-with-digit",
            publications(&[("web", "2example")]),
        ),
        (
            "publishing-token-leading-hyphen",
            publications(&[("web", "-example")]),
        ),
        (
            "publishing-token-trailing-hyphen",
            publications(&[("web", "example-")]),
        ),
        (
            "publishing-token-consecutive-hyphen",
            publications(&[("web", "example--publisher")]),
        ),
        (
            "publishing-token-contains-dot",
            publications(&[("web", "example.publisher")]),
        ),
        (
            "publishing-token-contains-underscore",
            publications(&[("web", "example_publisher")]),
        ),
        (
            "publishing-token-contains-whitespace",
            publications(&[("web", "example publisher")]),
        ),
        ("publishing-unknown-root-field", b"mode = \"test\"\n".to_vec()),
        (
            "publishing-unknown-publication-field",
            b"[[publications]]\nservice = \"web\"\npublisher = \"example-publisher\"\nmode = \"test\"\n".to_vec(),
        ),
    ];
    for (label, publishing) in cases {
        let result = World::new(WEB_DECLARATION, publishing).run(&["validate-publishing"]);
        assert_exact_failure(
            &result,
            "error: aequimuta.publish.toml is not a valid publishing intent\n",
            label,
        );
    }
    let result = World::new(WEB_DECLARATION, &[0xff]).run(&["validate-publishing"]);
    assert_exact_failure(
        &result,
        "error: aequimuta.publish.toml is not valid UTF-8\n",
        "publishing-invalid-utf8",
    );
}

#[test]
fn validate_publishing_requires_both_input_files() {
    let mut world = World::new(b"", &publications(&[("web", "example-publisher")]));
    world.files.remove(DECLARATION_FILE);
    assert_exact_failure(
        &world.run(&["validate-publishing"]),
        "error: failed to read aequimuta.toml\n",
        "missing declaration",
    );
    let mut world = World::new(WEB_DECLARATION, b"");
    world.files.remove(PUBLISHING_FILE);
    assert_exact_failure(
        &world.run(&["validate-publishing"]),
        "error: failed to read aequimuta.publish.toml\n",
        "missing intent",
    );
}

#[test]
fn validate_publishing_validates_service_declaration_first() {
    let mut world = World::new(b"[[services]\n", b"");
    world.files.remove(PUBLISHING_FILE);
    assert_exact_failure(
        &world.run(&["validate-publishing"]),
        "error: aequimuta.toml is not a valid declaration\n",
        "declaration first",
    );
    assert_eq!(world.reads, [DECLARATION_FILE]);
}

#[test]
fn validate_publishing_rejects_additional_arguments_before_reading() {
    let mut world = World::new(&[0xff], &[0xff]);
    let result = world.run(&["validate-publishing", "extra"]);
    assert_eq!(result.code, 2);
    assert!(result.stdout.is_empty());
    assert_eq!(result.stderr, "Usage: aequimuta <command>\n");
    assert!(world.reads.is_empty());
}

#[test]
fn publish_rejects_invalid_argument_counts_before_reading_files() {
    for arguments in [
        &["publish"][..],
        &["publish", "web"],
        &["publish", "web", TAILSCALE_PUBLISHER, "extra"],
    ] {
        let mut world = World::new(&[0xff], &[0xff]);
        let result = world.run(arguments);
        assert_eq!(result.code, 2);
        assert!(result.stdout.is_empty());
        assert_eq!(result.stderr, "Usage: aequimuta <command>\n");
        assert!(world.reads.is_empty());
    }
}

fn selection_cases(port: u16) -> Vec<(&'static str, Vec<u8>, Vec<u8>, &'static str, &'static str, &'static str)> {
    let web = services(&[("web", port)]);
    let desired = publications(&[("web", TAILSCALE_PUBLISHER)]);
    let unsupported = "error: selected publisher is not supported\n";
    vec![
        (
            "invalid-declaration",
            b"[[services]\n".to_vec(),
            desired.clone(),
            "web",
            TAILSCALE_PUBLISHER,
            "error: aequimuta.toml is not a valid declaration\n",
        ),
        (
            "invalid-publishing-intent",
            web.clone(),
            b"[[publications]\n".to_vec(),
            "web",
            TAILSCALE_PUBLISHER,
            "error: aequimuta.publish.toml is not a valid publishing intent\n",
        ),
        (
            "service-absent",
            web.clone(),
            desired.clone(),
            "missing",
            TAILSCALE_PUBLISHER,
            "error: selected service does not exist\n",
        ),
        (
            "service-identity-is-case-sensitive",
            web.clone(),
            desired.clone(),
            "Web",
            TAILSCALE_PUBLISHER,
            "error: selected service does not exist\n",
        ),
        (
            "publication-absent",
            web.clone(),
            publications(&[("web", "example-publisher")]),
            "web",
            TAILSCALE_PUBLISHER,
            "error: selected publication is not in desired state\n",
        ),
        (
            "unsupported-tailscale",
            web.clone(),
            publications(&[("web", "tailscale")]),
            "web",
            "tailscale",
            unsupported,
        ),
        (
            "unsupported-example-publisher",
            web.clone(),
            publications(&[("web", "example-publisher")]),
            "web",
            "example-publisher",
            unsupported,
        ),
        (
            "unsupported-cloudflare",
            web.clone(),
            publications(&[("web", "cloudflare")]),
            "web",
            "cloudflare",
            unsupported,
        ),
        (
            "unsupported-headscale",
            web,
            publications(&[("web", "headscale")]),
            "web",
            "headscale",
            unsupported,
        ),
    ]
}

#[test]
fn publish_selection_failures_do_not_invoke_tailscale() {
    for (label, declaration, publishing, service, publisher, expected) in selection_cases(8080) {
        let mut world = World::new(&declaration, &publishing).serving(&[8080]);
        let result = world.run(&["publish", service, publisher]);
        assert_exact_failure(&result, expected, label);
        assert!(world.tailscale_calls.is_empty(), "{label}");
        assert!(world.connections.is_empty(), "{label}");
    }
}

#[test]
fn status_selection_failures_do_not_invoke_tailscale() {
    for (label, declaration, publishing, service, publisher, expected) in selection_cases(41_237) {
        let mut world = World::new(&declaration, &publishing);
        let result = world.run(&["status", service, publisher]);
        assert_exact_failure(&result, expected, label);
        assert!(world.tailscale_calls.is_empty(), "{label}");
    }
}

#[test]
fn publish_rejects_same_port_desired_collision_before_provider_calls() {
    let mut world = World::new(
        &services(&[("web", 8080), ("api", 8080)]),
        &publications(&[("web", TAILSCALE_PUBLISHER), ("api", TAILSCALE_PUBLISHER)]),
    )
    .serving(&[8080]);
    let result = world.run(&["publish", "web", TAILSCALE_PUBLISHER]);
    assert_exact_failure(
        &result,
        "error: desired Tailscale Serve TCP publications conflict\n",
        "same-port-collision",
    );
    assert!(world.tailscale_calls.is_empty());
}

#[test]
fn publish_preflight_failures_do_not_mutate_provider_state() {
    let port: u16 = 8080;
    let web = services(&[("web", port)]);
    let desired = publications(&[("web", TAILSCALE_PUBLISHER)]);

    let mut world = World::new(&web, &desired).serving(&[port]);
    world.tailscale = None;
    assert_exact_failure(
        &world.run(&["publish", "web", TAILSCALE_PUBLISHER]),
        "error: tailscale executable is not available\n",
        "missing-executable",
    );

    let client = |json: &str| {
        let mut fake = FakeTailscale::new();
        fake.client = Some(json.to_owned());
        fake
    };
    let mut down = FakeTailscale::new();
    down.client = None;
    let mut serve_down = FakeTailscale::new();
    serve_down.serve_fails = true;
    let unsupported = format!(
        r#"{{"TCP":{{"{port}":{{"TCPForward":"127.0.0.1:{port}"}}}},"FutureConfig":{{}}}}"#
    );
    let one = vec!["status --json".to_owned()];
    let cases = vec![
        (
            "daemon-status-failure",
            down,
            one.clone(),
            "error: Tailscale daemon or client is not operational\n",
        ),
        (
            "daemon-not-running",
            client(r#"{"BackendState":"Stopped","Self":{"DNSName":"publish-test.example.ts.net.","Online":false},"CurrentTailnet":{"MagicDNSEnabled":true}}"#),
            one.clone(),
            "error: Tailscale daemon or client is not operational\n",
        ),
        (
            "magic-dns-disabled",
            client(r#"{"BackendState":"Running","Self":{"DNSName":"publish-test.example.ts.net.","Online":true},"CurrentTailnet":{"MagicDNSEnabled":false}}"#),
            one.clone(),
            "error: current Tailscale node DNS name is unavailable\n",
        ),
        (
            "magic-dns-missing",
            client(r#"{"BackendState":"Running","Self":{"DNSName":"publish-test.example.ts.net.","Online":true}}"#),
            one.clone(),
            "error: Tailscale client state is indeterminate\n",
        ),
        (
            "dns-name-without-final-dot",
            client(r#"{"BackendState":"Running","Self":{"DNSName":"publish-test.example.ts.net","Online":true},"CurrentTailnet":{"MagicDNSEnabled":true}}"#),
            one.clone(),
            "error: current Tailscale node DNS name is unavailable\n",
        ),
        (
            "serve-status-failure",
            serve_down,
            read_only_calls(),
            "error: failed to inspect Tailscale Serve state\n",
        ),
        (
            "invalid-provider-json",
            FakeTailscale::showing(r#"{"TCP":"#),
            read_only_calls(),
            "error: Tailscale Serve state is indeterminate\n",
        ),
        (
            "unsupported-provider-state",
            FakeTailscale::showing(&unsupported),
            read_only_calls(),
            "error: Tailscale Serve state is indeterminate\n",
        ),
    ];
    for (label, fake, calls, expected) in cases {
        let mut world = World::new(&web, &desired).serving(&[port]);
        world.tailscale = Some(fake);
        let result = world.run(&["publish", "web", TAILSCALE_PUBLISHER]);
        assert_exact_failure(&result, expected, label);
        assert_eq!(world.tailscale_calls, calls, "{label}");
    }

    let mut world = World::new(&web, &desired);
    assert_exact_failure(
        &world.run(&["publish", "web", TAILSCALE_PUBLISHER]),
        "error: local TCP backend 127.0.0.1:8080 is not reachable\n",
        "backend-unreachable",
    );
    assert_eq!(world.tailscale_calls, ["status --json"]);
}

#[test]
fn publish_reports_already_satisfied_without_mutation() {
    let port: u16 = 8080;
    let mut world = World::new(
        &services(&[("web", port)]),
        &publications(&[("web", TAILSCALE_PUBLISHER)]),
    )
    .serving(&[port]);
    world.tailscale = Some(FakeTailscale::showing(&desired_with_unrelated(port)));
    let result = world.run(&["publish", "web", TAILSCALE_PUBLISHER]);
    assert_eq!(result.code, 0);
    assert_eq!(result.stdout, satisfied_line("web", port));
    assert!(result.stderr.is_empty());
    assert_eq!(world.tailscale_calls, read_only_calls());
}

#[test]
fn publish_rejects_conflicting_provider_states_without_mutation() {
    let port: u16 = 8080;
    let taken = "error: selected Tailscale Serve TCP port conflicts with existing state\n";
    let cases = vec![
        (
            "different-target",
            format!(r#"{{"TCP":{{"{port}":{{"TCPForward":"127.0.0.1:1"}}}}}}"#),
            taken,
        ),
        (
            "tls-terminated-tcp",
            format!(
                r#"{{"TCP":{{"{port}":{{"TCPForward":"127.0.0.1:{port}","TerminateTLS":"publish-test.example.ts.net"}}}}}}"#
            ),
            taken,
        ),
        ("http-serve", format!(r#"{{"TCP":{{"{port}":{{"HTTP":true}}}}}}"#), taken),
        ("https-serve", format!(r#"{{"TCP":{{"{port}":{{"HTTPS":true}}}}}}"#), taken),
        (
            "funnel-enabled",
            format!(
                r#"{{"TCP":{{"{port}":{{"TCPForward":"127.0.0.1:{port}"}}}},"AllowFunnel":{{"publish-test.example.ts.net:{port}":true}}}}"#
            ),
            taken,
        ),
        (
            "foreground-state",
            format!(
                r#"{{"Foreground":{{"test-session":{{"TCP":{{"{port}":{{"TCPForward":"127.0.0.1:{port}"}}}}}}}}}}"#
            ),
            taken,
        ),
        (
            "proxy-protocol",
            format!(
                r#"{{"TCP":{{"{port}":{{"TCPForward":"127.0.0.1:{port}","ProxyProtocol":2}}}}}}"#
            ),
            taken,
        ),
        (
            "unknown-handler-state",
            format!(
                r#"{{"TCP":{{"{port}":{{"TCPForward":"127.0.0.1:{port}","UnknownMode":true}}}}}}"#
            ),
            "error: Tailscale Serve state is indeterminate\n",
        ),
    ];
    for (label, json, expected) in cases {
        let mut world = World::new(
            &services(&[("web", port)]),
            &publications(&[("web", TAILSCALE_PUBLISHER)]),
        )
        .serving(&[port]);
        world.tailscale = Some(FakeTailscale::showing(&json));
        let result = world.run(&["publish", "web", TAILSCALE_PUBLISHER]);
        assert_exact_failure(&result, expected, label);
        assert_eq!(world.tailscale_calls, read_only_calls(), "{label}");
    }
}

#[test]
fn publish_creates_one_exact_mapping_and_verifies_post_state() {
    let port: u16 = 8080;
    let mut world = World::new(
        &services(&[("web", port)]),
        &publications(&[("web", TAILSCALE_PUBLISHER)]),
    )
    .serving(&[port]);
    let mut fake = FakeTailscale::showing(&unrelated(port));
    fake.serve_after = Some(desired_with_unrelated(port));
    world.tailscale = Some(fake);
    let result = world.run(&["publish", "web", TAILSCALE_PUBLISHER]);
    assert_eq!(result.code, 0);
    assert_eq!(result.stdout, created_line("web", port));
    assert!(result.stderr.is_empty());
    assert_eq!(world.tailscale_calls, creation_calls(port));

    let result = world.run(&["publish", "web", TAILSCALE_PUBLISHER]);
    assert_eq!(result.code, 0);
    assert_eq!(result.stdout, satisfied_line("web", port));
    let mut expected = creation_calls(port);
    expected.extend(read_only_calls());
    assert_eq!(world.tailscale_calls, expected);
}

#[test]
fn publish_rejects_bad_post_state_after_successful_mutation() {
    let port: u16 = 8080;
    let mut world = World::new(
        &services(&[("web", port)]),
        &publications(&[("web", TAILSCALE_PUBLISHER)]),
    )
    .serving(&[port]);
    let mut fake = FakeTailscale::showing(&unrelated(port));
    fake.serve_after = Some(format!(
        r#"{{"TCP":{{"443":{{"HTTPS":true}},"{port}":{{"TCPForward":"127.0.0.1:1"}}}}}}"#
    ));
    world.tailscale = Some(fake);
    let result = world.run(&["publish", "web", TAILSCALE_PUBLISHER]);
    assert_exact_failure(
        &result,
        "error: Tailscale Serve TCP post-condition was not satisfied\n",
        "bad-post-state",
    );
    assert_eq!(world.tailscale_calls, creation_calls(port));
}

#[test]
fn publish_reports_mutation_failure_and_only_reobserves_state() {
    let port: u16 = 8080;
    let conflict = format!(r#"{{"TCP":{{"{port}":{{"HTTPS":true}}}}}}"#);
    for (label, after, expected) in [
        (
            "mutation-failure",
            unrelated(port),
            "error: Tailscale Serve mutation failed and the target remains absent\n",
        ),
        (
            "mutation-failure-desired",
            desired_with_unrelated(port),
            "error: Tailscale Serve mutation failed; the desired mapping is present but operation completion is uncertain\n",
        ),
        (
            "mutation-failure-conflict",
            conflict,
            "error: Tailscale Serve mutation failed and the target is in conflict\n",
        ),
        (
            "mutation-failure-unknown",
            r#"{"TCP":"#.to_owned(),
            "error: Tailscale Serve mutation failed and the resulting state is indeterminate\n",
        ),
    ] {
        let mut world = World::new(
            &services(&[("web", port)]),
            &publications(&[("web", TAILSCALE_PUBLISHER)]),
        )
        .serving(&[port]);
        let mut fake = FakeTailscale::showing(&unrelated(port));
        fake.failing_port = Some(port);
        fake.serve_after = Some(after);
        world.tailscale = Some(fake);
        let result = world.run(&["publish", "web", TAILSCALE_PUBLISHER]);
        assert_exact_failure(&result, expected, label);
        assert_eq!(world.tailscale_calls, creation_calls(port), "{label}");
    }
}

#[test]
fn status_rejects_invalid_argument_counts_before_reading_files() {
    for arguments in [
        &["status"][..],
        &["status", "web"],
        &["status", "web", TAILSCALE_PUBLISHER, "extra"],
    ] {
        let mut world = World::new(&[0xff], &[0xff]);
        let result = world.run(arguments);
        assert_eq!(result.code, 2);
        assert!(result.stdout.is_empty());
        assert_eq!(result.stderr, "Usage: aequimuta <command>\n");
        assert!(world.reads.is_empty());
    }
}

#[test]
fn status_rejects_same_port_desired_ambiguity_before_provider_calls() {
    let mut world = World::new(
        &services(&[("web", 41_238), ("api", 41_238)]),
        &publications(&[("web", TAILSCALE_PUBLISHER), ("api", TAILSCALE_PUBLISHER)]),
    );
    let result = world.run(&["status", "web", TAILSCALE_PUBLISHER]);
    assert_exact_failure(
        &result,
        "error: desired Tailscale Serve TCP publications conflict\n",
        "same-port-ambiguity",
    );
    assert!(world.tailscale_calls.is_empty());
}

#[test]
fn status_reports_provider_command_failures_without_leaking_output() {
    let web = services(&[("web", 41_239)]);
    let desired = publications(&[("web", TAILSCALE_PUBLISHER)]);
    let expected = "error: failed to inspect Tailscale Serve state\n";

    let mut world = World::new(&web, &desired);
    world.tailscale = None;
    let result = world.run(&["status", "web", TAILSCALE_PUBLISHER]);
    assert_exact_failure(&result, expected, "missing-executable");

    let mut world = World::new(&web, &desired);
    world.tailscale.as_mut().unwrap().serve_fails = true;
    let result = world.run(&["status", "web", TAILSCALE_PUBLISHER]);
    assert_exact_failure(&result, expected, "provider-status-nonzero");
    assert_eq!(world.tailscale_calls, ["serve status --json"]);

    let mut world = World::new(&web, &desired);
    world.tailscale = Some(FakeTailscale::showing(r#"{"TCP":"#));
    let result = world.run(&["status", "web", TAILSCALE_PUBLISHER]);
    assert_exact_failure(&result, expected, "malformed-provider-json");
    assert_eq!(world.tailscale_calls, ["serve status --json"]);
}

fn assert_status(json: &str, port: u16, relation: &str) {
    let mut world = World::new(
        &services(&[("web", port)]),
        &publications(&[("web", TAILSCALE_PUBLISHER)]),
    );
    world.tailscale = Some(FakeTailscale::showing(json));
    let result = world.run(&["status", "web", TAILSCALE_PUBLISHER]);
    assert_eq!(result.code, 0, "{relation}");
    assert_eq!(
        result.stdout,
        format!("Publication status for web via tailscale-serve-tcp: {relation}\n")
    );
    assert!(result.stderr.is_empty());
    assert_eq!(world.tailscale_calls, ["serve status --json"]);
    assert!(world.connections.is_empty());
}

#[test]
fn status_reports_absent_without_mutation() {
    assert_status(r#"{"TCP":{"443":{"HTTPS":true}}}"#, 41_240, "absent");
    assert_status("null", 41_240, "absent");
    assert_status("{}", 41_240, "absent");
}

#[test]
fn status_reports_satisfied_without_a_local_backend_listener() {
    assert_status(
        r#"{"TCP":{"41241":{"TCPForward":"127.0.0.1:41241"}}}"#,
        41_241,
        "satisfied",
    );
}

#[test]
fn status_reports_supported_provider_conflicts_without_mutation() {
    for json in [
        r#"{"TCP":{"41242":{"TCPForward":"127.0.0.1:1"}}}"#,
        r#"{"TCP":{"41242":{"TCPForward":"127.0.0.1:41242","TerminateTLS":"status-test.example.ts.net"}}}"#,
        r#"{"TCP":{"41242":{"HTTP":true}}}"#,
        r#"{"TCP":{"41242":{"HTTPS":true}}}"#,
        r#"{"TCP":{"41242":{"TCPForward":"127.0.0.1:41242"}},"AllowFunnel":{"status-test.example.ts.net:41242":true}}"#,
    ] {
        assert_status(json, 41_242, "conflict");
    }
}

#[test]
fn status_reports_indeterminate_for_valid_noncanonical_tcp_key() {
    assert_status(
        r#"{"TCP":{"041243":{"TCPForward":"127.0.0.1:41243"}}}"#,
        41_243,
        "indeterminate",
    );
    assert_status(r#"{"Web":{"no-port":{}}}"#, 41_243, "indeterminate");
    assert_status(r#"{"AllowFunnel":{":443":false}}"#, 41_243, "indeterminate");
    assert_status(r#"{"Future":1}"#, 41_243, "indeterminate");
    assert_status(
        r#"{"Foreground":{"a":{"Foreground":{"b":{"TCP":{"x":{}}}}}}}"#,
        41_243,
        "indeterminate",
    );
}

const TEST_HOST: &str = "edge.example.com";
const TEST_USER: &str = "aequimuta";

fn provider(
    service: &str,
    host: &str,
    user: &str,
    ssh_port: u16,
    listen_address: &str,
    listen_port: u16,
) -> Vec<u8> {
    format!(
        "[[publications]]\nservice = \"{service}\"\nhost = \"{host}\"\nuser = \"{user}\"\nssh_port = {ssh_port}\nlisten_address = \"{listen_address}\"\nlisten_port = {listen_port}\n"
    )
    .into_bytes()
}

fn canonical_provider(service: &str) -> Vec<u8> {
    provider(service, TEST_HOST, TEST_USER, 22, "0.0.0.0", 18_080)
}

fn providers(all: &[(&str, &str, u16)]) -> Vec<u8> {
    let mut source: Vec<u8> = Vec::new();
    for (service, listen_address, listen_port) in all {
        source.extend(provider(service, TEST_HOST, TEST_USER, 22, listen_address, *listen_port));
        source.push(b'\n');
    }
    source
}

fn ensured_line(service: &str, host: &str, local_port: u16, listen: &str) -> String {
    format!(
        "Ensured {service} via openssh-reverse-tcp: {TEST_USER}@{host}:22 listen {listen} -> 127.0.0.1:{local_port} (SSH-session-backed; no automatic reconnect)\n"
    )
}

fn control_path(host: &str) -> String {
    let mut hash: u64 = 0xcbf29ce484222325;
    let mut bytes: Vec<u8> = host.as_bytes().to_vec();
    bytes.push(0);
    bytes.extend(TEST_USER.as_bytes());
    bytes.push(0);
    bytes.extend(22u16.to_be_bytes());
    for byte in bytes {
        hash ^= u64::from(byte);
        hash = hash.wrapping_mul(0x00000100000001b3);
    }
    format!(
        "{RUNTIME}/aequimuta/openssh-reverse-tcp/cm-{hash:016x}{}",
        &OPENSSH_CONTROL_FILE[19..]
    )
}

fn has_pair(call: &[String], first: &str, second: &str) -> bool {
    call.windows(2).any(|pair| pair[0] == first && pair[1] == second)
}

fn is_expansion(call: &[String]) -> bool {
    call.iter().any(|argument| argument == "-G")
}

fn is_control(call: &[String], operation: &str) -> bool {
    has_pair(call, "-O", operation)
}

fn is_master(call: &[String]) -> bool {
    !is_expansion(call) && !is_control(call, "check") && !is_control(call, "forward")
}

fn count(calls: &[Vec<String>], wanted: fn(&[String]) -> bool) -> usize {
    calls.iter().filter(|call| wanted(call)).count()
}

fn count_control(calls: &[Vec<String>], operation: &str) -> usize {
    calls.iter().filter(|call| is_control(call, operation)).count()
}

fn assert_destination(call: &[String], host: &str, path: &str) {
    assert!(has_pair(call, "-S", path), "{call:?}");
    assert!(has_pair(call, "-l", TEST_USER), "{call:?}");
    assert!(has_pair(call, "-p", "22"), "{call:?}");
    assert!(has_pair(call, "-o", &format!("HostName={host}")), "{call:?}");
    assert!(call.iter().any(|argument| argument == "-4"), "{call:?}");
    assert_eq!(call.last().map(String::as_str), Some(host));
}

fn assert_master_call(call: &[String], host: &str, path: &str) {
    assert_destination(call, host, path);
    assert_eq!(&call[..6], ["-4", "-M", "-N", "-n", "-T", "-S"]);
    for option in [
        "BatchMode=yes",
        "StrictHostKeyChecking=yes",
        "ClearAllForwardings=yes",
        "ForwardAgent=no",
        "ForwardX11=no",
        "RequestTTY=no",
        "SessionType=none",
        "RemoteCommand=none",
        "CanonicalizeHostname=no",
        "ProxyCommand=none",
        "ProxyJump=none",
        "ControlMaster=yes",
        "ControlPersist=no",
        "ForkAfterAuthentication=no",
        "PermitLocalCommand=no",
        "LocalCommand=none",
        "Tunnel=no",
        "UpdateHostKeys=no",
        "AddKeysToAgent=no",
    ] {
        assert!(has_pair(call, "-o", option), "{option}");
    }
    assert!(!call.iter().any(|argument| argument == "-f" || argument == "-R"));
    assert_eq!(call.len(), 6 + 1 + 6 + 38 + 1);
}

fn assert_expansion_call(call: &[String], host: &str) {
    assert_destination(
        call,
        host,
        &format!("{RUNTIME}/aequimuta/openssh-reverse-tcp/cm-%C"),
    );
    assert!(has_pair(call, "-F", "none"));
    for option in ["CanonicalizeHostname=no", "ProxyCommand=none", "ProxyJump=none"] {
        assert!(has_pair(call, "-o", option));
    }
    assert!(!call.iter().any(|argument| argument == "-R"));
}

fn assert_forward_call(call: &[String], host: &str, path: &str, forward: &str) {
    assert_destination(call, host, path);
    assert!(has_pair(call, "-F", "none"));
    assert!(has_pair(call, "-o", "ControlMaster=no"));
    assert!(has_pair(call, "-R", forward));
    assert!(!has_pair(call, "-o", "ClearAllForwardings=yes"));
}

fn assert_check_call(call: &[String], host: &str, path: &str) {
    assert_destination(call, host, path);
    assert!(has_pair(call, "-F", "none"));
    assert!(has_pair(call, "-o", "ControlMaster=no"));
    assert!(!call.iter().any(|argument| argument == "-R"));
}

fn forwarding_world(port: u16) -> World {
    World::new(
        &services(&[("web", port)]),
        &publications(&[("web", OPENSSH_PUBLISHER)]),
    )
    .configured(&canonical_provider("web"))
    .serving(&[port])
}

#[test]
fn selection_and_unsupported_paths_do_not_read_provider_configuration_or_invoke_ssh() {
    let web = services(&[("web", 8080)]);
    let example = publications(&[("web", "example-publisher")]);

    let mut world = World::new(&web, &example);
    assert_exact_failure(
        &world.run(&["publish", "web", OPENSSH_PUBLISHER]),
        "error: selected publication is not in desired state\n",
        "desired tuple absent",
    );
    assert!(world.ssh_calls.is_empty());

    let mut world = World::new(&web, &example).configured(b"this is not valid TOML = [");
    assert_exact_failure(
        &world.run(&["publish", "web", "example-publisher"]),
        "error: selected publisher is not supported\n",
        "unsupported publisher",
    );
    assert!(world.ssh_calls.is_empty());
    assert_eq!(world.reads, [DECLARATION_FILE, PUBLISHING_FILE]);
}

#[test]
fn provider_configuration_is_required_strict_semantic_and_unique_by_service() {
    let invalid = "error: aequimuta.openssh-reverse-tcp.toml is not a valid OpenSSH reverse TCP configuration\n";
    let world = || {
        World::new(
            &services(&[("web", 8080)]),
            &publications(&[("web", OPENSSH_PUBLISHER)]),
        )
    };

    let mut missing = world();
    assert_exact_failure(
        &missing.run(&["publish", "web", OPENSSH_PUBLISHER]),
        "error: failed to read aequimuta.openssh-reverse-tcp.toml\n",
        "missing provider configuration",
    );
    assert!(missing.ssh_calls.is_empty());

    let mut unknown_root = b"future = true\n".to_vec();
    unknown_root.extend(provider("web", TEST_HOST, TEST_USER, 22, "127.0.0.1", 18_080));
    let mut unknown_field = provider("web", TEST_HOST, TEST_USER, 22, "127.0.0.1", 18_080);
    unknown_field.extend(b"identity_file = \"/private/key\"\n");
    let mut duplicate = canonical_provider("web");
    duplicate.extend(provider("web", "other.example.com", TEST_USER, 2222, "127.0.0.1", 19_090));
    let cases: Vec<(&str, Vec<u8>)> = vec![
        ("unknown-root-field", unknown_root),
        ("unknown-publication-field", unknown_field),
        (
            "option-like-host",
            provider("web", "-edge.example.com", TEST_USER, 22, "127.0.0.1", 18_080),
        ),
        (
            "whitespace-user",
            provider("web", TEST_HOST, "bad user", 22, "127.0.0.1", 18_080),
        ),
        (
            "zero-ssh-port",
            provider("web", TEST_HOST, TEST_USER, 0, "127.0.0.1", 18_080),
        ),
        (
            "non-ipv4-listen-address",
            provider("web", TEST_HOST, TEST_USER, 22, "localhost", 18_080),
        ),
        (
            "ipv6-listen-address",
            provider("web", TEST_HOST, TEST_USER, 22, "::1", 18_080),
        ),
        (
            "privileged-listen-port",
            provider("web", TEST_HOST, TEST_USER, 22, "127.0.0.1", 1_023),
        ),
        ("undeclared-service", canonical_provider("api")),
        ("duplicate provider service", duplicate),
    ];
    for (label, configuration) in cases {
        let mut world = world().configured(&configuration);
        assert_exact_failure(&world.run(&["publish", "web", OPENSSH_PUBLISHER]), invalid, label);
        assert!(world.ssh_calls.is_empty(), "{label}");
        assert!(world.connections.is_empty(), "{label}");
    }

    let mut bad = world().configured(&[0xff]);
    assert_exact_failure(
        &bad.run(&["publish", "web", OPENSSH_PUBLISHER]),
        "error: aequimuta.openssh-reverse-tcp.toml is not valid UTF-8\n",
        "provider configuration in another encoding",
    );

    let mut unresolved = world().configured(b"# no provider publications\n");
    assert_exact_failure(
        &unresolved.run(&["publish", "web", OPENSSH_PUBLISHER]),
        "error: desired OpenSSH reverse TCP publication has no provider configuration\n",
        "unresolved provider service",
    );
    assert!(unresolved.ssh_calls.is_empty());
}

#[test]
fn desired_remote_slot_ambiguity_is_rejected_before_ssh_even_with_different_bind_addresses() {
    let mut world = World::new(
        &services(&[("web", 8080), ("api", 9090)]),
        &publications(&[("web", OPENSSH_PUBLISHER), ("api", OPENSSH_PUBLISHER)]),
    )
    .configured(&providers(&[("web", "127.0.0.1", 18_080), ("api", "0.0.0.0", 18_080)]));
    assert_exact_failure(
        &world.run(&["publish", "web", OPENSSH_PUBLISHER]),
        "error: desired OpenSSH reverse TCP publications conflict\n",
        "remote-slot ambiguity",
    );
    assert!(world.ssh_calls.is_empty());
}

#[test]
fn backend_runtime_and_executable_preflights_fail_before_ssh_mutation() {
    let unsafe_runtime =
        "error: XDG_RUNTIME_DIR is not safe for OpenSSH reverse TCP control state\n";
    let publish_web = ["publish", "web", OPENSSH_PUBLISHER];

    let mut closed = forwarding_world(8080);
    closed.listening.clear();
    assert_exact_failure(
        &closed.run(&publish_web),
        "error: local TCP backend 127.0.0.1:8080 is not reachable\n",
        "unreachable backend",
    );
    assert!(closed.ssh_calls.is_empty());
    assert_eq!(closed.entries.len(), 1);

    let mut unset = forwarding_world(8080);
    unset.runtime_root = None;
    assert_exact_failure(&unset.run(&publish_web), unsafe_runtime, "missing XDG_RUNTIME_DIR");
    assert!(unset.ssh_calls.is_empty());

    let mut relative = forwarding_world(8080);
    relative.runtime_root = Some("run/user/1000".to_owned());
    assert_exact_failure(&relative.run(&publish_web), unsafe_runtime, "relative directory");

    let mut open = forwarding_world(8080);
    open.entries
        .insert(RUNTIME.as_bytes().to_vec(), (EntryKind::Directory, USER, 0o40755));
    assert_exact_failure(&open.run(&publish_web), unsafe_runtime, "unsafe XDG_RUNTIME_DIR");
    assert!(open.ssh_calls.is_empty());

    let mut foreign = forwarding_world(8080);
    foreign
        .entries
        .insert(RUNTIME.as_bytes().to_vec(), (EntryKind::Directory, USER + 1, 0o40700));
    assert_exact_failure(&foreign.run(&publish_web), unsafe_runtime, "directory of another user");

    let mut linked = forwarding_world(8080);
    linked
        .canonical
        .insert(RUNTIME.as_bytes().to_vec(), b"/real/user/1000".to_vec());
    assert_exact_failure(&linked.run(&publish_web), unsafe_runtime, "intermediate runtime symlink");
    assert!(linked.ssh_calls.is_empty());

    let mut slashed = forwarding_world(8080);
    slashed
        .canonical
        .insert(RUNTIME.as_bytes().to_vec(), b"/run/./user//1000/".to_vec());
    assert_eq!(slashed.run(&publish_web).code, 0);

    let mut missing = forwarding_world(8080);
    missing.ssh = None;
    assert_exact_failure(
        &missing.run(&publish_web),
        "error: ssh executable is not available\n",
        "missing ssh executable",
    );
}

#[test]
fn absent_master_is_created_with_pinned_options_and_repeat_uses_one_master() {
    let mut world = forwarding_world(8080);
    for _ in 0..2 {
        let result = world.run(&["publish", "web", OPENSSH_PUBLISHER]);
        assert_eq!(result.code, 0);
        assert_eq!(result.stdout, ensured_line("web", TEST_HOST, 8080, "0.0.0.0:18080"));
        assert!(result.stderr.is_empty());
    }
    let calls = &world.ssh_calls;
    assert_eq!(count(calls, is_expansion), 2);
    assert_eq!(count(calls, is_master), 1);
    assert_eq!(count_control(calls, "check"), 2);
    assert_eq!(count_control(calls, "forward"), 2);
    let path = control_path(TEST_HOST);
    for call in calls {
        if is_master(call) {
            assert_master_call(call, TEST_HOST, &path);
        } else if is_expansion(call) {
            assert_expansion_call(call, TEST_HOST);
        } else if is_control(call, "check") {
            assert_check_call(call, TEST_HOST, &path);
        } else {
            assert_forward_call(call, TEST_HOST, &path, "0.0.0.0:18080:127.0.0.1:8080");
        }
    }
    for directory in [format!("{RUNTIME}/aequimuta"), world.provider_directory()] {
        assert_eq!(
            world.entries[directory.as_bytes()],
            (EntryKind::Directory, USER, 0o40700)
        );
    }
    assert!(world.entries.contains_key(path.as_bytes()));
}

#[test]
fn lexical_host_case_uses_distinct_composite_control_socket_identities() {
    let upper_host = "EDGE.EXAMPLE.COM";
    let mut world = forwarding_world(8080);
    let result = world.run(&["publish", "web", OPENSSH_PUBLISHER]);
    assert_eq!(result.stdout, ensured_line("web", TEST_HOST, 8080, "0.0.0.0:18080"));
    world.files.insert(
        CONFIGURATION_FILE,
        provider("web", upper_host, TEST_USER, 22, "0.0.0.0", 18_080),
    );
    let result = world.run(&["publish", "web", OPENSSH_PUBLISHER]);
    assert_eq!(result.code, 0);
    assert_eq!(result.stdout, ensured_line("web", upper_host, 8080, "0.0.0.0:18080"));
    let lower = control_path(TEST_HOST);
    let upper = control_path(upper_host);
    assert_ne!(lower, upper);
    assert!(world.entries.contains_key(lower.as_bytes()));
    assert!(world.entries.contains_key(upper.as_bytes()));
    assert_eq!(count(&world.ssh_calls, is_master), 2);
}

#[test]
fn live_master_child_without_a_socket_times_out_and_is_reaped() {
    let mut world = forwarding_world(8080);
    world.ssh.as_mut().unwrap().binds = false;
    assert_exact_failure(
        &world.run(&["publish", "web", OPENSSH_PUBLISHER]),
        "error: failed to establish the OpenSSH ControlMaster\n",
        "live master child without socket",
    );
    assert_eq!(world.clock, 30_000_000_000);
    assert_eq!(world.ssh_calls.len(), 2);
    assert_expansion_call(&world.ssh_calls[0], TEST_HOST);
    assert_master_call(&world.ssh_calls[1], TEST_HOST, &control_path(TEST_HOST));
    assert_eq!(world.ssh.as_ref().unwrap().killed, [4_000]);
    assert!(!world.entries.contains_key(control_path(TEST_HOST).as_bytes()));
}

#[test]
fn master_creation_failure_is_reported_without_forwarding_or_raw_output() {
    let mut world = forwarding_world(8080);
    world.ssh.as_mut().unwrap().exits = true;
    assert_exact_failure(
        &world.run(&["publish", "web", OPENSSH_PUBLISHER]),
        "error: failed to establish the OpenSSH ControlMaster\n",
        "master creation failure",
    );
    assert_eq!(world.ssh_calls.len(), 2);
    assert_expansion_call(&world.ssh_calls[0], TEST_HOST);
    assert_master_call(&world.ssh_calls[1], TEST_HOST, &control_path(TEST_HOST));
}

fn live_world() -> World {
    let mut world = forwarding_world(8080);
    world.prepare_provider_directory();
    let path = control_path(TEST_HOST).into_bytes();
    world.entries.insert(path.clone(), (EntryKind::Socket, USER, 0o140600));
    world.ssh.as_mut().unwrap().masters.insert(path, 77);
    world
}

#[test]
fn live_master_is_reused_and_forward_failure_is_acknowledged_without_raw_output() {
    let path = control_path(TEST_HOST);
    let mut world = live_world();
    let result = world.run(&["publish", "web", OPENSSH_PUBLISHER]);
    assert_eq!(result.code, 0);
    assert_eq!(result.stdout, ensured_line("web", TEST_HOST, 8080, "0.0.0.0:18080"));
    assert_eq!(world.ssh_calls.len(), 3);
    assert_expansion_call(&world.ssh_calls[0], TEST_HOST);
    assert_check_call(&world.ssh_calls[1], TEST_HOST, &path);
    assert_forward_call(&world.ssh_calls[2], TEST_HOST, &path, "0.0.0.0:18080:127.0.0.1:8080");

    let mut world = live_world();
    world.ssh.as_mut().unwrap().failing_local_port = Some(8080);
    assert_exact_failure(
        &world.run(&["publish", "web", OPENSSH_PUBLISHER]),
        "error: OpenSSH remote forwarding request was not acknowledged\n",
        "forward acknowledgement failure",
    );
    assert_eq!(count_control(&world.ssh_calls, "forward"), 1);
    assert_eq!(count(&world.ssh_calls, is_master), 0);
}

#[test]
fn stale_socket_and_unsafe_control_entry_fail_closed_and_are_preserved() {
    let expected = "error: OpenSSH control socket state is stale or unsafe\n";
    let path = control_path(TEST_HOST).into_bytes();

    let mut stale = live_world();
    stale.ssh.as_mut().unwrap().masters.clear();
    let before = stale.entries.clone();
    assert_exact_failure(&stale.run(&["publish", "web", OPENSSH_PUBLISHER]), expected, "stale socket");
    assert_eq!(stale.entries, before);
    assert_eq!(count_control(&stale.ssh_calls, "check"), 1);
    assert_eq!(count_control(&stale.ssh_calls, "forward"), 0);
    assert_eq!(count(&stale.ssh_calls, is_master), 0);

    for entry in [
        (EntryKind::Other, USER, 0o100600),
        (EntryKind::Socket, USER + 1, 0o140600),
        (EntryKind::Socket, USER, 0o140660),
    ] {
        let mut unsafe_entry = live_world();
        unsafe_entry.entries.insert(path.clone(), entry);
        let before = unsafe_entry.entries.clone();
        assert_exact_failure(
            &unsafe_entry.run(&["publish", "web", OPENSSH_PUBLISHER]),
            expected,
            "unsafe control entry",
        );
        assert_eq!(unsafe_entry.entries, before);
        assert_eq!(unsafe_entry.ssh_calls.len(), 1);
        assert_expansion_call(&unsafe_entry.ssh_calls[0], TEST_HOST);
    }
}

#[test]
fn tailscale_publish_ignores_invalid_openssh_configuration_and_openssh_status_stays_unsupported() {
    let mut world = World::new(
        &services(&[("web", 8080)]),
        &publications(&[("web", TAILSCALE_PUBLISHER)]),
    )
    .configured(b"this is not valid TOML = [\nprivate_key = \"must-not-be-read\"\n")
    .serving(&[8080]);
    world.tailscale.as_mut().unwrap().mapped.insert(8080);
    let result = world.run(&["publish", "web", TAILSCALE_PUBLISHER]);
    assert_eq!(result.code, 0);
    assert_eq!(result.stdout, satisfied_line("web", 8080));
    assert!(!world.reads.contains(&CONFIGURATION_FILE));

    let mut world = World::new(
        &services(&[("web", 8080), ("api", 8080)]),
        &publications(&[
            ("web", OPENSSH_PUBLISHER),
            ("web", TAILSCALE_PUBLISHER),
            ("api", TAILSCALE_PUBLISHER),
        ]),
    );
    world.tailscale = None;
    world.ssh = None;
    world.runtime_root = None;
    assert_exact_failure(
        &world.run(&["status", "web", OPENSSH_PUBLISHER]),
        "error: selected publisher is not supported\n",
        "OpenSSH status",
    );
}

#[test]
fn apply_rejects_extra_arguments_before_project_or_provider_access() {
    let mut world = World::new(&[0xff], &[0xff]).configured(&[0xff]);
    for arguments in [
        &["apply", "web"][..],
        &["apply", "web", TAILSCALE_PUBLISHER],
        &["apply", "--all"],
    ] {
        let result = world.run(arguments);
        assert_eq!(result.code, 2);
        assert!(result.stdout.is_empty());
        assert_eq!(result.stderr, "Usage: aequimuta <command>\n");
    }
    assert!(world.reads.is_empty());
}

#[test]
fn apply_empty_desired_state_is_exact_noop() {
    let mut world = World::new(b"# no services\n", b"# no desired publications\n")
        .configured(b"stale = [invalid provider configuration\n");
    let result = world.run(&["apply"]);
    assert_eq!(result.code, 0);
    assert_eq!(result.stdout, "No desired publications to apply\n");
    assert!(result.stderr.is_empty());
    assert!(world.tailscale_calls.is_empty() && world.ssh_calls.is_empty());
}

#[test]
fn apply_rejects_invalid_core_or_publishing_before_provider_mutation() {
    for (label, declaration, publishing, expected) in [
        (
            "invalid-core",
            &b"[[services]\n"[..],
            &b"# publishing is otherwise empty\n"[..],
            "error: aequimuta.toml is not a valid declaration\n",
        ),
        (
            "invalid-publishing",
            b"# declaration is valid and empty\n",
            b"[[publications]\n",
            "error: aequimuta.publish.toml is not a valid publishing intent\n",
        ),
    ] {
        let mut world = World::new(declaration, publishing);
        assert_exact_failure(&world.run(&["apply"]), expected, label);
        assert!(world.tailscale_calls.is_empty() && world.ssh_calls.is_empty());
    }
}

#[test]
fn apply_rejects_unsupported_late_entry_before_mutation() {
    let mut world = World::new(
        &services(&[("web", 8080), ("api", 9090)]),
        &publications(&[("web", TAILSCALE_PUBLISHER), ("api", "example-publisher")]),
    )
    .serving(&[8080, 9090]);
    assert_exact_failure(
        &world.run(&["apply"]),
        "error: desired publisher is not supported\n",
        "unsupported late entry",
    );
    assert!(world.tailscale_calls.is_empty() && world.connections.is_empty());
}

#[test]
fn apply_rejects_openssh_configuration_failures_before_mutation() {
    for (label, configuration, expected) in [
        (
            "missing-provider-file",
            None,
            "error: failed to read aequimuta.openssh-reverse-tcp.toml\n",
        ),
        (
            "invalid-provider-file",
            Some(&b"future = true\n"[..]),
            "error: aequimuta.openssh-reverse-tcp.toml is not a valid OpenSSH reverse TCP configuration\n",
        ),
        (
            "unresolved-provider-service",
            Some(b"# no provider publications\n"),
            "error: desired OpenSSH reverse TCP publication has no provider configuration\n",
        ),
    ] {
        let mut world = forwarding_world(8080);
        world.files.remove(CONFIGURATION_FILE);
        if let Some(configuration) = configuration {
            world = world.configured(configuration);
        }
        assert_exact_failure(&world.run(&["apply"]), expected, label);
        assert!(world.ssh_calls.is_empty() && world.connections.is_empty(), "{label}");
    }
}

#[test]
fn apply_rejects_provider_specific_ambiguities_before_mutation() {
    let mut world = World::new(
        &services(&[("web", 8080), ("api", 8080)]),
        &publications(&[("web", TAILSCALE_PUBLISHER), ("api", TAILSCALE_PUBLISHER)]),
    )
    .serving(&[8080]);
    assert_exact_failure(
        &world.run(&["apply"]),
        "error: desired Tailscale Serve TCP publications conflict\n",
        "Tailscale ambiguity",
    );
    assert!(world.tailscale_calls.is_empty());

    let mut world = World::new(
        &services(&[("web", 8080), ("api", 9090)]),
        &publications(&[("web", OPENSSH_PUBLISHER), ("api", OPENSSH_PUBLISHER)]),
    )
    .configured(&providers(&[("web", "127.0.0.1", 18_080), ("api", "0.0.0.0", 18_080)]))
    .serving(&[8080, 9090]);
    assert_exact_failure(
        &world.run(&["apply"]),
        "error: desired OpenSSH reverse TCP publications conflict\n",
        "OpenSSH ambiguity",
    );
    assert!(world.ssh_calls.is_empty());
}

#[test]
fn apply_preflights_all_unique_local_backends_before_mutation() {
    let mut world = World::new(
        &services(&[("front", 8080), ("broken", 9090)]),
        &publications(&[
            ("front", TAILSCALE_PUBLISHER),
            ("broken", OPENSSH_PUBLISHER),
            ("broken", TAILSCALE_PUBLISHER),
        ]),
    )
    .configured(&providers(&[("broken", "127.0.0.1", 18_081)]))
    .serving(&[8080]);
    assert_exact_failure(
        &world.run(&["apply"]),
        "error: local TCP backend 127.0.0.1:9090 is not reachable\n",
        "project-wide backend preflight",
    );
    assert!(world.order.is_empty());
    assert_eq!(world.connections, [8080, 9090]);
    assert!(world.tailscale_calls.is_empty() && world.ssh_calls.is_empty());
}

#[test]
fn apply_preflights_openssh_runtime_safety_before_provider_invocation() {
    let mut world = forwarding_world(8080);
    world
        .entries
        .insert(RUNTIME.as_bytes().to_vec(), (EntryKind::Directory, USER, 0o40755));
    assert_exact_failure(
        &world.run(&["apply"]),
        "error: XDG_RUNTIME_DIR is not safe for OpenSSH reverse TCP control state\n",
        "OpenSSH runtime preflight",
    );
    assert!(world.ssh_calls.is_empty());
}

#[test]
fn tailscale_only_apply_ignores_stale_openssh_configuration() {
    let mut world = World::new(
        &services(&[("web", 8080)]),
        &publications(&[("web", TAILSCALE_PUBLISHER)]),
    )
    .configured(b"not valid TOML = [\nprivate_key = \"must-not-be-read\"\n")
    .serving(&[8080]);
    let result = world.run(&["apply"]);
    assert_eq!(result.code, 0);
    assert_eq!(
        result.stdout,
        format!("{}Applied 1 desired publications\n", created_line("web", 8080))
    );
    assert!(result.stderr.is_empty());
    assert!(world.ssh_calls.is_empty());
    assert!(!world.reads.contains(&CONFIGURATION_FILE));
    assert!(world.tailscale.as_ref().unwrap().mapped.contains(&8080));
}

#[test]
fn apply_executes_mixed_publications_in_declaration_order_and_is_immutable() {
    let mut world = World::new(
        &services(&[("alpha", 8001), ("middle", 8002), ("zeta", 8003)]),
        &publications(&[
            ("zeta", TAILSCALE_PUBLISHER),
            ("alpha", OPENSSH_PUBLISHER),
            ("middle", TAILSCALE_PUBLISHER),
        ]),
    )
    .configured(&providers(&[("alpha", "127.0.0.1", 18_082)]))
    .serving(&[8001, 8002, 8003]);
    let result = world.run(&["apply"]);
    assert_eq!(result.code, 0);
    assert_eq!(
        result.stdout,
        format!(
            "{}{}{}Applied 3 desired publications\n",
            created_line("zeta", 8003),
            ensured_line("alpha", TEST_HOST, 8001, "127.0.0.1:18082"),
            created_line("middle", 8002)
        )
    );
    assert!(result.stderr.is_empty());
    assert_eq!(world.order, ["tailscale 8003", "openssh 8001", "tailscale 8002"]);
    assert_eq!(world.ssh.as_ref().unwrap().started, 1);
}

#[test]
fn repeat_apply_preserves_concrete_outcomes_and_reuses_openssh_master() {
    let mut world = World::new(
        &services(&[("web", 8080), ("api", 9090)]),
        &publications(&[("web", TAILSCALE_PUBLISHER), ("api", OPENSSH_PUBLISHER)]),
    )
    .configured(&providers(&[("api", "127.0.0.1", 18_083)]))
    .serving(&[8080, 9090]);
    let first = world.run(&["apply"]);
    let second = world.run(&["apply"]);
    let api = ensured_line("api", TEST_HOST, 9090, "127.0.0.1:18083");
    assert_eq!((first.code, second.code), (0, 0));
    assert_eq!(
        first.stdout,
        format!("{}{api}Applied 2 desired publications\n", created_line("web", 8080))
    );
    assert_eq!(
        second.stdout,
        format!("{}{api}Applied 2 desired publications\n", satisfied_line("web", 8080))
    );
    assert_eq!(world.ssh.as_ref().unwrap().started, 1);
    assert_eq!(world.order, ["tailscale 8080", "openssh 9090", "openssh 9090"]);
}

#[test]
fn apply_stops_after_first_runtime_failure() {
    let mut world = World::new(
        &services(&[("web", 8080), ("api", 9090)]),
        &publications(&[("web", TAILSCALE_PUBLISHER), ("api", OPENSSH_PUBLISHER)]),
    )
    .configured(&providers(&[("api", "127.0.0.1", 18_084)]))
    .serving(&[8080, 9090]);
    world.tailscale.as_mut().unwrap().failing_port = Some(8080);
    assert_exact_failure(
        &world.run(&["apply"]),
        "error: apply failed for web via tailscale-serve-tcp: Tailscale Serve mutation failed and the target remains absent\n",
        "first runtime failure",
    );
    assert_eq!(world.order, ["tailscale 8080"]);
    assert!(world.ssh_calls.is_empty());
    assert!(world.tailscale.as_ref().unwrap().mapped.is_empty());
}

#[test]
fn apply_preserves_prior_success_without_rollback_and_stops_remaining() {
    let mut world = World::new(
        &services(&[("web", 8080), ("api", 9090), ("db", 5432)]),
        &publications(&[
            ("web", TAILSCALE_PUBLISHER),
            ("api", OPENSSH_PUBLISHER),
            ("db", TAILSCALE_PUBLISHER),
        ]),
    )
    .configured(&providers(&[("api", "127.0.0.1", 18_085)]))
    .serving(&[8080, 9090, 5432]);
    world.ssh.as_mut().unwrap().failing_local_port = Some(9090);
    let result = world.run(&["apply"]);
    assert_eq!(result.code, 1);
    assert_eq!(result.stdout, created_line("web", 8080));
    assert_eq!(
        result.stderr,
        "error: apply failed for api via openssh-reverse-tcp: OpenSSH remote forwarding request was not acknowledged; earlier successful publications were not rolled back\n"
    );
    assert_eq!(world.order, ["tailscale 8080", "openssh 9090"]);
    let mapped: Vec<u16> = world.tailscale.as_ref().unwrap().mapped.iter().copied().collect();
    assert_eq!(mapped, [8080]);
    assert_eq!(world.ssh.as_ref().unwrap().started, 1);
}

const OPENSSH_INFO: &str = "INFO  OpenSSH remote reachability, host-key trust, credentials, authentication, forwarding policy, and listener availability were not probed";

fn assert_diagnosis(result: &Output, failures: usize) {
    assert!(result.stderr.is_empty());
    let found = result
        .stdout
        .lines()
        .filter(|line| line.starts_with("FAIL  "))
        .count();
    assert_eq!(found, failures, "{}", result.stdout);
    let last = result.stdout.lines().last().unwrap();
    if failures == 0 {
        assert_eq!(result.code, 0);
        assert_eq!(last, "No blocking readiness issues detected by performed checks");
    } else {
        assert_eq!(result.code, 1);
        assert_eq!(last, format!("Found {failures} blocking readiness issues"));
    }
}

fn assert_row(result: &Output, row: &str) {
    assert!(result.stdout.lines().any(|line| line == row), "{row}: {}", result.stdout);
}

fn assert_info_once(result: &Output) {
    assert_eq!(
        result.stdout.lines().filter(|line| *line == OPENSSH_INFO).count(),
        1
    );
}

fn assert_nothing_changed(world: &World) {
    assert!(world.order.is_empty());
    assert!(world.tailscale_calls.iter().all(|call| !call.starts_with("serve --bg")));
    assert!(world
        .ssh_calls
        .iter()
        .all(|call| is_expansion(call) || is_control(call, "check")));
}

#[test]
fn doctor_rejects_extra_arguments_before_any_observation() {
    let mut world = World::new(&[0xff], &[0xff]).configured(&[0xff]);
    for arguments in [
        &["doctor", "web"][..],
        &["doctor", "web", TAILSCALE_PUBLISHER],
        &["doctor", "--remote"],
        &["doctor", "unexpected"],
    ] {
        let result = world.run(arguments);
        assert_eq!(result.code, 2);
        assert!(result.stdout.is_empty());
        assert_eq!(result.stderr, "Usage: aequimuta <command>\n");
    }
    assert!(world.reads.is_empty() && world.connections.is_empty());
    assert!(world.tailscale_calls.is_empty() && world.ssh_calls.is_empty());
}

#[test]
fn doctor_reports_project_input_failures_and_empty_state() {
    let cases: &[(&str, Option<&[u8]>, Option<&[u8]>, &str)] = &[
        (
            "missing-core",
            None,
            Some(b"[[publications]\n"),
            "FAIL  aequimuta.toml: failed to read aequimuta.toml",
        ),
        (
            "invalid-core",
            Some(b"[[services]\n"),
            Some(b"# valid publishing intent\n"),
            "FAIL  aequimuta.toml: aequimuta.toml is not a valid declaration",
        ),
        (
            "missing-publishing",
            Some(b"# valid declaration\n"),
            None,
            "FAIL  aequimuta.publish.toml: failed to read aequimuta.publish.toml",
        ),
        (
            "invalid-publishing",
            Some(b"# valid declaration\n"),
            Some(b"[[publications]\n"),
            "FAIL  aequimuta.publish.toml: aequimuta.publish.toml is not a valid publishing intent",
        ),
    ];
    for (label, declaration, publishing, row) in cases {
        let mut world = World::new(b"", b"").configured(&[0xff]);
        world.files.remove(DECLARATION_FILE);
        world.files.remove(PUBLISHING_FILE);
        if let Some(contents) = declaration {
            world.files.insert(DECLARATION_FILE, contents.to_vec());
        }
        if let Some(contents) = publishing {
            world.files.insert(PUBLISHING_FILE, contents.to_vec());
        }
        let result = world.run(&["doctor"]);
        assert_diagnosis(&result, 1);
        assert_row(&result, row);
        assert!(!result.stdout.contains("Local backends\n"), "{label}");
        assert!(!result.stdout.contains("Tailscale\n"), "{label}");
        assert!(!result.stdout.contains("OpenSSH\n"), "{label}");
    }

    let mut world = World::new(&services(&[("web", 8080)]), b"# no desired publications\n")
        .configured(b"not valid TOML = [\nprivate_key = \"must-not-be-read\"\n")
        .serving(&[8080]);
    let result = world.run(&["doctor"]);
    assert_diagnosis(&result, 0);
    assert_eq!(
        result.stdout,
        "Project\n\
         PASS  aequimuta.toml\n\
         PASS  aequimuta.publish.toml\n\
         INFO  No desired publications to check\n\
         No blocking readiness issues detected by performed checks\n"
    );
    assert!(world.connections.is_empty());
    assert!(world.tailscale_calls.is_empty() && world.ssh_calls.is_empty());
}

#[test]
fn doctor_reports_applicability_and_provider_configuration_failures() {
    let mut world = World::new(
        &services(&[("web", 8080)]),
        &publications(&[("web", "example-publisher")]),
    )
    .serving(&[8080]);
    let result = world.run(&["doctor"]);
    assert_diagnosis(&result, 1);
    assert_row(
        &result,
        "FAIL  Operational publisher support: unsupported desired publisher tokens: example-publisher",
    );
    assert_eq!(world.connections, [8080]);
    assert!(world.tailscale_calls.is_empty() && world.ssh_calls.is_empty());

    let mut world = World::new(
        &services(&[("web", 8080), ("api", 8080)]),
        &publications(&[("web", TAILSCALE_PUBLISHER), ("api", TAILSCALE_PUBLISHER)]),
    )
    .serving(&[8080]);
    let result = world.run(&["doctor"]);
    assert_diagnosis(&result, 1);
    assert_row(
        &result,
        "FAIL  Tailscale desired-slot rules: multiple publications target the same current-node TCP port",
    );
    assert_eq!(world.connections, [8080]);
    assert!(world.tailscale_calls.is_empty());

    let mut world = World::new(
        &services(&[("web", 8080)]),
        &publications(&[("web", TAILSCALE_PUBLISHER)]),
    )
    .configured(b"not valid TOML = [\nprivate_key = \"must-not-be-read\"\n")
    .serving(&[8080]);
    let result = world.run(&["doctor"]);
    assert_diagnosis(&result, 0);
    assert!(!result.stdout.contains("OpenSSH\n"));
    assert_eq!(world.tailscale_calls, read_only_calls());
    assert!(world.ssh_calls.is_empty());

    for (label, configuration, detail) in [
        (
            "missing-openssh",
            None,
            "failed to read aequimuta.openssh-reverse-tcp.toml",
        ),
        (
            "invalid-openssh",
            Some(&b"future = true\n"[..]),
            "aequimuta.openssh-reverse-tcp.toml is not a valid OpenSSH reverse TCP configuration",
        ),
        (
            "unresolved-openssh",
            Some(b"# no provider publications\n"),
            "desired OpenSSH reverse TCP publication has no provider configuration",
        ),
    ] {
        let mut world = forwarding_world(8080);
        world.files.remove(CONFIGURATION_FILE);
        if let Some(contents) = configuration {
            world = world.configured(contents);
        }
        let result = world.run(&["doctor"]);
        assert_diagnosis(&result, 1);
        assert_row(
            &result,
            &format!("FAIL  Provider configuration and desired-slot rules: {detail}"),
        );
        assert_info_once(&result);
        assert!(world.ssh_calls.is_empty(), "{label}");
        assert!(world.tailscale_calls.is_empty(), "{label}");
    }

    let mut world = World::new(
        &services(&[("web", 8080), ("api", 9090)]),
        &publications(&[("web", OPENSSH_PUBLISHER), ("api", OPENSSH_PUBLISHER)]),
    )
    .configured(&providers(&[("web", "0.0.0.0", 18_080), ("api", "0.0.0.0", 18_080)]))
    .serving(&[8080, 9090]);
    let result = world.run(&["doctor"]);
    assert_diagnosis(&result, 1);
    assert_row(
        &result,
        "FAIL  Provider configuration and desired-slot rules: desired OpenSSH reverse TCP publications conflict",
    );
    assert_info_once(&result);
    assert!(world.ssh_calls.is_empty());
}

#[test]
fn doctor_lists_unsupported_publishers_once_each() {
    let mut world = World::new(
        &services(&[("web", 8080), ("api", 9090)]),
        &publications(&[("web", "first"), ("api", "second"), ("api", "first")]),
    )
    .serving(&[8080, 9090]);
    let result = world.run(&["doctor"]);
    assert_row(
        &result,
        "FAIL  Operational publisher support: unsupported desired publisher tokens: first, second",
    );
}

#[test]
fn doctor_checks_unique_backends_once_without_protocol_payload() {
    let mut configuration = canonical_provider("web");
    configuration.extend(provider("api", "edge-two.example.com", TEST_USER, 22, "0.0.0.0", 18_081));
    let mut world = World::new(
        &services(&[("web", 8080), ("api", 8080)]),
        &publications(&[
            ("web", TAILSCALE_PUBLISHER),
            ("web", OPENSSH_PUBLISHER),
            ("api", OPENSSH_PUBLISHER),
        ]),
    )
    .configured(&configuration)
    .serving(&[8080]);
    let before = world.entries.clone();
    let result = world.run(&["doctor"]);
    assert_diagnosis(&result, 0);
    assert_eq!(world.connections, [8080]);
    assert_eq!(
        result.stdout.lines().filter(|line| line.contains("127.0.0.1:8080")).count(),
        1
    );
    assert_eq!(world.entries, before);
    assert_nothing_changed(&world);

    let mut world = World::new(
        &services(&[("broken", 9090)]),
        &publications(&[("broken", TAILSCALE_PUBLISHER)]),
    );
    let result = world.run(&["doctor"]);
    assert_diagnosis(&result, 1);
    assert_row(&result, "FAIL  broken 127.0.0.1:9090 is not reachable");
    assert_eq!(world.tailscale_calls, read_only_calls());
    assert_nothing_changed(&world);
}

fn serve_world(port: u16) -> World {
    World::new(
        &services(&[("web", port)]),
        &publications(&[("web", TAILSCALE_PUBLISHER)]),
    )
    .serving(&[port])
}

#[test]
fn doctor_fails_closed_on_tailscale_query_and_client_errors() {
    let mut world = serve_world(8080);
    world.tailscale = None;
    let result = world.run(&["doctor"]);
    assert_diagnosis(&result, 1);
    assert_row(
        &result,
        "FAIL  Tailscale client prerequisites: tailscale executable is not available",
    );

    let client = |json: Option<&str>| {
        let mut fake = FakeTailscale::new();
        fake.client = json.map(str::to_owned);
        fake
    };
    let mut serve_down = FakeTailscale::new();
    serve_down.serve_fails = true;
    let cases = vec![
        (
            "client-nonzero",
            client(None),
            1,
            "FAIL  Tailscale client prerequisites: Tailscale daemon or client is not operational",
        ),
        (
            "client-malformed",
            client(Some("{\"BackendState\":")),
            1,
            "FAIL  Tailscale client prerequisites: Tailscale client state is indeterminate",
        ),
        (
            "client-prerequisite",
            client(Some("{\"BackendState\":\"Stopped\",\"Self\":{\"DNSName\":\"doctor-test.example.ts.net.\",\"Online\":false},\"CurrentTailnet\":{\"MagicDNSEnabled\":true}}")),
            1,
            "FAIL  Tailscale client prerequisites: Tailscale daemon or client is not operational",
        ),
        (
            "serve-nonzero",
            serve_down,
            2,
            "FAIL  Serve state observation: failed to inspect Tailscale Serve state",
        ),
        (
            "serve-malformed",
            FakeTailscale::showing("{\"TCP\":"),
            2,
            "FAIL  Serve state observation: failed to inspect Tailscale Serve state",
        ),
    ];
    for (label, fake, calls, row) in cases {
        let mut world = serve_world(8080);
        world.tailscale = Some(fake);
        let result = world.run(&["doctor"]);
        assert_diagnosis(&result, 1);
        assert_row(&result, row);
        assert_eq!(world.tailscale_calls.len(), calls, "{label}");
        assert!(world.ssh_calls.is_empty(), "{label}");
        assert_nothing_changed(&world);
    }
}

#[test]
fn doctor_projects_tailscale_relations_and_queries_once() {
    for (json, failures, row) in [
        ("{}", 0, "PASS  web Serve slot permits apply"),
        (
            r#"{"TCP":{"8080":{"TCPForward":"127.0.0.1:8080"}}}"#,
            0,
            "PASS  web Serve slot permits apply",
        ),
        (
            r#"{"TCP":{"8080":{"HTTPS":true}}}"#,
            1,
            "FAIL  web Serve slot is blocked by incompatible existing state",
        ),
        (
            r#"{"TCP":{"08080":{"TCPForward":"127.0.0.1:8080"}}}"#,
            1,
            "FAIL  web Serve slot cannot be classified safely",
        ),
    ] {
        let mut world = serve_world(8080);
        world.tailscale = Some(FakeTailscale::showing(json));
        let result = world.run(&["doctor"]);
        assert_diagnosis(&result, failures);
        assert_row(&result, row);
        assert!(!result.stdout.contains("Publication status for"));
        assert_eq!(world.tailscale_calls, read_only_calls());
        assert!(world.ssh_calls.is_empty());
    }

    let mut world = World::new(
        &services(&[("web", 8080), ("api", 9090)]),
        &publications(&[("web", TAILSCALE_PUBLISHER), ("api", TAILSCALE_PUBLISHER)]),
    )
    .serving(&[8080, 9090]);
    world.tailscale.as_mut().unwrap().mapped.extend([8080, 9090]);
    let result = world.run(&["doctor"]);
    assert_diagnosis(&result, 0);
    assert_row(&result, "PASS  web Serve slot permits apply");
    assert_row(&result, "PASS  api Serve slot permits apply");
    assert_eq!(world.tailscale_calls, read_only_calls());
}

#[test]
fn doctor_reports_ssh_availability_and_expansion_failures() {
    let mut world = forwarding_world(8080);
    world.ssh = None;
    let before = world.entries.clone();
    let result = world.run(&["doctor"]);
    assert_diagnosis(&result, 1);
    assert_row(
        &result,
        "FAIL  web ssh executable and control-path resolution: ssh executable is not available",
    );
    assert_info_once(&result);
    assert_eq!(world.entries, before);

    for expansion in [None, Some("hostname malformed.example.com\n".to_owned())] {
        let mut world = forwarding_world(8080);
        world.ssh.as_mut().unwrap().expansion = expansion;
        let before = world.entries.clone();
        let result = world.run(&["doctor"]);
        assert_diagnosis(&result, 1);
        assert_row(
            &result,
            "FAIL  web ssh executable and control-path resolution: failed to resolve a safe OpenSSH control path",
        );
        assert!(!result.stdout.contains(RUNTIME));
        assert_info_once(&result);
        assert_eq!(world.ssh_calls.len(), 1);
        assert!(is_expansion(&world.ssh_calls[0]));
        assert_eq!(world.entries, before);
    }
}

#[test]
fn doctor_inspects_runtime_without_preparing_it() {
    let mut world = forwarding_world(8080);
    let before = world.entries.clone();
    let result = world.run(&["doctor"]);
    assert_diagnosis(&result, 0);
    assert_row(&result, "PASS  Runtime path has no unsafe existing entry");
    assert_row(&result, "PASS  web local control state: no existing master");
    assert_eq!(world.entries, before);
    assert_eq!(world.ssh_calls.len(), 1);
    assert_nothing_changed(&world);

    let mut world = forwarding_world(8080);
    world.prepare_provider_directory();
    let before = world.entries.clone();
    let result = world.run(&["doctor"]);
    assert_diagnosis(&result, 0);
    assert_row(&result, "PASS  Runtime path has no unsafe existing entry");
    assert_eq!(world.entries, before);

    let row = "FAIL  Runtime path inspection: XDG_RUNTIME_DIR is not safe for OpenSSH reverse TCP control state";
    let mut world = forwarding_world(8080);
    world
        .entries
        .insert(RUNTIME.as_bytes().to_vec(), (EntryKind::Directory, USER, 0o40755));
    let result = world.run(&["doctor"]);
    assert_diagnosis(&result, 1);
    assert_row(&result, row);
    assert!(world.ssh_calls.is_empty());

    let mut world = forwarding_world(8080);
    world.prepare_provider_directory();
    let child = world.provider_directory().into_bytes();
    world.entries.insert(child, (EntryKind::Other, USER, 0o100600));
    let before = world.entries.clone();
    let result = world.run(&["doctor"]);
    assert_diagnosis(&result, 1);
    assert_row(&result, row);
    assert!(world.ssh_calls.is_empty());
    assert_eq!(world.entries, before);
}

#[test]
fn doctor_checks_only_safe_existing_control_sockets() {
    let mut absent = forwarding_world(8080);
    absent.prepare_provider_directory();
    let result = absent.run(&["doctor"]);
    assert_diagnosis(&result, 0);
    assert_row(&result, "PASS  web local control state: no existing master");
    assert_eq!(absent.ssh_calls.len(), 1);

    let mut live = live_world();
    let before = live.entries.clone();
    let result = live.run(&["doctor"]);
    assert_diagnosis(&result, 0);
    assert_row(&result, "PASS  web local control state: existing master responds");
    assert_eq!(live.ssh_calls.len(), 2);
    assert_eq!(count_control(&live.ssh_calls, "check"), 1);
    assert_eq!(live.entries, before);

    let row = "FAIL  web local control state: OpenSSH control socket state is stale or unsafe";
    let mut stale = live_world();
    stale.ssh.as_mut().unwrap().masters.clear();
    let before = stale.entries.clone();
    let result = stale.run(&["doctor"]);
    assert_diagnosis(&result, 1);
    assert_row(&result, row);
    assert_eq!(stale.ssh_calls.len(), 2);
    assert_eq!(stale.entries, before);

    let mut unsafe_entry = live_world();
    unsafe_entry
        .entries
        .insert(control_path(TEST_HOST).into_bytes(), (EntryKind::Other, USER, 0o100600));
    let before = unsafe_entry.entries.clone();
    let result = unsafe_entry.run(&["doctor"]);
    assert_diagnosis(&result, 1);
    assert_row(&result, row);
    assert_eq!(unsafe_entry.ssh_calls.len(), 1);
    assert_eq!(unsafe_entry.entries, before);
}

fn assert_section_order(stdout: &str, sections: &[&str]) {
    let mut start = 0;
    for section in sections {
        let offset = stdout[start..].find(section);
        assert!(offset.is_some(), "{section:?} is missing or out of order in {stdout}");
        start += offset.unwrap() + section.len();
    }
}

#[test]
fn doctor_aggregates_failures_and_continues_independent_provider_branches() {
    let mut world = World::new(
        &services(&[("broken", 9090)]),
        &publications(&[("broken", TAILSCALE_PUBLISHER)]),
    );
    world.tailscale = Some(FakeTailscale::showing(r#"{"TCP":{"9090":{"HTTPS":true}}}"#));
    let result = world.run(&["doctor"]);
    assert_diagnosis(&result, 2);
    assert_row(&result, "FAIL  broken 127.0.0.1:9090 is not reachable");
    assert_row(&result, "FAIL  broken Serve slot is blocked by incompatible existing state");
    assert_section_order(
        &result.stdout,
        &["Project\n", "Local backends\n", "Tailscale\n", "Found 2"],
    );
    assert_eq!(world.tailscale_calls, read_only_calls());

    let mut world = World::new(
        &services(&[("web", 8080), ("admin", 9090)]),
        &publications(&[("web", TAILSCALE_PUBLISHER), ("admin", OPENSSH_PUBLISHER)]),
    )
    .configured(&providers(&[("admin", "0.0.0.0", 18_080)]))
    .serving(&[8080, 9090]);
    world.tailscale.as_mut().unwrap().client = None;
    let before = world.entries.clone();
    let result = world.run(&["doctor"]);
    assert_diagnosis(&result, 1);
    assert!(result.stdout.contains("FAIL  Tailscale client prerequisites"));
    assert!(result.stdout.contains("OpenSSH\n"));
    assert_row(&result, "PASS  admin ssh executable and control-path resolution");
    assert_row(&result, "PASS  admin local control state: no existing master");
    assert_info_once(&result);
    assert_eq!(world.tailscale_calls, ["status --json"]);
    assert_eq!(world.ssh_calls.len(), 1);
    assert_eq!(world.entries, before);
}

#[test]
fn doctor_preserves_all_scoped_state_and_emits_deterministic_output() {
    let mut world = live_world();
    world.files.insert(
        PUBLISHING_FILE,
        publications(&[("web", TAILSCALE_PUBLISHER), ("web", OPENSSH_PUBLISHER)]),
    );
    world.tailscale.as_mut().unwrap().mapped.insert(8080);
    let before = world.entries.clone();
    let result = world.run(&["doctor"]);
    assert_diagnosis(&result, 0);
    assert_eq!(
        result.stdout,
        format!(
            "Project\n\
             PASS  aequimuta.toml\n\
             PASS  aequimuta.publish.toml\n\
             INFO  Desired publications: 2\n\
             PASS  Operational publisher support\n\
             PASS  Tailscale desired-slot rules\n\
             Local backends\n\
             PASS  web 127.0.0.1:8080\n\
             Tailscale\n\
             PASS  Client state permits endpoint resolution\n\
             PASS  web Serve slot permits apply\n\
             OpenSSH\n\
             PASS  Provider configuration and desired-slot rules\n\
             PASS  Runtime path has no unsafe existing entry\n\
             PASS  web ssh executable and control-path resolution\n\
             PASS  web local control state: existing master responds\n\
             {OPENSSH_INFO}\n\
             No blocking readiness issues detected by performed checks\n"
        )
    );
    assert_eq!(world.connections, [8080]);
    assert_eq!(world.tailscale_calls, read_only_calls());
    assert_eq!(world.ssh_calls.len(), 2);
    assert_eq!(world.entries, before);
    assert_nothing_changed(&world);
}

fn mixed_world() -> World {
    World::new(
        &services(&[("alpha", 8001), ("middle", 8002), ("zeta", 8003)]),
        &publications(&[
            ("zeta", TAILSCALE_PUBLISHER),
            ("alpha", OPENSSH_PUBLISHER),
            ("middle", TAILSCALE_PUBLISHER),
        ]),
    )
    .configured(&providers(&[("alpha", "127.0.0.1", 18_082)]))
    .serving(&[8001, 8002, 8003])
}

#[test]
fn apply_and_publish_report_the_same_lines() {
    let applied = mixed_world().run(&["apply"]);
    let mut world = mixed_world();
    let mut published = String::new();
    for (service, publisher) in [
        ("zeta", TAILSCALE_PUBLISHER),
        ("alpha", OPENSSH_PUBLISHER),
        ("middle", TAILSCALE_PUBLISHER),
    ] {
        let result = world.run(&["publish", service, publisher]);
        assert_eq!(result.code, 0);
        published.push_str(&result.stdout);
    }
    assert_eq!(applied.stdout, format!("{published}Applied 3 desired publications\n"));
}

#[test]
fn doctor_and_apply_connect_to_the_same_backends() {
    let mut examined = mixed_world();
    assert_eq!(examined.run(&["doctor"]).code, 0);
    let mut applied = mixed_world();
    assert_eq!(applied.run(&["apply"]).code, 0);
    assert_eq!(examined.connections, [8003, 8001, 8002]);
    assert_eq!(applied.connections[..3], examined.connections[..]);
    assert!(examined.order.is_empty());
}

#[test]
fn fields_may_stand_in_any_order() {
    let mut world = World::new(
        b"[[services]]\nport = 8080\nname = \"web\"\n",
        b"[[publications]]\npublisher = \"tailscale-serve-tcp\"\nservice = \"web\"\n",
    );
    assert_eq!(world.run(&["validate"]).stdout, "aequimuta.toml is valid\n");
    assert_eq!(
        world.run(&["validate-publishing"]).stdout,
        "aequimuta.publish.toml is valid\n"
    );
}
