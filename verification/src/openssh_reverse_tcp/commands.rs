//! The `ssh` commands and what their replies mean.

use crate::failure::Failure;
use crate::openssh_reverse_tcp::configuration::{
    valid_publication, ProviderModel, ProviderPublication,
};
use crate::openssh_reverse_tcp::control_path::SshReply;
use crate::paths::{copy_bytes, join_path, joined};
use crate::text::{
    ascii_bytes, ascii_bytes_are_utf8, decimal, decimal_is_injective, decimal_text,
    lemma_decimal_is_numeral, numeral, numeral_reads_back, parse_numeral, starts_with,
};
use vstd::prelude::*;
use vstd::utf8::encode_utf8;

verus! {

/// How long `ssh -G` may take, in nanoseconds.
pub const SSH_CONFIGURATION_TIMEOUT: u64 = 5_000_000_000;

/// How long a check of a control master may take, in nanoseconds.
pub const SSH_CONTROL_CHECK_TIMEOUT: u64 = 5_000_000_000;

/// How long a forwarding request may take, in nanoseconds.
pub const SSH_FORWARD_REQUEST_TIMEOUT: u64 = 30_000_000_000;

/// An argument of a command: a text, or a path that need not be UTF-8.
pub enum Argument {
    Text(String),
    Path(Vec<u8>),
}

/// The mathematical model of an argument.
pub enum ArgumentModel {
    Text(Seq<char>),
    Path(Seq<u8>),
}

impl DeepView for Argument {
    type V = ArgumentModel;

    open spec fn deep_view(&self) -> ArgumentModel {
        match self {
            Argument::Text(text) => ArgumentModel::Text(text@),
            Argument::Path(path) => ArgumentModel::Path(path@),
        }
    }
}

/// An `ssh` command whose output is collected: its arguments, whether it runs in the C
/// locale, and its time limit in nanoseconds.
pub struct SshCommand {
    pub arguments: Vec<Argument>,
    pub c_locale: bool,
    pub timeout: u64,
}

/// The mathematical model of a command.
pub struct SshCommandModel {
    pub arguments: Seq<ArgumentModel>,
    pub c_locale: bool,
    pub timeout: u64,
}

impl View for SshCommand {
    type V = SshCommandModel;

    open spec fn view(&self) -> SshCommandModel {
        SshCommandModel {
            arguments: self.arguments.deep_view(),
            c_locale: self.c_locale,
            timeout: self.timeout,
        }
    }
}

/// Text arguments.
pub open spec fn texts(all: Seq<Seq<char>>) -> Seq<ArgumentModel> {
    all.map_values(|text: Seq<char>| ArgumentModel::Text(text))
}

fn push_texts(arguments: &mut Vec<Argument>, all: &[&str])
    ensures
        final(arguments).deep_view() == old(arguments).deep_view() + texts(all.deep_view()),
{
    let ghost start = arguments.deep_view();
    let mut i: usize = 0;
    assert(arguments.deep_view() =~= start + texts(all.deep_view().take(0)));
    while i < all.len()
        invariant
            i <= all.len(),
            arguments.deep_view() == start + texts(all.deep_view().take(i as int)),
        decreases all.len() - i,
    {
        let ghost before = arguments.deep_view();
        arguments.push(Argument::Text(all[i].to_owned()));
        i = i + 1;
        assert(arguments.deep_view() =~= before.push(ArgumentModel::Text(all@[i - 1]@)));
        assert(all.deep_view().take(i as int) =~= all.deep_view().take(i - 1).push(all@[i - 1]@));
        assert(arguments.deep_view() =~= start + texts(all.deep_view().take(i as int)));
    }
    assert(all.deep_view().take(all.len() as int) =~= all.deep_view());
}

fn push_path(arguments: &mut Vec<Argument>, path: &[u8])
    ensures
        final(arguments).deep_view() == old(arguments).deep_view().push(
            ArgumentModel::Path(path@),
        ),
{
    let ghost start = arguments.deep_view();
    arguments.push(Argument::Path(copy_bytes(path)));
    assert(arguments.deep_view() =~= start.push(ArgumentModel::Path(path@)));
}

/// The option that fixes the host name.
pub open spec fn host_option(host: Seq<char>) -> Seq<char> {
    "HostName="@ + host
}

/// The option that fixes the host name, whatever the user's configuration says.
pub fn host_name_option(host: &str) -> (option: String)
    ensures
        option@ == host_option(host@),
{
    let mut option = "HostName=".to_owned();
    option.append(host);
    option
}

/// The name of a control socket, with the place for OpenSSH's connection hash.
pub open spec fn template_name() -> Seq<u8> {
    ascii_bytes("cm-%C"@)
}

/// The command that has OpenSSH expand the control path of a destination.
pub open spec fn control_path_query_model(
    runtime_directory: Seq<u8>,
    publication: ProviderModel,
) -> SshCommandModel {
    SshCommandModel {
        arguments: texts(seq!["-G"@, "-F"@, "none"@, "-4"@, "-S"@]).push(
            ArgumentModel::Path(joined(runtime_directory, template_name())),
        ) + texts(
            seq![
                "-l"@,
                publication.user,
                "-p"@,
                decimal(publication.ssh_port as nat),
                "-o"@,
                host_option(publication.host),
                "-o"@,
                "CanonicalizeHostname=no"@,
                "-o"@,
                "ProxyCommand=none"@,
                "-o"@,
                "ProxyJump=none"@,
                publication.host,
            ],
        ),
        c_locale: false,
        timeout: SSH_CONFIGURATION_TIMEOUT,
    }
}

/// The command that has OpenSSH expand the control path of a destination.
pub fn control_path_query(
    runtime_directory: &Vec<u8>,
    publication: &ProviderPublication,
) -> (command: SshCommand)
    ensures
        command@ == control_path_query_model(runtime_directory@, publication.deep_view()),
{
    let name: [u8; 5] = [99, 109, 45, 37, 67];
    proof {
        reveal_strlit("cm-%C");
        assert(name@ =~= template_name());
    }
    let template = join_path(runtime_directory, name.as_slice());
    let mut arguments: Vec<Argument> = Vec::new();
    assert(arguments.deep_view() =~= Seq::empty());
    let front: [&str; 5] = ["-G", "-F", "none", "-4", "-S"];
    let front: &[&str] = front.as_slice();
    assert(front.deep_view() =~= seq!["-G"@, "-F"@, "none"@, "-4"@, "-S"@]);
    push_texts(&mut arguments, front);
    push_path(&mut arguments, &template);
    let port = decimal_text(publication.ssh_port as u64);
    let option = host_name_option(publication.host.as_str());
    let back: [&str; 13] = [
        "-l",
        publication.user.as_str(),
        "-p",
        port.as_str(),
        "-o",
        option.as_str(),
        "-o",
        "CanonicalizeHostname=no",
        "-o",
        "ProxyCommand=none",
        "-o",
        "ProxyJump=none",
        publication.host.as_str(),
    ];
    let back: &[&str] = back.as_slice();
    push_texts(&mut arguments, back);
    let command = SshCommand { arguments, c_locale: false, timeout: SSH_CONFIGURATION_TIMEOUT };
    proof {
        let model = publication.deep_view();
        assert(back.deep_view() =~= seq![
            "-l"@,
            model.user,
            "-p"@,
            decimal(model.ssh_port as nat),
            "-o"@,
            host_option(model.host),
            "-o"@,
            "CanonicalizeHostname=no"@,
            "-o"@,
            "ProxyCommand=none"@,
            "-o"@,
            "ProxyJump=none"@,
            model.host,
        ]);
        assert(command@.arguments =~= control_path_query_model(
            runtime_directory@,
            model,
        ).arguments);
    }
    command
}

/// The options that keep a control master apart from the user's configuration.
pub open spec fn master_options() -> Seq<Seq<char>> {
    seq![
        "-o"@,
        "BatchMode=yes"@,
        "-o"@,
        "StrictHostKeyChecking=yes"@,
        "-o"@,
        "ClearAllForwardings=yes"@,
        "-o"@,
        "ForwardAgent=no"@,
        "-o"@,
        "ForwardX11=no"@,
        "-o"@,
        "RequestTTY=no"@,
        "-o"@,
        "SessionType=none"@,
        "-o"@,
        "RemoteCommand=none"@,
        "-o"@,
        "CanonicalizeHostname=no"@,
        "-o"@,
        "ProxyCommand=none"@,
        "-o"@,
        "ProxyJump=none"@,
        "-o"@,
        "ControlMaster=yes"@,
        "-o"@,
        "ControlPersist=no"@,
        "-o"@,
        "ForkAfterAuthentication=no"@,
        "-o"@,
        "PermitLocalCommand=no"@,
        "-o"@,
        "LocalCommand=none"@,
        "-o"@,
        "Tunnel=no"@,
        "-o"@,
        "UpdateHostKeys=no"@,
        "-o"@,
        "AddKeysToAgent=no"@,
    ]
}

/// The arguments that start a control master for a destination.
pub open spec fn master_arguments(control_path: Seq<u8>, publication: ProviderModel) -> Seq<
    ArgumentModel,
> {
    texts(seq!["-4"@, "-M"@, "-N"@, "-n"@, "-T"@, "-S"@]).push(ArgumentModel::Path(control_path))
        + texts(destination_arguments(publication)) + texts(master_options()) + texts(
        seq![publication.host],
    )
}

/// The arguments that start a control master for a destination.
pub fn spawn_master(control_path: &Vec<u8>, publication: &ProviderPublication) -> (arguments: Vec<
    Argument,
>)
    ensures
        arguments.deep_view() == master_arguments(control_path@, publication.deep_view()),
{
    let mut arguments: Vec<Argument> = Vec::new();
    assert(arguments.deep_view() =~= Seq::empty());
    let front: [&str; 6] = ["-4", "-M", "-N", "-n", "-T", "-S"];
    let front: &[&str] = front.as_slice();
    assert(front.deep_view() =~= seq!["-4"@, "-M"@, "-N"@, "-n"@, "-T"@, "-S"@]);
    push_texts(&mut arguments, front);
    push_path(&mut arguments, control_path);
    push_destination(&mut arguments, publication);
    let options: [&str; 38] = [
        "-o",
        "BatchMode=yes",
        "-o",
        "StrictHostKeyChecking=yes",
        "-o",
        "ClearAllForwardings=yes",
        "-o",
        "ForwardAgent=no",
        "-o",
        "ForwardX11=no",
        "-o",
        "RequestTTY=no",
        "-o",
        "SessionType=none",
        "-o",
        "RemoteCommand=none",
        "-o",
        "CanonicalizeHostname=no",
        "-o",
        "ProxyCommand=none",
        "-o",
        "ProxyJump=none",
        "-o",
        "ControlMaster=yes",
        "-o",
        "ControlPersist=no",
        "-o",
        "ForkAfterAuthentication=no",
        "-o",
        "PermitLocalCommand=no",
        "-o",
        "LocalCommand=none",
        "-o",
        "Tunnel=no",
        "-o",
        "UpdateHostKeys=no",
        "-o",
        "AddKeysToAgent=no",
    ];
    let options: &[&str] = options.as_slice();
    assert(options.deep_view() =~= master_options());
    push_texts(&mut arguments, options);
    let host: [&str; 1] = [publication.host.as_str()];
    let host: &[&str] = host.as_slice();
    assert(host.deep_view() =~= seq![publication.deep_view().host]);
    push_texts(&mut arguments, host);
    assert(arguments.deep_view() =~= master_arguments(control_path@, publication.deep_view()));
    arguments
}

/// The arguments that name the user, port and host of a destination.
pub open spec fn destination_arguments(publication: ProviderModel) -> Seq<Seq<char>> {
    seq![
        "-l"@,
        publication.user,
        "-p"@,
        decimal(publication.ssh_port as nat),
        "-o"@,
        host_option(publication.host),
    ]
}

fn push_destination(arguments: &mut Vec<Argument>, publication: &ProviderPublication)
    ensures
        final(arguments).deep_view() == old(arguments).deep_view() + texts(
            destination_arguments(publication.deep_view()),
        ),
{
    let port = decimal_text(publication.ssh_port as u64);
    let option = host_name_option(publication.host.as_str());
    let destination: [&str; 6] = [
        "-l",
        publication.user.as_str(),
        "-p",
        port.as_str(),
        "-o",
        option.as_str(),
    ];
    let destination: &[&str] = destination.as_slice();
    assert(destination.deep_view() =~= destination_arguments(publication.deep_view()));
    push_texts(arguments, destination);
}

/// The arguments in front of every request to a control master: no user configuration,
/// and no new master.
pub open spec fn isolated_arguments(control_path: Seq<u8>, publication: ProviderModel) -> Seq<
    ArgumentModel,
> {
    texts(seq!["-F"@, "none"@, "-4"@, "-S"@]).push(ArgumentModel::Path(control_path)) + texts(
        seq!["-o"@, "ControlMaster=no"@],
    ) + texts(destination_arguments(publication))
}

/// The arguments in front of every request to a control master.
pub fn isolated_control_command(
    control_path: &Vec<u8>,
    publication: &ProviderPublication,
) -> (arguments: Vec<Argument>)
    ensures
        arguments.deep_view() == isolated_arguments(control_path@, publication.deep_view()),
{
    let mut arguments: Vec<Argument> = Vec::new();
    assert(arguments.deep_view() =~= Seq::empty());
    let front: [&str; 4] = ["-F", "none", "-4", "-S"];
    let front: &[&str] = front.as_slice();
    assert(front.deep_view() =~= seq!["-F"@, "none"@, "-4"@, "-S"@]);
    push_texts(&mut arguments, front);
    push_path(&mut arguments, control_path);
    let option: [&str; 2] = ["-o", "ControlMaster=no"];
    let option: &[&str] = option.as_slice();
    assert(option.deep_view() =~= seq!["-o"@, "ControlMaster=no"@]);
    push_texts(&mut arguments, option);
    push_destination(&mut arguments, publication);
    assert(arguments.deep_view() =~= isolated_arguments(control_path@, publication.deep_view()));
    arguments
}

/// The command that asks a control master whether it runs.
pub open spec fn master_check_model(
    control_path: Seq<u8>,
    publication: ProviderModel,
) -> SshCommandModel {
    SshCommandModel {
        arguments: isolated_arguments(control_path, publication) + texts(
            seq!["-O"@, "check"@, publication.host],
        ),
        c_locale: true,
        timeout: SSH_CONTROL_CHECK_TIMEOUT,
    }
}

/// The command that asks a control master whether it runs.
pub fn master_check(
    control_path: &Vec<u8>,
    publication: &ProviderPublication,
) -> (command: SshCommand)
    ensures
        command@ == master_check_model(control_path@, publication.deep_view()),
{
    let mut arguments = isolated_control_command(control_path, publication);
    let request: [&str; 3] = ["-O", "check", publication.host.as_str()];
    let request: &[&str] = request.as_slice();
    assert(request.deep_view() =~= seq!["-O"@, "check"@, publication.deep_view().host]);
    push_texts(&mut arguments, request);
    SshCommand { arguments, c_locale: true, timeout: SSH_CONTROL_CHECK_TIMEOUT }
}

/// The forwarding that a publication asks for.
pub open spec fn forward_text(publication: ProviderModel, local_port: u16) -> Seq<char> {
    publication.listen_address + ":"@ + decimal(publication.listen_port as nat) + ":127.0.0.1:"@
        + decimal(local_port as nat)
}

/// The command that asks a control master for a remote forward.
pub open spec fn forward_request_model(
    control_path: Seq<u8>,
    publication: ProviderModel,
    local_port: u16,
) -> SshCommandModel {
    SshCommandModel {
        arguments: isolated_arguments(control_path, publication) + texts(
            seq![
                "-O"@,
                "forward"@,
                "-R"@,
                forward_text(publication, local_port),
                publication.host,
            ],
        ),
        c_locale: false,
        timeout: SSH_FORWARD_REQUEST_TIMEOUT,
    }
}

/// The command that asks a control master for a remote forward.
pub fn forward_request(
    control_path: &Vec<u8>,
    publication: &ProviderPublication,
    local_port: u16,
) -> (command: SshCommand)
    ensures
        command@ == forward_request_model(control_path@, publication.deep_view(), local_port),
{
    let mut forward = publication.listen_address.clone();
    forward.append(":");
    forward.append(decimal_text(publication.listen_port as u64).as_str());
    forward.append(":127.0.0.1:");
    forward.append(decimal_text(local_port as u64).as_str());
    let mut arguments = isolated_control_command(control_path, publication);
    let request: [&str; 5] = [
        "-O",
        "forward",
        "-R",
        forward.as_str(),
        publication.host.as_str(),
    ];
    let request: &[&str] = request.as_slice();
    assert(request.deep_view() =~= seq![
        "-O"@,
        "forward"@,
        "-R"@,
        forward_text(publication.deep_view(), local_port),
        publication.deep_view().host,
    ]);
    push_texts(&mut arguments, request);
    SshCommand { arguments, c_locale: false, timeout: SSH_FORWARD_REQUEST_TIMEOUT }
}

/// What a control master writes in front of its process id.
pub open spec fn pid_prefix() -> Seq<u8> {
    ascii_bytes("Master running (pid="@)
}

/// Bytes read as characters, one by one.
pub open spec fn chars_in(bytes: Seq<u8>) -> Seq<char> {
    bytes.map_values(|byte: u8| byte as char)
}

/// A line without its line feed and the carriage return that may stand before it.
pub open spec fn whole_line(bytes: Seq<u8>) -> Option<Seq<u8>> {
    if bytes.len() > 0 && bytes.last() == 10 {
        let line = bytes.drop_last();
        if line.len() > 0 && line.last() == 13 {
            Some(line.drop_last())
        } else {
            Some(line)
        }
    } else {
        None
    }
}

/// The process id that a control master reports.
pub open spec fn master_pid(stderr: Seq<u8>) -> Option<u32> {
    match whole_line(stderr) {
        Some(line) => if starts_with(line, pid_prefix()) && line.len() > pid_prefix().len()
            && line.last() == 41 {
            match numeral(
                chars_in(line.subrange(pid_prefix().len() as int, line.len() - 1)),
                u32::MAX,
            ) {
                Some(pid) => if pid != 0 {
                    Some(pid)
                } else {
                    None
                },
                None => None,
            }
        } else {
            None
        },
        None => None,
    }
}

/// Reads the process id that a control master reports.
pub fn parse_master_pid(stderr: &[u8]) -> (pid: Option<u32>)
    ensures
        pid == master_pid(stderr@),
{
    let prefix: [u8; 20] = [
        77, 97, 115, 116, 101, 114, 32, 114, 117, 110, 110, 105, 110, 103, 32, 40, 112, 105, 100, 61,
    ];
    proof {
        reveal_strlit("Master running (pid=");
        assert(prefix@ =~= pid_prefix());
    }
    if stderr.len() == 0 || stderr[stderr.len() - 1] != 10 {
        return None;
    }
    let mut length: usize = stderr.len() - 1;
    if length > 0 && stderr[length - 1] == 13 {
        length = length - 1;
    }
    let ghost line = whole_line(stderr@)->0;
    assert(line =~= stderr@.take(length as int));
    if length <= 20 || stderr[length - 1] != 41 {
        return None;
    }
    let mut i: usize = 0;
    while i < 20
        invariant
            i <= 20 < length <= stderr.len(),
            prefix@ == pid_prefix(),
            line == stderr@.take(length as int),
            whole_line(stderr@) == Some(line),
            forall|j: int| 0 <= j < i ==> stderr@[j] == prefix@[j],
        decreases 20 - i,
    {
        if stderr[i] != prefix[i] {
            assert(line.take(20)[i as int] != prefix@[i as int]);
            return None;
        }
        i = i + 1;
    }
    assert(line.take(20) =~= pid_prefix());
    let mut digits: Vec<char> = Vec::new();
    while i < length - 1
        invariant
            20 <= i <= length - 1 < stderr.len(),
            digits@ == chars_in(stderr@.subrange(20, i as int)),
        decreases length - 1 - i,
    {
        digits.push(stderr[i] as char);
        i = i + 1;
        assert(digits@ =~= chars_in(stderr@.subrange(20, i as int)));
    }
    assert(digits@ =~= chars_in(line.subrange(20, line.len() - 1)));
    match parse_numeral(&digits, u32::MAX) {
        Some(pid) => if pid != 0 {
            Some(pid)
        } else {
            None
        },
        None => None,
    }
}

/// The report of a running control master, with or without a carriage return.
pub open spec fn pid_report(pid: u32, carriage_return: bool) -> Seq<u8> {
    ascii_bytes("Master running (pid="@ + decimal(pid as nat) + ")"@) + (if carriage_return {
        seq![13u8, 10u8]
    } else {
        seq![10u8]
    })
}

/// A process id is read exactly from the report that is written for it.
pub proof fn master_pid_reads_back(stderr: Seq<u8>, pid: u32)
    ensures
        master_pid(stderr) == Some(pid) <==> pid != 0 && (stderr == pid_report(pid, false) || stderr
            == pid_report(pid, true)),
{
    reveal_strlit("Master running (pid=");
    reveal_strlit(")");
    lemma_decimal_is_numeral(pid as nat);
    let prefix = pid_prefix();
    let number = decimal(pid as nat);
    let middle = ascii_bytes(number);
    assert forall|i: int| 0 <= i < number.len() implies #[trigger] chars_in(middle)[i]
        == number[i] by {
        assert(crate::text::is_digit(number[i]));
    }
    assert(chars_in(middle) =~= number);
    let line = prefix + middle + seq![41u8];
    assert(ascii_bytes("Master running (pid="@ + number + ")"@) =~= line);
    numeral_reads_back(number, pid, u32::MAX);
    if pid != 0 {
        assert(whole_line(line + seq![10u8]) == Some(line)) by {
            assert((line + seq![10u8]).drop_last() =~= line);
        }
        assert(whole_line(line + seq![13u8, 10u8]) == Some(line)) by {
            assert((line + seq![13u8, 10u8]).drop_last() =~= line + seq![13u8]);
            assert((line + seq![13u8]).drop_last() =~= line);
        }
        assert(line.take(prefix.len() as int) =~= prefix);
        assert(line.subrange(prefix.len() as int, line.len() - 1) =~= middle);
    }
    if master_pid(stderr) == Some(pid) {
        let read = whole_line(stderr)->0;
        let digits = read.subrange(prefix.len() as int, read.len() - 1);
        numeral_reads_back(chars_in(digits), pid, u32::MAX);
        assert forall|i: int| 0 <= i < digits.len() implies #[trigger] digits[i] == middle[i] by {
            assert(chars_in(digits)[i] == number[i]);
            assert(crate::text::is_digit(number[i]));
        }
        assert(digits =~= middle);
        assert(read =~= line) by {
            assert forall|i: int| 0 <= i < prefix.len() implies read[i] == prefix[i] by {
                assert(read.take(prefix.len() as int)[i] == prefix[i]);
            }
            assert forall|i: int| 0 <= i < middle.len() implies read[prefix.len() + i]
                == middle[i] by {
                assert(digits[i] == middle[i]);
            }
        }
        let unended = stderr.drop_last();
        if unended.len() > 0 && unended.last() == 13 {
            assert(stderr =~= line + seq![13u8, 10u8]);
        } else {
            assert(stderr =~= line + seq![10u8]);
        }
    }
}

/// The process id of a live control master, given what became of its check.
pub open spec fn live_pid(reply: SshReply, failure: Failure) -> Result<u32, Failure> {
    match reply {
        SshReply::ExecutableMissing => Err(Failure::SshMissing),
        SshReply::Failed => Err(failure),
        SshReply::Exited { success, stdout, stderr } => if !success || stdout@.len() > 0 {
            Err(failure)
        } else {
            match master_pid(stderr@) {
                Some(pid) => Ok(pid),
                None => Err(failure),
            }
        },
    }
}

/// The process id of a live control master, or `failure` when it does not answer as
/// one.
pub fn live_master_pid(reply: &SshReply, failure: Failure) -> (pid: Result<u32, Failure>)
    ensures
        pid == live_pid(*reply, failure),
{
    match reply {
        SshReply::ExecutableMissing => Err(Failure::SshMissing),
        SshReply::Failed => Err(failure),
        SshReply::Exited { success, stdout, stderr } => {
            if !*success || stdout.len() > 0 {
                return Err(failure);
            }
            match parse_master_pid(stderr) {
                Some(pid) => Ok(pid),
                None => Err(failure),
            }
        },
    }
}

/// Whether a forwarding request was acknowledged.
pub open spec fn forward_result(reply: SshReply) -> Result<(), Failure> {
    match reply {
        SshReply::ExecutableMissing => Err(Failure::SshMissing),
        SshReply::Failed => Err(Failure::ForwardNotAcknowledged),
        SshReply::Exited { success, stdout, stderr } => if success {
            Ok(())
        } else {
            Err(Failure::ForwardNotAcknowledged)
        },
    }
}

/// Whether a forwarding request was acknowledged.
pub fn request_forward(reply: &SshReply) -> (result: Result<(), Failure>)
    ensures
        result == forward_result(*reply),
{
    match reply {
        SshReply::ExecutableMissing => Err(Failure::SshMissing),
        SshReply::Failed => Err(Failure::ForwardNotAcknowledged),
        SshReply::Exited { success, stdout, stderr } => if *success {
            Ok(())
        } else {
            Err(Failure::ForwardNotAcknowledged)
        },
    }
}

/// Every command ends with the host, and the host of a valid publication cannot be taken
/// for an option.
pub proof fn commands_end_with_the_host(
    path: Seq<u8>,
    publication: ProviderModel,
    local_port: u16,
)
    requires
        valid_publication(publication),
    ensures
        control_path_query_model(path, publication).arguments.last() == ArgumentModel::Text(
            publication.host,
        ),
        master_arguments(path, publication).last() == ArgumentModel::Text(publication.host),
        master_check_model(path, publication).arguments.last() == ArgumentModel::Text(
            publication.host,
        ),
        forward_request_model(path, publication, local_port).arguments.last()
            == ArgumentModel::Text(publication.host),
        publication.host.len() > 0,
        publication.host.first() != '-',
{
}

/// Whether arguments set an option.
pub open spec fn sets_option(arguments: Seq<ArgumentModel>, option: Seq<char>) -> bool {
    exists|i: int|
        1 <= i < arguments.len() && arguments[i - 1] == ArgumentModel::Text("-o"@)
            && #[trigger] arguments[i] == ArgumentModel::Text(option)
}

/// A control master never prompts, trusts no unknown host key, and takes over no
/// forwarding, agent or proxy from the user's configuration.
pub proof fn masters_are_dedicated(control_path: Seq<u8>, publication: ProviderModel)
    ensures
        ({
            let arguments = master_arguments(control_path, publication);
            &&& sets_option(arguments, "BatchMode=yes"@)
            &&& sets_option(arguments, "StrictHostKeyChecking=yes"@)
            &&& sets_option(arguments, "ClearAllForwardings=yes"@)
            &&& sets_option(arguments, "ForwardAgent=no"@)
            &&& sets_option(arguments, "ProxyCommand=none"@)
            &&& sets_option(arguments, "ProxyJump=none"@)
            &&& sets_option(arguments, host_option(publication.host))
        }),
{
    let arguments = master_arguments(control_path, publication);
    let options = texts(master_options());
    assert forall|i: int| 0 <= i < options.len() implies arguments[i + 13] == options[i] by {}
    assert(arguments[13] == options[0] && arguments[14] == options[1]);
    assert(arguments[15] == options[2] && arguments[16] == options[3]);
    assert(arguments[17] == options[4] && arguments[18] == options[5]);
    assert(arguments[19] == options[6] && arguments[20] == options[7]);
    assert(arguments[31] == options[18] && arguments[32] == options[19]);
    assert(arguments[33] == options[20] && arguments[34] == options[21]);
    assert(arguments[11] == ArgumentModel::Text("-o"@));
    assert(arguments[12] == ArgumentModel::Text(host_option(publication.host)));
}

/// What is asked of a control master, and of OpenSSH about its path, is asked without the
/// user's configuration, and no such request makes a new master.
pub proof fn requests_are_isolated(path: Seq<u8>, publication: ProviderModel, local_port: u16)
    ensures
        ({
            let check = master_check_model(path, publication).arguments;
            let forward = forward_request_model(path, publication, local_port).arguments;
            let query = control_path_query_model(path, publication).arguments;
            &&& check[0] == ArgumentModel::Text("-F"@) && check[1] == ArgumentModel::Text("none"@)
            &&& forward[0] == ArgumentModel::Text("-F"@) && forward[1] == ArgumentModel::Text(
                "none"@,
            )
            &&& query[0] == ArgumentModel::Text("-G"@)
            &&& query[1] == ArgumentModel::Text("-F"@) && query[2] == ArgumentModel::Text("none"@)
            &&& sets_option(check, "ControlMaster=no"@)
            &&& sets_option(forward, "ControlMaster=no"@)
        }),
{
    let check = master_check_model(path, publication).arguments;
    let forward = forward_request_model(path, publication, local_port).arguments;
    assert(check[5] == ArgumentModel::Text("-o"@));
    assert(check[6] == ArgumentModel::Text("ControlMaster=no"@));
    assert(forward[5] == ArgumentModel::Text("-o"@));
    assert(forward[6] == ArgumentModel::Text("ControlMaster=no"@));
}

/// The arguments that start a control master, one by one.
pub proof fn masters_are_started_with_these_arguments(path: Seq<u8>, publication: ProviderModel)
    ensures
        ({
            let arguments = master_arguments(path, publication);
            &&& arguments.len() == 52
            &&& arguments[0] == ArgumentModel::Text("-4"@)
            &&& arguments[1] == ArgumentModel::Text("-M"@)
            &&& arguments[2] == ArgumentModel::Text("-N"@)
            &&& arguments[3] == ArgumentModel::Text("-n"@)
            &&& arguments[4] == ArgumentModel::Text("-T"@)
            &&& arguments[5] == ArgumentModel::Text("-S"@)
            &&& arguments[6] == ArgumentModel::Path(path)
            &&& arguments[7] == ArgumentModel::Text("-l"@)
            &&& arguments[8] == ArgumentModel::Text(publication.user)
            &&& arguments[9] == ArgumentModel::Text("-p"@)
            &&& arguments[10] == ArgumentModel::Text(decimal(publication.ssh_port as nat))
            &&& arguments[11] == ArgumentModel::Text("-o"@)
            &&& arguments[12] == ArgumentModel::Text("HostName="@ + publication.host)
            &&& arguments[13] == ArgumentModel::Text("-o"@)
            &&& arguments[14] == ArgumentModel::Text("BatchMode=yes"@)
            &&& arguments[15] == ArgumentModel::Text("-o"@)
            &&& arguments[16] == ArgumentModel::Text("StrictHostKeyChecking=yes"@)
            &&& arguments[17] == ArgumentModel::Text("-o"@)
            &&& arguments[18] == ArgumentModel::Text("ClearAllForwardings=yes"@)
            &&& arguments[19] == ArgumentModel::Text("-o"@)
            &&& arguments[20] == ArgumentModel::Text("ForwardAgent=no"@)
            &&& arguments[21] == ArgumentModel::Text("-o"@)
            &&& arguments[22] == ArgumentModel::Text("ForwardX11=no"@)
            &&& arguments[23] == ArgumentModel::Text("-o"@)
            &&& arguments[24] == ArgumentModel::Text("RequestTTY=no"@)
            &&& arguments[25] == ArgumentModel::Text("-o"@)
            &&& arguments[26] == ArgumentModel::Text("SessionType=none"@)
            &&& arguments[27] == ArgumentModel::Text("-o"@)
            &&& arguments[28] == ArgumentModel::Text("RemoteCommand=none"@)
            &&& arguments[29] == ArgumentModel::Text("-o"@)
            &&& arguments[30] == ArgumentModel::Text("CanonicalizeHostname=no"@)
            &&& arguments[31] == ArgumentModel::Text("-o"@)
            &&& arguments[32] == ArgumentModel::Text("ProxyCommand=none"@)
            &&& arguments[33] == ArgumentModel::Text("-o"@)
            &&& arguments[34] == ArgumentModel::Text("ProxyJump=none"@)
            &&& arguments[35] == ArgumentModel::Text("-o"@)
            &&& arguments[36] == ArgumentModel::Text("ControlMaster=yes"@)
            &&& arguments[37] == ArgumentModel::Text("-o"@)
            &&& arguments[38] == ArgumentModel::Text("ControlPersist=no"@)
            &&& arguments[39] == ArgumentModel::Text("-o"@)
            &&& arguments[40] == ArgumentModel::Text("ForkAfterAuthentication=no"@)
            &&& arguments[41] == ArgumentModel::Text("-o"@)
            &&& arguments[42] == ArgumentModel::Text("PermitLocalCommand=no"@)
            &&& arguments[43] == ArgumentModel::Text("-o"@)
            &&& arguments[44] == ArgumentModel::Text("LocalCommand=none"@)
            &&& arguments[45] == ArgumentModel::Text("-o"@)
            &&& arguments[46] == ArgumentModel::Text("Tunnel=no"@)
            &&& arguments[47] == ArgumentModel::Text("-o"@)
            &&& arguments[48] == ArgumentModel::Text("UpdateHostKeys=no"@)
            &&& arguments[49] == ArgumentModel::Text("-o"@)
            &&& arguments[50] == ArgumentModel::Text("AddKeysToAgent=no"@)
            &&& arguments[51] == ArgumentModel::Text(publication.host)
        }),
{
}

/// The arguments, locale and time limit of the check of a control master, one by one.
pub proof fn masters_are_checked_with_these_arguments(path: Seq<u8>, publication: ProviderModel)
    ensures
        ({
            let arguments = master_check_model(path, publication).arguments;
            &&& arguments.len() == 16
            &&& arguments[0] == ArgumentModel::Text("-F"@)
            &&& arguments[1] == ArgumentModel::Text("none"@)
            &&& arguments[2] == ArgumentModel::Text("-4"@)
            &&& arguments[3] == ArgumentModel::Text("-S"@)
            &&& arguments[4] == ArgumentModel::Path(path)
            &&& arguments[5] == ArgumentModel::Text("-o"@)
            &&& arguments[6] == ArgumentModel::Text("ControlMaster=no"@)
            &&& arguments[7] == ArgumentModel::Text("-l"@)
            &&& arguments[8] == ArgumentModel::Text(publication.user)
            &&& arguments[9] == ArgumentModel::Text("-p"@)
            &&& arguments[10] == ArgumentModel::Text(decimal(publication.ssh_port as nat))
            &&& arguments[11] == ArgumentModel::Text("-o"@)
            &&& arguments[12] == ArgumentModel::Text("HostName="@ + publication.host)
            &&& arguments[13] == ArgumentModel::Text("-O"@)
            &&& arguments[14] == ArgumentModel::Text("check"@)
            &&& arguments[15] == ArgumentModel::Text(publication.host)
        }),
        master_check_model(path, publication).c_locale,
        master_check_model(path, publication).timeout == 5_000_000_000,
{
}

/// The arguments, locale and time limit of a forwarding request, one by one: the listener
/// that is asked for, and the local port that it leads to.
pub proof fn forwards_are_requested_with_these_arguments(
    path: Seq<u8>,
    publication: ProviderModel,
    local_port: u16,
)
    ensures
        ({
            let arguments = forward_request_model(path, publication, local_port).arguments;
            &&& arguments.len() == 18
            &&& arguments[0] == ArgumentModel::Text("-F"@)
            &&& arguments[1] == ArgumentModel::Text("none"@)
            &&& arguments[2] == ArgumentModel::Text("-4"@)
            &&& arguments[3] == ArgumentModel::Text("-S"@)
            &&& arguments[4] == ArgumentModel::Path(path)
            &&& arguments[5] == ArgumentModel::Text("-o"@)
            &&& arguments[6] == ArgumentModel::Text("ControlMaster=no"@)
            &&& arguments[7] == ArgumentModel::Text("-l"@)
            &&& arguments[8] == ArgumentModel::Text(publication.user)
            &&& arguments[9] == ArgumentModel::Text("-p"@)
            &&& arguments[10] == ArgumentModel::Text(decimal(publication.ssh_port as nat))
            &&& arguments[11] == ArgumentModel::Text("-o"@)
            &&& arguments[12] == ArgumentModel::Text("HostName="@ + publication.host)
            &&& arguments[13] == ArgumentModel::Text("-O"@)
            &&& arguments[14] == ArgumentModel::Text("forward"@)
            &&& arguments[15] == ArgumentModel::Text("-R"@)
            &&& arguments[16] == ArgumentModel::Text(
                publication.listen_address + ":"@ + decimal(publication.listen_port as nat)
                    + ":127.0.0.1:"@ + decimal(local_port as nat),
            )
            &&& arguments[17] == ArgumentModel::Text(publication.host)
        }),
        !forward_request_model(path, publication, local_port).c_locale,
        forward_request_model(path, publication, local_port).timeout == 30_000_000_000,
{
}

/// The arguments, locale and time limit of the query of a control path, one by one. The
/// control path to be expanded lies in the runtime directory.
pub proof fn control_paths_are_queried_with_these_arguments(
    path: Seq<u8>,
    publication: ProviderModel,
)
    ensures
        ({
            let arguments = control_path_query_model(path, publication).arguments;
            &&& arguments.len() == 19
            &&& arguments[0] == ArgumentModel::Text("-G"@)
            &&& arguments[1] == ArgumentModel::Text("-F"@)
            &&& arguments[2] == ArgumentModel::Text("none"@)
            &&& arguments[3] == ArgumentModel::Text("-4"@)
            &&& arguments[4] == ArgumentModel::Text("-S"@)
            &&& arguments[5] == ArgumentModel::Path(joined(path, encode_utf8("cm-%C"@)))
            &&& arguments[6] == ArgumentModel::Text("-l"@)
            &&& arguments[7] == ArgumentModel::Text(publication.user)
            &&& arguments[8] == ArgumentModel::Text("-p"@)
            &&& arguments[9] == ArgumentModel::Text(decimal(publication.ssh_port as nat))
            &&& arguments[10] == ArgumentModel::Text("-o"@)
            &&& arguments[11] == ArgumentModel::Text("HostName="@ + publication.host)
            &&& arguments[12] == ArgumentModel::Text("-o"@)
            &&& arguments[13] == ArgumentModel::Text("CanonicalizeHostname=no"@)
            &&& arguments[14] == ArgumentModel::Text("-o"@)
            &&& arguments[15] == ArgumentModel::Text("ProxyCommand=none"@)
            &&& arguments[16] == ArgumentModel::Text("-o"@)
            &&& arguments[17] == ArgumentModel::Text("ProxyJump=none"@)
            &&& arguments[18] == ArgumentModel::Text(publication.host)
        }),
        !control_path_query_model(path, publication).c_locale,
        control_path_query_model(path, publication).timeout == 5_000_000_000,
{
    reveal_strlit("cm-%C");
    ascii_bytes_are_utf8("cm-%C"@);
}

/// Whether arguments hold a flag with its value directly behind it.
pub open spec fn gives(
    arguments: Seq<ArgumentModel>,
    flag: Seq<char>,
    value: ArgumentModel,
) -> bool {
    exists|i: int|
        0 < i < arguments.len() && #[trigger] arguments[i] == value && arguments[i - 1]
            == ArgumentModel::Text(flag)
}

/// Every command goes to the user and to the SSH port of its publication: `-l` is directly
/// followed by that user, `-p` by the number of that port, and the host name is that host.
pub proof fn commands_go_to_their_destination(
    path: Seq<u8>,
    publication: ProviderModel,
    local_port: u16,
)
    ensures
        ({
            let port = ArgumentModel::Text(decimal(publication.ssh_port as nat));
            let user = ArgumentModel::Text(publication.user);
            let host = ArgumentModel::Text("HostName="@ + publication.host);
            let master = master_arguments(path, publication);
            let check = master_check_model(path, publication).arguments;
            let forward = forward_request_model(path, publication, local_port).arguments;
            let query = control_path_query_model(path, publication).arguments;
            &&& gives(master, "-p"@, port) && gives(master, "-l"@, user) && gives(
                master,
                "-o"@,
                host,
            )
            &&& gives(check, "-p"@, port) && gives(check, "-l"@, user) && gives(check, "-o"@, host)
            &&& gives(forward, "-p"@, port) && gives(forward, "-l"@, user) && gives(
                forward,
                "-o"@,
                host,
            )
            &&& gives(query, "-p"@, port) && gives(query, "-l"@, user) && gives(query, "-o"@, host)
            &&& gives(master, "-S"@, ArgumentModel::Path(path))
            &&& gives(check, "-S"@, ArgumentModel::Path(path))
            &&& gives(forward, "-S"@, ArgumentModel::Path(path))
        }),
{
    masters_are_started_with_these_arguments(path, publication);
    masters_are_checked_with_these_arguments(path, publication);
    forwards_are_requested_with_these_arguments(path, publication, local_port);
    control_paths_are_queried_with_these_arguments(path, publication);
    let master = master_arguments(path, publication);
    let check = master_check_model(path, publication).arguments;
    let forward = forward_request_model(path, publication, local_port).arguments;
    let query = control_path_query_model(path, publication).arguments;
    assert(master[5] == ArgumentModel::Text("-S"@) && master[7] == ArgumentModel::Text("-l"@)
        && master[9] == ArgumentModel::Text("-p"@) && master[11] == ArgumentModel::Text("-o"@));
    assert(gives(master, "-S"@, master[6]) && gives(master, "-l"@, master[8]) && gives(
        master,
        "-p"@,
        master[10],
    ) && gives(master, "-o"@, master[12]));
    assert(gives(check, "-S"@, check[4]) && gives(check, "-l"@, check[8]) && gives(
        check,
        "-p"@,
        check[10],
    ) && gives(check, "-o"@, check[12]));
    assert(gives(forward, "-S"@, forward[4]) && gives(forward, "-l"@, forward[8]) && gives(
        forward,
        "-p"@,
        forward[10],
    ) && gives(forward, "-o"@, forward[12]));
    assert(gives(query, "-l"@, query[7]) && gives(query, "-p"@, query[9]) && gives(
        query,
        "-o"@,
        query[11],
    ));
}

/// Commands to different SSH ports or users, and requests for different listeners or local
/// ports, are different commands.
pub proof fn different_destinations_get_different_commands(
    path: Seq<u8>,
    left: ProviderModel,
    right: ProviderModel,
    local_port: u16,
    other_port: u16,
)
    ensures
        master_arguments(path, left) == master_arguments(path, right) ==> left.user == right.user
            && left.ssh_port == right.ssh_port && left.host == right.host,
        master_check_model(path, left) == master_check_model(path, right) ==> left.user
            == right.user && left.ssh_port == right.ssh_port && left.host == right.host,
        forward_request_model(path, left, local_port) == forward_request_model(
            path,
            left,
            other_port,
        ) ==> local_port == other_port,
{
    masters_are_started_with_these_arguments(path, left);
    masters_are_started_with_these_arguments(path, right);
    masters_are_checked_with_these_arguments(path, left);
    masters_are_checked_with_these_arguments(path, right);
    forwards_are_requested_with_these_arguments(path, left, local_port);
    forwards_are_requested_with_these_arguments(path, left, other_port);
    if master_arguments(path, left) == master_arguments(path, right) || master_check_model(
        path,
        left,
    ) == master_check_model(path, right) {
        assert(decimal(left.ssh_port as nat) == decimal(right.ssh_port as nat));
        decimal_is_injective(left.ssh_port as nat, right.ssh_port as nat);
    }
    if forward_request_model(path, left, local_port) == forward_request_model(
        path,
        left,
        other_port,
    ) {
        let front = left.listen_address + ":"@ + decimal(left.listen_port as nat)
            + ":127.0.0.1:"@;
        let one = decimal(local_port as nat);
        let other = decimal(other_port as nat);
        assert(forward_request_model(path, left, local_port).arguments[16]
            == forward_request_model(path, left, other_port).arguments[16]);
        assert(front + one == front + other);
        assert((front + one).skip(front.len() as int) =~= one);
        assert((front + other).skip(front.len() as int) =~= other);
        decimal_is_injective(local_port as nat, other_port as nat);
    }
}

/// A control master is live exactly when its check succeeds, prints nothing, and reports a
/// process id. A missing executable is told apart from every other failure.
pub proof fn live_masters_report_their_process(
    failure: Failure,
    success: bool,
    stdout: Vec<u8>,
    stderr: Vec<u8>,
    pid: u32,
)
    ensures
        live_pid(SshReply::ExecutableMissing, failure) == Err::<u32, Failure>(Failure::SshMissing),
        live_pid(SshReply::Failed, failure) == Err::<u32, Failure>(failure),
        live_pid((SshReply::Exited { success, stdout, stderr }), failure) == Ok::<u32, Failure>(pid)
            <==> success && stdout@.len() == 0 && master_pid(stderr@) == Some(pid),
        live_pid((SshReply::Exited { success, stdout, stderr }), failure) matches Err(reason)
            ==> reason == failure,
        master_pid(stderr@) != Some(0u32),
{
}

/// A forwarding request is acknowledged exactly when its command succeeds, whatever that
/// prints.
pub proof fn success_acknowledges_forwards(success: bool, stdout: Vec<u8>, stderr: Vec<u8>)
    ensures
        forward_result(SshReply::ExecutableMissing) == Err::<(), Failure>(Failure::SshMissing),
        forward_result(SshReply::Failed) == Err::<(), Failure>(Failure::ForwardNotAcknowledged),
        forward_result((SshReply::Exited { success, stdout, stderr })) is Ok <==> success,
        !success ==> forward_result((SshReply::Exited { success, stdout, stderr })) == Err::<
            (),
            Failure,
        >(Failure::ForwardNotAcknowledged),
{
}

/// What a running control master reports, byte by byte: the sentence with its process id, and
/// the end of a line.
pub proof fn process_reports_are_one_line(pid: u32)
    ensures
        pid_report(pid, false) == encode_utf8("Master running (pid="@) + ascii_bytes(
            decimal(pid as nat),
        ) + seq![41u8, 10u8],
        pid_report(pid, true) == encode_utf8("Master running (pid="@) + ascii_bytes(
            decimal(pid as nat),
        ) + seq![41u8, 13u8, 10u8],
{
    reveal_strlit("Master running (pid=");
    reveal_strlit(")");
    ascii_bytes_are_utf8("Master running (pid="@);
    assert(pid_report(pid, false) =~= ascii_bytes("Master running (pid="@) + ascii_bytes(
        decimal(pid as nat),
    ) + seq![41u8, 10u8]);
    assert(pid_report(pid, true) =~= ascii_bytes("Master running (pid="@) + ascii_bytes(
        decimal(pid as nat),
    ) + seq![41u8, 13u8, 10u8]);
}

/// The model of a command is its arguments, one for one and in order, its locale and its time
/// limit.
pub proof fn commands_are_shown_as_they_are(
    command: SshCommand,
    i: int,
    text: String,
    path: Vec<u8>,
)
    ensures
        command@.c_locale == command.c_locale,
        command@.timeout == command.timeout,
        command@.arguments.len() == command.arguments@.len(),
        0 <= i < command@.arguments.len() ==> command@.arguments[i]
            == command.arguments@[i].deep_view(),
        Argument::Text(text).deep_view() == ArgumentModel::Text(text@),
        Argument::Path(path).deep_view() == ArgumentModel::Path(path@),
{
}

} // verus!
