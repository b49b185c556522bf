use aequimuta::cli::{parse_command, Command};
use aequimuta::declaration::{check_declaration, load_declaration, Declaration, Service};
use aequimuta::document::{read_bytes, read_document, read_port, SourceError, TomlValue};
use aequimuta::failure::{contextual_apply_error, diagnostic_error_detail, Failure};
use aequimuta::names::{
    char_is_control, char_is_white_space, dns_name_is_valid, host_is_valid, ipv4_is_valid,
    publisher_token_is_valid, service_name_is_valid, user_is_valid,
};
use aequimuta::openssh_reverse_tcp::commands::{
    host_name_option, live_master_pid, parse_master_pid, request_forward,
};
use aequimuta::openssh_reverse_tcp::configuration::{
    provider_publication_is_valid, ProviderConfiguration, ProviderPublication,
};
use aequimuta::openssh_reverse_tcp::control_path::{
    expand_control_path, lexical_destination_hash, parse_control_path, SshReply,
};
use aequimuta::openssh_reverse_tcp::processes::{
    cleanup_process, create_or_reuse_master, run_ssh, CleanupAction, CleanupFacts, MasterAction,
    MasterFacts, RunAction, RunFacts, RunResult, SpawnReply, WaitReply,
};
use aequimuta::openssh_reverse_tcp::runtime::{
    ensure_private_directory, DirectoryAction, DirectoryFacts, Entry, EntryKind, EntryReply,
};
use aequimuta::paths::{join_path, path_file_name, path_is_below, paths_are_same, trim_path};
use aequimuta::publishing::{
    publishing_intent_is_valid, tailscale_serve_tcp_publications_are_ambiguous, Publication,
    PublishingIntent,
};
use aequimuta::step::Next;
use aequimuta::tailscale_serve_tcp::{
    classify_provider_state, funnel_map_contains_port, host_port_map_contains_port,
    mutation_failure, observe, parse_host_port, parse_provider_state, tcp_handler_at_port,
    verify_created_mapping, EnsureOutcome, ProviderState, ServeConfig, ServeReply, TcpPortHandler,
};
use aequimuta::text::{decimal_text, parse_numeral};

const HASH_EDGE: u64 = 0x0e1acc927655c505;
const HASH_ACCENT: u64 = 0x2ecbe6045fbbd9f5;

fn publication(host: &str, user: &str, ssh_port: u16) -> ProviderPublication {
    ProviderPublication {
        service: "web".to_owned(),
        host: host.to_owned(),
        user: user.to_owned(),
        ssh_port,
        listen_address: "127.0.0.1".to_owned(),
        listen_port: 18_080,
    }
}

fn chars(text: &str) -> Vec<char> {
    text.chars().collect()
}

#[test]
fn character_classes_agree_with_the_standard_library() {
    for code in 0..=0x10ffff {
        if let Some(c) = char::from_u32(code) {
            assert_eq!(char_is_white_space(c), c.is_whitespace(), "{code:x}");
            assert_eq!(char_is_control(c), c.is_control(), "{code:x}");
        }
    }
}

#[test]
fn service_names_are_trimmed_and_printable() {
    for name in ["web", "a b", "é", "-", "日本"] {
        assert!(service_name_is_valid(name), "{name}");
    }
    for name in ["", " web", "web\u{3000}", "\u{a0}web", "a\tb", "a\u{7f}b", "a\u{85}b"] {
        assert!(!service_name_is_valid(name), "{name:?}");
    }
}

#[test]
fn publisher_tokens_follow_the_grammar() {
    for token in ["a", "tailscale-serve-tcp", "a1-b2", "x-9"] {
        assert!(publisher_token_is_valid(token), "{token}");
    }
    for token in ["", "A", "9a", "-a", "a-", "a--b", "a.b", "aé"] {
        assert!(!publisher_token_is_valid(token), "{token}");
    }
}

#[test]
fn dns_names_follow_the_grammar() {
    let long_label = "a".repeat(63);
    let longest = format!("{long_label}.{long_label}.{long_label}.{}", "a".repeat(61));
    assert_eq!(longest.len(), 253);
    for name in ["a", "A-1.b", "1.2.3.4", &long_label, &longest] {
        assert!(dns_name_is_valid(name), "{name}");
    }
    let too_long = format!("{longest}a");
    let long = "a".repeat(64);
    for name in ["", ".", "a.", ".a", "a..b", "-a", "a-", "a_b", "é.b", &too_long, &long] {
        assert!(!dns_name_is_valid(name), "{name}");
    }
}

#[test]
fn ipv4_addresses_are_dotted_decimal() {
    for address in ["0.0.0.0", "127.0.0.1", "255.255.255.255", "1.2.3.4"] {
        assert!(ipv4_is_valid(address), "{address}");
    }
    for address in [
        "", "1.2.3", "1.2.3.4.5", "256.0.0.1", "01.2.3.4", "1.2.3.004", "1.2.3.", ".1.2.3", "1..2.3",
        "a.b.c.d", "1.2.3.4 ", "::1", "+1.2.3.4", "1.2.3.1000",
    ] {
        assert!(!ipv4_is_valid(address), "{address}");
    }
}

#[test]
fn hosts_are_names_or_addresses() {
    for host in ["edge.example.com", "edge.example.com.", "127.0.0.1", "EDGE", "1a", "10"] {
        assert!(host_is_valid(host), "{host}");
    }
    for host in [
        "", "-edge", "1.2.3", "1.2.3.4.5", "256.1.1.1", "1.2.3.4.", ".", "..", "edge..com", "ed ge",
        "edge\u{7f}", "ex_ample", "é.example",
    ] {
        assert!(!host_is_valid(host), "{host:?}");
    }
}

#[test]
fn users_hold_no_blanks() {
    assert!(user_is_valid("aequimuta") && user_is_valid("é@x"));
    assert!(!user_is_valid("") && !user_is_valid("a b") && !user_is_valid("a\u{1}"));
}

#[test]
fn numerals_read_back() {
    for n in [0u32, 1, 9, 10, 80, 255, 65_535, 4_294_967_295] {
        let text = decimal_text(u64::from(n));
        assert_eq!(text, n.to_string());
        assert_eq!(parse_numeral(&chars(&text), u32::MAX), Some(n));
    }
    assert_eq!(decimal_text(u64::MAX), "18446744073709551615");
    for text in ["", "00", "01", "+1", "-1", "1 ", "4294967296", "99999999999999999999", "٣"] {
        assert_eq!(parse_numeral(&chars(text), u32::MAX), None, "{text}");
    }
    assert_eq!(parse_numeral(&chars("65536"), 65_535), None);
}

#[test]
fn documents_are_read_by_the_toml_crate() {
    match read_document("a = \"x\"\nb = [1, true]\n[c]\nd = 1.5\n") {
        Some(TomlValue::Table(entries)) => {
            assert_eq!(entries.len(), 3);
            assert!(matches!(&entries[0], (key, TomlValue::Text(text)) if key == "a" && text == "x"));
            match &entries[1].1 {
                TomlValue::Array(items) => {
                    assert!(matches!(&items[0], TomlValue::Integer(text, 10) if text == "1"));
                    assert!(matches!(items[1], TomlValue::Other));
                }
                _ => panic!("not an array"),
            }
            match &entries[2].1 {
                TomlValue::Table(inner) => {
                    assert_eq!(inner[0].0, "d");
                    assert!(matches!(inner[0].1, TomlValue::Other));
                }
                _ => panic!("not a table"),
            }
        }
        _ => panic!("not a table"),
    }
    assert!(read_document("a = 1\na = 2\n").is_none());
    match read_document("a = 99999999999999999999\n") {
        Some(TomlValue::Table(entries)) => {
            let text = "99999999999999999999";
            assert!(matches!(&entries[0].1, TomlValue::Integer(found, 10) if found == text));
            assert_eq!(read_port(&entries[0].1), None);
        }
        _ => panic!("not a table"),
    }
    assert!(matches!(read_bytes(&[0xff]), Err(SourceError::NotUtf8)));
    assert!(matches!(read_bytes(b"["), Err(SourceError::NotToml)));
    assert!(matches!(read_bytes("n = \"é\"".as_bytes()), Ok(TomlValue::Table(_))));
}

#[test]
fn ports_are_integers_in_any_base() {
    for (text, expected) in [
        ("0", Some(0)),
        ("+8080", Some(8080)),
        ("-0", Some(0)),
        ("8_080", Some(8080)),
        ("65535", Some(65_535)),
        ("65536", None),
        ("-1", None),
        ("0x1F90", Some(8080)),
        ("0x1f90", Some(8080)),
        ("0xffff", Some(65_535)),
        ("0x1_0000", None),
        ("0o17620", Some(8080)),
        ("0b1111_1100_1000", Some(4040)),
        ("9223372036854775808", None),
        ("99999999999999999999999999999999999999999999", None),
        ("8080.0", None),
        ("true", None),
    ] {
        match read_document(&format!("a = {text}\n")) {
            Some(TomlValue::Table(entries)) => {
                assert_eq!(read_port(&entries[0].1), expected, "{text}");
            }
            _ => panic!("{text}: not a table"),
        }
    }
    let written = |text: &str, radix: u32| read_port(&TomlValue::Integer(text.to_owned(), radix));
    assert_eq!(written("", 10), None);
    assert_eq!(written("+", 10), None);
    assert_eq!(written("-", 10), None);
    assert_eq!(written("8", 8), None);
    assert_eq!(written("7", 8), Some(7));
    assert_eq!(written("1g", 16), None);
    assert_eq!(written("65536x", 10), None);
}

#[test]
fn declarations_are_checked() {
    let contents = Some(b"[[services]]\nport = 8080\nname = \"web\"\n".to_vec());
    match load_declaration(&contents) {
        Ok(declaration) => {
            assert_eq!(declaration.services.len(), 1);
            assert_eq!(declaration.services[0].name, "web");
            assert_eq!(declaration.services[0].port, 8080);
        }
        Err(failure) => panic!("{failure:?}"),
    }
    for (document, expected) in [
        (Err(SourceError::NotUtf8), Failure::DeclarationNotUtf8),
        (Err(SourceError::NotToml), Failure::InvalidDeclaration),
        (Ok(TomlValue::Other), Failure::InvalidDeclaration),
    ] {
        assert_eq!(check_declaration(document).err(), Some(expected));
    }
    assert_eq!(load_declaration(&None).err(), Some(Failure::DeclarationUnreadable));
}

fn declaration(services: &[(&str, u16)]) -> Declaration {
    Declaration {
        services: services
            .iter()
            .map(|(name, port)| Service {
                name: name.to_string(),
                port: *port,
            })
            .collect(),
    }
}

fn intent(publications: &[(&str, &str)]) -> PublishingIntent {
    PublishingIntent {
        publications: publications
            .iter()
            .map(|(service, publisher)| Publication {
                service: service.to_string(),
                publisher: publisher.to_string(),
            })
            .collect(),
    }
}

#[test]
fn validity_does_not_depend_on_order() {
    let declared = declaration(&[("web", 1), ("api", 2)]);
    let entries = [("web", "a"), ("api", "b"), ("web", "b")];
    for order in [[0, 1, 2], [2, 1, 0], [1, 2, 0]] {
        let reordered: Vec<(&str, &str)> = order.iter().map(|i: &usize| entries[*i]).collect();
        assert!(publishing_intent_is_valid(&intent(&reordered), &declared));
    }
    assert!(!publishing_intent_is_valid(&intent(&[("db", "a")]), &declared));
}

#[test]
fn serve_publications_need_ports_of_their_own() {
    let serve = "tailscale-serve-tcp";
    let declared = declaration(&[("web", 80), ("api", 80), ("db", 81)]);
    for (publications, expected) in [
        (vec![("web", serve), ("db", serve)], false),
        (vec![("web", serve), ("api", serve)], true),
        (vec![("web", serve), ("api", "openssh-reverse-tcp")], false),
        (vec![("missing", serve)], true),
        (vec![("missing", "other")], false),
        (vec![], false),
    ] {
        assert_eq!(
            tailscale_serve_tcp_publications_are_ambiguous(&declared, &intent(&publications)),
            expected,
            "{publications:?}"
        );
    }
}

#[test]
fn messages_are_errors_and_details_drop_the_prefix() {
    let failure = Failure::BackendUnreachable(65_535);
    let message = failure.message();
    assert_eq!(message, "error: local TCP backend 127.0.0.1:65535 is not reachable");
    assert_eq!(
        diagnostic_error_detail(&message),
        "local TCP backend 127.0.0.1:65535 is not reachable"
    );
    assert_eq!(diagnostic_error_detail("error:x"), "error:x");
    assert_eq!(diagnostic_error_detail("error: "), "");
    assert_eq!(diagnostic_error_detail("error: error: x"), "error: x");
    assert_eq!(
        contextual_apply_error("web", "p", "error: broken", 0),
        "error: apply failed for web via p: broken"
    );
    assert_eq!(
        contextual_apply_error("web", "p", "plain", 2),
        "error: apply failed for web via p: plain; earlier successful publications were not rolled back"
    );
    assert_eq!(
        Failure::MasterNotCleanedUp.message(),
        "error: failed to clean up an incomplete OpenSSH ControlMaster"
    );
}

#[test]
fn host_ports_read_back() {
    assert_eq!(parse_host_port("node.example:443"), Ok(443));
    assert_eq!(parse_host_port("[::1]:0"), Ok(0));
    assert_eq!(parse_host_port("a:b:65535"), Ok(65_535));
    for text in ["", "443", ":443", "a:", "a:0443", "a:+1", "a:65536", "a:x", "a:443 "] {
        assert_eq!(parse_host_port(text), Err(()), "{text}");
    }
    let keys = vec!["a:1".to_owned(), "b:2".to_owned()];
    assert_eq!(host_port_map_contains_port(&keys, 2), Ok(true));
    assert_eq!(host_port_map_contains_port(&keys, 3), Ok(false));
    assert_eq!(host_port_map_contains_port(&vec!["a:2".to_owned(), "b".to_owned()], 2), Err(()));
    let funnel = vec![("a:1".to_owned(), true), ("b:2".to_owned(), false)];
    assert_eq!(funnel_map_contains_port(&funnel, 1), Ok(true));
    assert_eq!(funnel_map_contains_port(&funnel, 2), Ok(false));
    assert_eq!(funnel_map_contains_port(&vec![("x".to_owned(), false)], 2), Err(()));
}

fn forward_to(target: &str) -> TcpPortHandler {
    TcpPortHandler {
        https: false,
        http: false,
        tcp_forward: target.to_owned(),
        terminate_tls: String::new(),
        proxy_protocol: 0,
    }
}

fn mapped(port: u16) -> ServeConfig {
    let mut config = ServeConfig::default();
    config
        .tcp
        .push((port.to_string(), forward_to(&format!("127.0.0.1:{port}"))));
    config
}

#[test]
fn slots_are_classified() {
    assert_eq!(classify_provider_state(&ServeConfig::default(), 80), ProviderState::Absent);
    assert_eq!(classify_provider_state(&mapped(80), 80), ProviderState::AlreadySatisfied);
    assert_eq!(classify_provider_state(&mapped(80), 81), ProviderState::Absent);
    assert!(matches!(tcp_handler_at_port(&mapped(80), 80), Ok(Some(_))));

    let mut web = mapped(80);
    web.web.push("host:80".to_owned());
    assert_eq!(classify_provider_state(&web, 80), ProviderState::Conflict);
    let mut negative = ServeConfig::default();
    let mut handler = forward_to("127.0.0.1:80");
    handler.proxy_protocol = -1;
    negative.tcp.push(("80".to_owned(), handler));
    assert_eq!(classify_provider_state(&negative, 80), ProviderState::Conflict);

    let mut plus = ServeConfig::default();
    plus.tcp.push(("+80".to_owned(), forward_to("127.0.0.1:80")));
    assert_eq!(classify_provider_state(&plus, 80), ProviderState::Indeterminate);
}

#[test]
fn sessions_never_leave_a_slot_usable() {
    let holding = || mapped(80);
    let broken = || {
        let mut config = ServeConfig::default();
        config.web.push("no-port".to_owned());
        config
    };
    for (first, second, expected) in [
        (holding(), broken(), ProviderState::Conflict),
        (broken(), holding(), ProviderState::Indeterminate),
    ] {
        let mut config = ServeConfig::default();
        config.foreground.push(first);
        config.foreground.push(second);
        assert_eq!(classify_provider_state(&config, 80), expected);
    }
    let mut nested = ServeConfig::default();
    let mut inner = ServeConfig::default();
    inner.foreground.push(holding());
    nested.foreground.push(inner);
    assert_eq!(classify_provider_state(&nested, 80), ProviderState::Conflict);
    assert_eq!(classify_provider_state(&nested, 81), ProviderState::Absent);
}

#[test]
fn outputs_are_json_first() {
    let json = b"{\"TCP\":{}}".to_vec();
    let text = b"not json".to_vec();
    assert_eq!(parse_provider_state(&text, &Some(None), 80), Err(()));
    assert_eq!(parse_provider_state(&json, &None, 80), Ok(ProviderState::Indeterminate));
    assert_eq!(parse_provider_state(&json, &Some(None), 80), Ok(ProviderState::Absent));
    assert_eq!(
        parse_provider_state(&json, &Some(Some(mapped(80))), 80),
        Ok(ProviderState::AlreadySatisfied)
    );
    assert_eq!(observe(&ServeReply::Failed, 80), Err(Failure::ServeStatusFailed));
    let reply = ServeReply::Answered {
        stdout: text,
        config: None,
    };
    assert_eq!(observe(&reply, 80), Err(Failure::ServeStatusFailed));
}

#[test]
fn failed_changes_stay_failures() {
    for (observed, expected) in [
        (Ok(ProviderState::Absent), Failure::MutationLeftAbsent),
        (Ok(ProviderState::AlreadySatisfied), Failure::MutationUncertain),
        (Ok(ProviderState::Conflict), Failure::MutationLeftConflict),
        (Ok(ProviderState::Indeterminate), Failure::MutationLeftUnknown),
        (Err(Failure::ServeStatusFailed), Failure::MutationLeftUnknown),
    ] {
        assert_eq!(mutation_failure(observed), expected);
    }
    assert!(matches!(
        verify_created_mapping(Ok(ProviderState::AlreadySatisfied), "e".to_owned()),
        Ok(EnsureOutcome::Created { endpoint }) if endpoint == "e"
    ));
    assert!(matches!(
        verify_created_mapping(Ok(ProviderState::Absent), "e".to_owned()),
        Err(Failure::PostConditionUnmet)
    ));
}

#[test]
fn destinations_are_hashed_as_written() {
    assert_eq!(
        lexical_destination_hash(&publication("edge.example.com", "aequimuta", 22)),
        HASH_EDGE
    );
    assert_eq!(lexical_destination_hash(&publication("host", "é", 2222)), HASH_ACCENT);
}

#[test]
fn paths_are_compared_by_components() {
    for (left, right, same) in [
        ("/run/user", "/run/user/", true),
        ("/run//user", "/run/./user", true),
        ("/run/user/.", "/run/user", true),
        ("./a", "a", false),
        ("./a", "././a", true),
        ("/a", "a", false),
        ("/a/..", "/", false),
        ("", "", true),
    ] {
        assert_eq!(paths_are_same(left.as_bytes(), right.as_bytes()), same, "{left} {right}");
        assert_eq!(
            std::path::Path::new(left) == std::path::Path::new(right),
            same,
            "{left} {right}"
        );
    }
    for path in ["/a/b", "/a/b/", "/a/..", "/a/.", "a", ".", "..", "/", "", "a//b", "./b"] {
        let name = std::path::Path::new(path)
            .file_name()
            .and_then(|name| name.to_str())
            .map(|name| name.as_bytes().to_vec());
        assert_eq!(path_file_name(path.as_bytes()), name, "{path}");
        for parent in ["/a", "", "/", "a", "."] {
            assert_eq!(
                path_is_below(path.as_bytes(), parent.as_bytes()),
                std::path::Path::new(path).parent() == Some(std::path::Path::new(parent)),
                "{path} {parent}"
            );
        }
    }
    assert_eq!(join_path(b"/a", b"b"), b"/a/b");
    assert_eq!(join_path(b"/a/", b"b"), b"/a/b");
    assert_eq!(join_path(b"", b"b"), b"b");
}

#[test]
fn control_paths_are_printed_once() {
    assert_eq!(
        parse_control_path(b"host a\ncontrolpath /x y\n"),
        Some(b"/x y".to_vec())
    );
    assert_eq!(parse_control_path(b"controlpath /x"), Some(b"/x".to_vec()));
    for output in [
        &b""[..],
        b"controlpath \n",
        b"controlpath",
        b"ControlPath /x\n",
        b"controlpath /x\ncontrolpath /y\n",
        b"controlpath /x\ncontrolpath \n",
        b" controlpath /x\n",
    ] {
        assert_eq!(parse_control_path(output), None, "{output:?}");
    }
}

fn printed(path: &str) -> SshReply {
    SshReply::Exited {
        success: true,
        stdout: format!("controlpath {path}\n").into_bytes(),
        stderr: Vec::new(),
    }
}

#[test]
fn parents_are_written_without_what_names_nothing() {
    for directory in [
        "", "/", "//", "///", ".", "./", ".//", "./.", "././", "/.", "/./", "//.", "/.//.", "a",
        "a/", "a//", "a/.", "a/./", "a/.//.", "/a", "/a/", "/a//", "/a/.", "/a/..", "/a/../", "..",
        "../", "../.", "a.", "a./", "a/b.", "/a/./b/./", ".a", ".a/.", "...", "/.../",
    ] {
        let template = std::path::Path::new(directory).join("cm");
        let parent = template.parent().unwrap();
        assert_eq!(
            trim_path(directory.as_bytes()),
            parent.to_str().unwrap().as_bytes(),
            "{directory}"
        );
        assert_eq!(
            join_path(&trim_path(directory.as_bytes()), b"cm"),
            parent.join("cm").to_str().unwrap().as_bytes(),
            "{directory}"
        );
    }
}

#[test]
fn control_paths_are_checked_and_renamed() {
    let web = publication("edge.example.com", "aequimuta", 22);
    let directory = b"/run/x".to_vec();
    let name = "cm-0123456789abcdef0123456789abcdef01234567";
    assert_eq!(
        expand_control_path(&printed(&format!("/run/x/{name}")), &directory, &web),
        Ok(format!("/run/x/cm-{HASH_EDGE:016x}0123456789abcdef01234567").into_bytes())
    );
    assert_eq!(
        expand_control_path(&printed(&format!("/run/./x//{name}/")), &directory, &web),
        expand_control_path(&printed(&format!("/run/x/{name}")), &directory, &web)
    );
    for path in [
        format!("/run/y/{name}"),
        format!("/run/x/y/{name}"),
        format!("run/x/{name}"),
        "/run/x/..".to_owned(),
        "/run/x/cm-0123".to_owned(),
        format!("/run/x/{}", name.to_uppercase()),
        format!("/run/x/{}", name.replace('a', "A")),
        format!("/run/x/{}", name.replace("cm-", "mc-")),
        format!("/run/x/{}", name.replace('f', "g")),
    ] {
        assert_eq!(
            expand_control_path(&printed(&path), &directory, &web),
            Err(Failure::ControlPathUnresolved),
            "{path}"
        );
    }
    for trailing in ["/", "//", "/.", "/./", "//.//"] {
        let directory = format!("/run/x{trailing}").into_bytes();
        assert_eq!(
            expand_control_path(&printed(&format!("/run/x/{name}")), &directory, &web),
            Ok(format!("/run/x/cm-{HASH_EDGE:016x}0123456789abcdef01234567").into_bytes()),
            "{trailing}"
        );
        let deep = format!("/{}{trailing}", "d".repeat(45));
        let result =
            expand_control_path(&printed(&format!("{deep}/{name}")), &deep.into_bytes(), &web);
        assert_eq!(result.map(|path| path.len()), Ok(90), "{trailing}");
    }
    for (length, fits) in [(46, true), (47, false)] {
        let deep = format!("/{}", "d".repeat(length - 1));
        let result =
            expand_control_path(&printed(&format!("{deep}/{name}")), &deep.into_bytes(), &web);
        assert_eq!(result.is_ok(), fits, "{length}");
        if let Ok(path) = result {
            assert_eq!(path.len(), 90);
        }
    }
    assert_eq!(
        expand_control_path(&SshReply::ExecutableMissing, &directory, &web),
        Err(Failure::SshMissing)
    );
    assert_eq!(
        expand_control_path(&SshReply::Failed, &directory, &web),
        Err(Failure::ControlPathUnresolved)
    );
    let unsuccessful = SshReply::Exited {
        success: false,
        stdout: format!("controlpath /run/x/{name}\n").into_bytes(),
        stderr: Vec::new(),
    };
    assert_eq!(
        expand_control_path(&unsuccessful, &directory, &web),
        Err(Failure::ControlPathUnresolved)
    );
}

#[test]
fn process_ids_read_back() {
    for pid in [1u32, 9, 10, 1234, u32::MAX] {
        for end in ["\n", "\r\n"] {
            let report = format!("Master running (pid={pid}){end}");
            assert_eq!(parse_master_pid(report.as_bytes()), Some(pid));
        }
    }
    for report in [
        "",
        "\n",
        "Master running (pid=1)",
        "Master running (pid=1)\r",
        "Master running (pid=0)\n",
        "Master running (pid=01)\n",
        "Master running (pid=)\n",
        "Master running (pid=4294967296)\n",
        "Master running (pid=1) \n",
        "Master running (pid=1)\n\n",
        "master running (pid=1)\n",
        "Master running (pid=1\n",
        "Master running (pid=+1)\n",
    ] {
        assert_eq!(parse_master_pid(report.as_bytes()), None, "{report:?}");
    }
}

#[test]
fn control_replies_are_read() {
    let answer = |success: bool, stdout: &str, stderr: &str| SshReply::Exited {
        success,
        stdout: stdout.as_bytes().to_vec(),
        stderr: stderr.as_bytes().to_vec(),
    };
    let report = "Master running (pid=7)\n";
    let stale = Failure::ControlSocketUnsafe;
    assert_eq!(live_master_pid(&answer(true, "", report), stale), Ok(7));
    assert_eq!(live_master_pid(&answer(false, "", report), stale), Err(stale));
    assert_eq!(live_master_pid(&answer(true, "x", report), stale), Err(stale));
    assert_eq!(live_master_pid(&answer(true, "", "gone\n"), stale), Err(stale));
    assert_eq!(live_master_pid(&SshReply::Failed, stale), Err(stale));
    assert_eq!(
        live_master_pid(&SshReply::ExecutableMissing, stale),
        Err(Failure::SshMissing)
    );
    assert_eq!(request_forward(&answer(true, "noise", "noise")), Ok(()));
    assert_eq!(
        request_forward(&answer(false, "", "")),
        Err(Failure::ForwardNotAcknowledged)
    );
    assert_eq!(request_forward(&SshReply::Failed), Err(Failure::ForwardNotAcknowledged));
    assert_eq!(request_forward(&SshReply::ExecutableMissing), Err(Failure::SshMissing));
    assert_eq!(host_name_option("Edge"), "HostName=Edge");
}

#[test]
fn provider_publications_are_checked() {
    let valid = publication("edge.example.com", "aequimuta", 22);
    assert!(provider_publication_is_valid(&valid));
    let mut lowest = publication("127.0.0.1", "a", 1);
    lowest.listen_port = 1024;
    assert!(provider_publication_is_valid(&lowest));
    lowest.listen_port = 1023;
    assert!(!provider_publication_is_valid(&lowest));
    let configuration = ProviderConfiguration {
        publications: vec![valid],
    };
    assert_eq!(configuration.get("web").unwrap().host, "edge.example.com");
    assert_eq!(configuration.get("api").err(), Some(Failure::ConfigurationUnresolved));
}

#[test]
fn processes_are_ended() {
    let mut facts = CleanupFacts::new();
    assert_eq!(cleanup_process(&facts), Next::Act(CleanupAction::TryWait));
    facts.waited = Some(WaitReply::Exited);
    assert_eq!(cleanup_process(&facts), Next::Done(true));
    facts.waited = Some(WaitReply::Unknown);
    assert_eq!(cleanup_process(&facts), Next::Act(CleanupAction::Kill));
    facts.killed = Some(true);
    assert_eq!(cleanup_process(&facts), Next::Act(CleanupAction::Wait));
    facts.reaped = Some(false);
    assert_eq!(cleanup_process(&facts), Next::Done(false));
    facts.reaped = Some(true);
    assert_eq!(cleanup_process(&facts), Next::Done(true));
    facts.killed = Some(false);
    assert_eq!(cleanup_process(&facts), Next::Act(CleanupAction::TryWaitAgain));
    facts.waited_again = Some(WaitReply::Running);
    assert_eq!(cleanup_process(&facts), Next::Done(false));
    facts.waited_again = Some(WaitReply::Exited);
    assert_eq!(cleanup_process(&facts), Next::Done(true));
}

#[test]
fn commands_keep_their_time_limit() {
    let timeout: u64 = 5_000_000_000;
    let mut facts = RunFacts::new();
    assert_eq!(run_ssh(&facts, timeout), Next::Act(RunAction::Spawn));
    facts.spawned = Some(SpawnReply::ExecutableMissing);
    assert_eq!(run_ssh(&facts, timeout), Next::Done(RunResult::ExecutableMissing));
    facts.spawned = Some(SpawnReply::Failed);
    assert_eq!(run_ssh(&facts, timeout), Next::Done(RunResult::Failed));
    facts.spawned = Some(SpawnReply::Started(7));
    assert_eq!(run_ssh(&facts, timeout), Next::Act(RunAction::TryWait));
    facts.waited = Some(WaitReply::Exited);
    assert_eq!(run_ssh(&facts, timeout), Next::Done(RunResult::Exited));
    facts.waited = Some(WaitReply::Running);
    assert_eq!(run_ssh(&facts, timeout), Next::Act(RunAction::ReadClock));
    facts.elapsed = Some(0);
    assert_eq!(run_ssh(&facts, timeout), Next::Act(RunAction::Sleep(10_000_000)));
    facts.elapsed = Some(timeout - 3);
    assert_eq!(run_ssh(&facts, timeout), Next::Act(RunAction::Sleep(3)));
    facts.elapsed = Some(timeout);
    assert_eq!(run_ssh(&facts, timeout), Next::Act(RunAction::Cleanup(CleanupAction::TryWait)));
    facts.cleanup.waited = Some(WaitReply::Running);
    assert_eq!(run_ssh(&facts, timeout), Next::Act(RunAction::Cleanup(CleanupAction::Kill)));
    facts.cleanup.killed = Some(true);
    facts.cleanup.reaped = Some(false);
    assert_eq!(run_ssh(&facts, timeout), Next::Done(RunResult::Failed));
    facts.elapsed = None;
    facts.waited = Some(WaitReply::Unknown);
    facts.cleanup = CleanupFacts::new();
    assert_eq!(run_ssh(&facts, timeout), Next::Act(RunAction::Cleanup(CleanupAction::TryWait)));
}

fn socket(mode: u32) -> EntryReply {
    EntryReply::Present(Entry {
        kind: EntryKind::Socket,
        uid: 1000,
        mode,
        canonical: None,
    })
}

fn starting() -> MasterFacts {
    MasterFacts {
        spawned: Some(SpawnReply::Started(7)),
        elapsed: Some(0),
        entry: None,
        check: None,
        waited: None,
        cleanup: CleanupFacts::new(),
    }
}

#[test]
fn masters_are_established_reused_or_ended() {
    let running = |pid: u32| SshReply::Exited {
        success: true,
        stdout: Vec::new(),
        stderr: format!("Master running (pid={pid})\n").into_bytes(),
    };
    let path = b"/run/user/1000/cm".to_vec();
    let destination = publication("edge", "aequimuta", 22);
    let step = |facts: &MasterFacts| create_or_reuse_master(facts, &path, &destination, 1000);
    let mut facts = starting();
    facts.spawned = None;
    assert!(matches!(step(&facts), Next::Act(MasterAction::Spawn(_))));
    facts.spawned = Some(SpawnReply::ExecutableMissing);
    assert!(matches!(
        step(&facts),
        Next::Done(Err(Failure::SshMissing))
    ));
    facts.spawned = Some(SpawnReply::Failed);
    assert!(matches!(
        step(&facts),
        Next::Done(Err(Failure::MasterNotEstablished))
    ));

    let mut facts = starting();
    facts.entry = Some(socket(0o140600));
    assert!(matches!(step(&facts), Next::Act(MasterAction::CheckMaster(_))));
    facts.check = Some(running(7));
    assert!(matches!(step(&facts), Next::Done(Ok(()))));

    facts.check = Some(running(8));
    assert!(matches!(
        step(&facts),
        Next::Act(MasterAction::Cleanup(CleanupAction::TryWait))
    ));
    facts.cleanup.waited = Some(WaitReply::Exited);
    assert!(matches!(step(&facts), Next::Done(Ok(()))));
    facts.cleanup.waited = Some(WaitReply::Running);
    facts.cleanup.killed = Some(false);
    facts.cleanup.waited_again = Some(WaitReply::Running);
    assert!(matches!(
        step(&facts),
        Next::Done(Err(Failure::MasterNotCleanedUp))
    ));

    let mut facts = starting();
    facts.entry = Some(socket(0o140666));
    facts.cleanup.waited = Some(WaitReply::Exited);
    assert!(matches!(
        step(&facts),
        Next::Done(Err(Failure::ControlSocketUnsafe))
    ));
    facts.entry = Some(EntryReply::Unreadable);
    assert!(matches!(
        step(&facts),
        Next::Done(Err(Failure::ControlSocketUnsafe))
    ));

    let mut facts = starting();
    facts.entry = Some(EntryReply::Missing);
    assert!(matches!(step(&facts), Next::Act(MasterAction::TryWait)));
    facts.waited = Some(WaitReply::Running);
    assert!(matches!(step(&facts), Next::Act(MasterAction::Sleep(10_000_000))));
    facts.elapsed = Some(29_999_999_999);
    assert!(matches!(step(&facts), Next::Act(MasterAction::Sleep(1))));
    facts.waited = Some(WaitReply::Unknown);
    assert!(matches!(
        step(&facts),
        Next::Act(MasterAction::Cleanup(CleanupAction::TryWait))
    ));
}

#[test]
fn directories_are_created_only_where_nothing_is() {
    let directory = |mode: u32, canonical: &str| {
        EntryReply::Present(Entry {
            kind: EntryKind::Directory,
            uid: 1000,
            mode,
            canonical: Some(canonical.as_bytes().to_vec()),
        })
    };
    let mut facts = DirectoryFacts::new();
    let step = |facts: &DirectoryFacts| ensure_private_directory(facts, b"/run/x", 1000);
    assert!(matches!(step(&facts), Next::Act(DirectoryAction::Inspect)));
    facts.found = Some(directory(0o40700, "/run/x"));
    assert!(matches!(step(&facts), Next::Done(Ok(()))));
    for found in [
        directory(0o41700, "/run/x"),
        directory(0o40750, "/run/x"),
        directory(0o40700, "/run/y"),
        EntryReply::Unreadable,
    ] {
        facts.found = Some(found);
        assert!(matches!(
            step(&facts),
            Next::Done(Err(Failure::RuntimeDirectoryUnsafe))
        ));
    }
    facts.found = Some(EntryReply::Missing);
    assert!(matches!(step(&facts), Next::Act(DirectoryAction::Create)));
    facts.created = Some(false);
    assert!(matches!(step(&facts), Next::Done(Err(_))));
    facts.created = Some(true);
    assert!(matches!(step(&facts), Next::Act(DirectoryAction::InspectAgain)));
    facts.found_after = Some(directory(0o40700, "/run/x"));
    assert!(matches!(step(&facts), Next::Done(Ok(()))));
}

#[test]
fn every_failure_has_its_message() {
    let all = [
        (
            Failure::DeclarationUnreadable,
            "error: failed to read aequimuta.toml",
        ),
        (
            Failure::DeclarationNotUtf8,
            "error: aequimuta.toml is not valid UTF-8",
        ),
        (
            Failure::InvalidDeclaration,
            "error: aequimuta.toml is not a valid declaration",
        ),
        (
            Failure::PublishingUnreadable,
            "error: failed to read aequimuta.publish.toml",
        ),
        (
            Failure::PublishingNotUtf8,
            "error: aequimuta.publish.toml is not valid UTF-8",
        ),
        (
            Failure::InvalidPublishing,
            "error: aequimuta.publish.toml is not a valid publishing intent",
        ),
        (
            Failure::ServiceNotDeclared,
            "error: selected service does not exist",
        ),
        (
            Failure::PublicationNotDesired,
            "error: selected publication is not in desired state",
        ),
        (
            Failure::PublisherUnsupported,
            "error: selected publisher is not supported",
        ),
        (
            Failure::DesiredPublisherUnsupported,
            "error: desired publisher is not supported",
        ),
        (
            Failure::ServeSlotsConflict,
            "error: desired Tailscale Serve TCP publications conflict",
        ),
        (
            Failure::TailscaleMissing,
            "error: tailscale executable is not available",
        ),
        (
            Failure::ClientDown,
            "error: Tailscale daemon or client is not operational",
        ),
        (
            Failure::ClientStateUnknown,
            "error: Tailscale client state is indeterminate",
        ),
        (
            Failure::EndpointUnavailable,
            "error: current Tailscale node DNS name is unavailable",
        ),
        (
            Failure::ServeStatusFailed,
            "error: failed to inspect Tailscale Serve state",
        ),
        (
            Failure::ServeStateUnknown,
            "error: Tailscale Serve state is indeterminate",
        ),
        (
            Failure::ServeSlotTaken,
            "error: selected Tailscale Serve TCP port conflicts with existing state",
        ),
        (
            Failure::PostConditionUnmet,
            "error: Tailscale Serve TCP post-condition was not satisfied",
        ),
        (
            Failure::MutationLeftAbsent,
            "error: Tailscale Serve mutation failed and the target remains absent",
        ),
        (
            Failure::MutationUncertain,
            "error: Tailscale Serve mutation failed; the desired mapping is present but operation completion is uncertain",
        ),
        (
            Failure::MutationLeftConflict,
            "error: Tailscale Serve mutation failed and the target is in conflict",
        ),
        (
            Failure::MutationLeftUnknown,
            "error: Tailscale Serve mutation failed and the resulting state is indeterminate",
        ),
        (
            Failure::ConfigurationUnreadable,
            "error: failed to read aequimuta.openssh-reverse-tcp.toml",
        ),
        (
            Failure::ConfigurationNotUtf8,
            "error: aequimuta.openssh-reverse-tcp.toml is not valid UTF-8",
        ),
        (
            Failure::InvalidConfiguration,
            "error: aequimuta.openssh-reverse-tcp.toml is not a valid OpenSSH reverse TCP configuration",
        ),
        (
            Failure::ConfigurationUnresolved,
            "error: desired OpenSSH reverse TCP publication has no provider configuration",
        ),
        (
            Failure::RemoteSlotsConflict,
            "error: desired OpenSSH reverse TCP publications conflict",
        ),
        (
            Failure::RuntimeDirectoryUnsafe,
            "error: XDG_RUNTIME_DIR is not safe for OpenSSH reverse TCP control state",
        ),
        (
            Failure::SshMissing,
            "error: ssh executable is not available",
        ),
        (
            Failure::ControlPathUnresolved,
            "error: failed to resolve a safe OpenSSH control path",
        ),
        (
            Failure::ControlSocketUnsafe,
            "error: OpenSSH control socket state is stale or unsafe",
        ),
        (
            Failure::MasterNotEstablished,
            "error: failed to establish the OpenSSH ControlMaster",
        ),
        (
            Failure::MasterNotCleanedUp,
            "error: failed to clean up an incomplete OpenSSH ControlMaster",
        ),
        (
            Failure::ForwardNotAcknowledged,
            "error: OpenSSH remote forwarding request was not acknowledged",
        ),
    ];
    for (failure, expected) in all {
        let message = failure.message();
        assert_eq!(message, expected);
        assert!(!message.contains('\n'));
        assert_eq!(format!("error: {}", diagnostic_error_detail(&message)), expected);
    }
}

#[test]
fn destinations_share_control_paths_and_others_do_not() {
    let directory = b"/run/x".to_vec();
    let reply = printed("/run/x/cm-0123456789abcdef0123456789abcdef01234567");
    let path = |publication: &ProviderPublication| {
        expand_control_path(&reply, &directory, publication).unwrap()
    };
    let web = publication("edge", "user", 22);
    let mut other_listener = publication("edge", "user", 22);
    other_listener.service = "api".to_owned();
    other_listener.listen_address = "0.0.0.0".to_owned();
    other_listener.listen_port = 20_000;
    assert_eq!(path(&web), path(&other_listener));
    for other in [
        publication("edg", "euser", 22),
        publication("Edge", "user", 22),
        publication("edge", "user", 5632),
        publication("user", "edge", 22),
    ] {
        assert_ne!(path(&web), path(&other));
        assert!(path_is_below(&path(&other), &directory));
    }
}

#[test]
fn arguments_choose_the_command() {
    let command = |words: &[&str]| {
        let arguments: Vec<String> = words.iter().map(|word| word.to_string()).collect();
        parse_command(&arguments)
    };
    assert!(matches!(command(&["version"]), Command::Version));
    assert!(matches!(command(&["doctor"]), Command::Doctor));
    assert!(matches!(
        command(&["publish", "web", "p"]),
        Command::Publish { service, publisher } if service == "web" && publisher == "p"
    ));
    for words in [&[][..], &["Version"], &["publish"], &["version", "x", "y"], &["status", "a"]] {
        assert!(matches!(command(words), Command::Usage), "{words:?}");
    }
}
