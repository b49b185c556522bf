//! Publishing through Tailscale Serve: reading the client and Serve state, and the
//! decisions that lead to a mapping.

use crate::failure::Failure;
use crate::names::{dns_name, dns_name_is_valid};
use crate::publishing::TAILSCALE_SERVE_TCP_PUBLISHER;
use crate::step::Next;
use crate::text::{
    chars_of, decimal, decimal_text, lemma_decimal_is_numeral, lemma_numeral_is_decimal, numeral,
    numeral_reads_back, parse_numeral, same_text, text_result,
};
use vstd::prelude::*;

verus! {

/// What the client reports of the local node.
pub struct TailscaleNode {
    pub dns_name: String,
    pub online: bool,
}

/// What the client reports of the tailnet.
pub struct TailnetStatus {
    pub magic_dns_enabled: bool,
}

/// What the client reports of itself.
pub struct TailscaleStatus {
    pub backend_state: String,
    pub local_node: Option<TailscaleNode>,
    pub current_tailnet: Option<TailnetStatus>,
}

/// What became of a query of the client state. An answer holds the status that its
/// output decodes to, if it decodes.
pub enum ClientReply {
    ExecutableMissing,
    NotStarted,
    Unsuccessful,
    Answered(Option<TailscaleStatus>),
}

/// The DNS name of the local node, without its final dot.
pub open spec fn node_name(reply: ClientReply) -> Result<Seq<char>, Failure> {
    match reply {
        ClientReply::ExecutableMissing => Err(Failure::TailscaleMissing),
        ClientReply::NotStarted => Err(Failure::ClientDown),
        ClientReply::Unsuccessful => Err(Failure::ClientDown),
        ClientReply::Answered(None) => Err(Failure::ClientStateUnknown),
        ClientReply::Answered(Some(status)) => match (status.local_node, status.current_tailnet) {
            (Some(node), Some(tailnet)) => {
                let name = node.dns_name@;
                if status.backend_state@ != "Running"@ || !node.online {
                    Err(Failure::ClientDown)
                } else if !tailnet.magic_dns_enabled {
                    Err(Failure::EndpointUnavailable)
                } else if name.len() > 0 && name.last() == '.' && crate::names::dns_name(
                    name.drop_last(),
                ) {
                    Ok(name.drop_last())
                } else {
                    Err(Failure::EndpointUnavailable)
                }
            },
            _ => Err(Failure::ClientStateUnknown),
        },
    }
}

/// The endpoint of a port on the local node.
pub open spec fn node_endpoint(reply: ClientReply, port: u16) -> Result<Seq<char>, Failure> {
    match node_name(reply) {
        Ok(name) => Ok("tcp://"@ + name + ":"@ + decimal(port as nat)),
        Err(failure) => Err(failure),
    }
}

fn current_node_name(reply: &ClientReply) -> (name: Result<&str, Failure>)
    ensures
        match name {
            Ok(name) => node_name(*reply) == Ok::<Seq<char>, Failure>(name@),
            Err(failure) => node_name(*reply) == Err::<Seq<char>, Failure>(failure),
        },
{
    match reply {
        ClientReply::ExecutableMissing => Err(Failure::TailscaleMissing),
        ClientReply::NotStarted => Err(Failure::ClientDown),
        ClientReply::Unsuccessful => Err(Failure::ClientDown),
        ClientReply::Answered(None) => Err(Failure::ClientStateUnknown),
        ClientReply::Answered(Some(status)) => match (&status.local_node, &status.current_tailnet) {
            (Some(node), Some(tailnet)) => {
                if !same_text(status.backend_state.as_str(), "Running") || !node.online {
                    return Err(Failure::ClientDown);
                }
                if !tailnet.magic_dns_enabled {
                    return Err(Failure::EndpointUnavailable);
                }
                let full: &str = node.dns_name.as_str();
                let length: usize = full.unicode_len();
                if length == 0 || full.get_char(length - 1) != '.' {
                    return Err(Failure::EndpointUnavailable);
                }
                let name = full.substring_char(0, length - 1);
                assert(name@ =~= full@.drop_last());
                if dns_name_is_valid(name) {
                    Ok(name)
                } else {
                    Err(Failure::EndpointUnavailable)
                }
            },
            _ => Err(Failure::ClientStateUnknown),
        },
    }
}

/// Derives the endpoint of a port from the client state.
pub fn current_node_endpoint(reply: &ClientReply, port: u16) -> (endpoint: Result<String, Failure>)
    ensures
        text_result(endpoint) == node_endpoint(*reply, port),
{
    match current_node_name(reply) {
        Ok(name) => {
            let mut endpoint = "tcp://".to_owned();
            endpoint.append(name);
            endpoint.append(":");
            endpoint.append(decimal_text(port as u64).as_str());
            Ok(endpoint)
        },
        Err(failure) => Err(failure),
    }
}

/// Checks that the client state permits endpoints to be derived.
pub fn inspect_client_prerequisites(reply: &ClientReply) -> (result: Result<(), Failure>)
    ensures
        match node_name(*reply) {
            Ok(_) => result is Ok,
            Err(failure) => result == Err::<(), Failure>(failure),
        },
{
    match current_node_name(reply) {
        Ok(_) => Ok(()),
        Err(failure) => Err(failure),
    }
}

/// What Serve does with the connections of a TCP port.
pub struct TcpPortHandler {
    pub https: bool,
    pub http: bool,
    pub tcp_forward: String,
    pub terminate_tls: String,
    pub proxy_protocol: i64,
}

/// A Serve configuration: handlers by port, web hosts by host and port, Funnel
/// switches by host and port, and the configurations of foreground sessions.
pub struct ServeConfig {
    pub tcp: Vec<(String, TcpPortHandler)>,
    pub web: Vec<String>,
    pub allow_funnel: Vec<(String, bool)>,
    pub foreground: Vec<ServeConfig>,
}

impl Default for ServeConfig {
    fn default() -> (config: ServeConfig)
        ensures
            config.tcp@.len() == 0,
            config.web@.len() == 0,
            config.allow_funnel@.len() == 0,
            config.foreground@.len() == 0,
    {
        ServeConfig {
            tcp: Vec::new(),
            web: Vec::new(),
            allow_funnel: Vec::new(),
            foreground: Vec::new(),
        }
    }
}

/// How a Serve slot relates to the mapping that is wanted there.
#[derive(Clone, Copy, PartialEq, Eq, Structural, Debug)]
pub enum ProviderState {
    Absent,
    AlreadySatisfied,
    Conflict,
    Indeterminate,
}

/// The handler of a port.
pub open spec fn handler_of(tcp: Seq<(String, TcpPortHandler)>, port: u16) -> Option<
    TcpPortHandler,
>
    decreases tcp.len(),
{
    if tcp.len() == 0 {
        None
    } else if tcp[0].0@ == decimal(port as nat) {
        Some(tcp[0].1)
    } else {
        handler_of(tcp.drop_first(), port)
    }
}

/// The handler of a port, if every key is a port number.
pub open spec fn tcp_handler(tcp: Seq<(String, TcpPortHandler)>, port: u16) -> Result<
    Option<TcpPortHandler>,
    (),
> {
    if forall|i: int| 0 <= i < tcp.len() ==> numeral((#[trigger] tcp[i]).0@, 65535) is Some {
        Ok(handler_of(tcp, port))
    } else {
        Err(())
    }
}

/// Finds the handler of a port.
pub fn tcp_handler_at_port(config: &ServeConfig, selected_port: u16) -> (handler: Result<
    Option<&TcpPortHandler>,
    (),
>)
    ensures
        match handler {
            Ok(Some(handler)) => tcp_handler(config.tcp@, selected_port) == Ok::<_, ()>(
                Some(*handler),
            ),
            Ok(None) => tcp_handler(config.tcp@, selected_port) == Ok::<
                Option<TcpPortHandler>,
                (),
            >(None),
            Err(_) => tcp_handler(config.tcp@, selected_port) is Err,
        },
{
    let tcp = &config.tcp;
    let mut i: usize = 0;
    while i < tcp.len()
        invariant
            i <= tcp.len(),
            *tcp == config.tcp,
            forall|j: int| 0 <= j < i ==> numeral((#[trigger] tcp@[j]).0@, 65535) is Some,
        decreases tcp.len() - i,
    {
        let key = chars_of(tcp[i].0.as_str());
        if parse_numeral(&key, 65535).is_none() {
            assert(numeral(tcp@[i as int].0@, 65535) is None);
            return Err(());
        }
        i = i + 1;
    }
    let selected = decimal_text(selected_port as u64);
    let mut k: usize = 0;
    assert(tcp@.skip(0) =~= tcp@);
    while k < tcp.len()
        invariant
            k <= tcp.len(),
            *tcp == config.tcp,
            selected@ == decimal(selected_port as nat),
            forall|j: int| 0 <= j < tcp.len() ==> numeral((#[trigger] tcp@[j]).0@, 65535) is Some,
            handler_of(tcp@, selected_port) == handler_of(tcp@.skip(k as int), selected_port),
        decreases tcp.len() - k,
    {
        assert(tcp@.skip(k as int).drop_first() =~= tcp@.skip(k + 1));
        if same_text(tcp[k].0.as_str(), selected.as_str()) {
            return Ok(Some(&tcp[k].1));
        }
        k = k + 1;
    }
    Ok(None)
}

/// The position of the last colon.
pub open spec fn last_colon(s: Seq<char>) -> Option<int>
    decreases s.len(),
{
    if s.len() == 0 {
        None
    } else if s.last() == ':' {
        Some(s.len() - 1)
    } else {
        last_colon(s.drop_last())
    }
}

/// The port of a `host:port` text with a nonempty host and a canonical port.
pub open spec fn host_port(s: Seq<char>) -> Option<u16> {
    match last_colon(s) {
        Some(i) => if i > 0 {
            match numeral(s.skip(i + 1), 65535) {
                Some(port) => Some(port as u16),
                None => None,
            }
        } else {
            None
        },
        None => None,
    }
}

/// Reads the port of a `host:port` text.
pub fn parse_host_port(host_port: &str) -> (port: Result<u16, ()>)
    ensures
        match port {
            Ok(port) => self::host_port(host_port@) == Some(port),
            Err(_) => self::host_port(host_port@) is None,
        },
{
    let chars = chars_of(host_port);
    let mut i: usize = chars.len();
    assert(chars@.take(i as int) =~= chars@);
    while i > 0
        invariant
            i <= chars.len(),
            chars@ == host_port@,
            last_colon(host_port@) == last_colon(host_port@.take(i as int)),
        decreases i,
    {
        assert(chars@.take(i as int).drop_last() =~= chars@.take(i - 1));
        if chars[i - 1] == ':' {
            if i == 1 {
                return Err(());
            }
            let digits: &[char] = vstd::slice::slice_subrange(&chars, i, chars.len());
            assert(digits@ =~= host_port@.skip(i as int));
            return match parse_numeral(digits, 65535) {
                Some(port) => Ok(port as u16),
                None => Err(()),
            };
        }
        i = i - 1;
    }
    Err(())
}

proof fn lemma_last_colon(host: Seq<char>, tail: Seq<char>)
    requires
        forall|i: int| 0 <= i < tail.len() ==> #[trigger] tail[i] != ':',
    ensures
        last_colon(host.push(':') + tail) == Some(host.len() as int),
    decreases tail.len(),
{
    let s = host.push(':') + tail;
    if tail.len() == 0 {
        assert(s.last() == ':');
    } else {
        assert(s.last() == tail.last());
        assert(s.drop_last() =~= host.push(':') + tail.drop_last());
        lemma_last_colon(host, tail.drop_last());
    }
}

proof fn lemma_last_colon_is_colon(s: Seq<char>)
    ensures
        last_colon(s) matches Some(i) ==> 0 <= i < s.len() && s[i] == ':',
    decreases s.len(),
{
    if s.len() > 0 && s.last() != ':' {
        lemma_last_colon_is_colon(s.drop_last());
    }
}

/// A text is read as a host with a port exactly when it is written as one.
pub proof fn host_port_reads_back(s: Seq<char>, port: u16)
    ensures
        host_port(s) == Some(port) <==> exists|host: Seq<char>|
            host.len() > 0 && s == #[trigger] host.push(':') + decimal(port as nat),
{
    lemma_decimal_is_numeral(port as nat);
    if host_port(s) == Some(port) {
        lemma_last_colon_is_colon(s);
        let i = last_colon(s)->0;
        let host = s.take(i);
        lemma_numeral_is_decimal(s.skip(i + 1));
        assert(s =~= host.push(':') + decimal(port as nat));
    }
    if exists|host: Seq<char>|
        host.len() > 0 && s == #[trigger] host.push(':') + decimal(port as nat) {
        let host = choose|host: Seq<char>|
            host.len() > 0 && s == #[trigger] host.push(':') + decimal(port as nat);
        assert forall|k: int| 0 <= k < decimal(port as nat).len() implies #[trigger] decimal(
            port as nat,
        )[k] != ':' by {}
        lemma_last_colon(host, decimal(port as nat));
        assert(s.skip(host.len() as int + 1) =~= decimal(port as nat));
    }
}

/// Whether some host and port of a map is about a port, if every key is a host and
/// port.
pub open spec fn web_holds(keys: Seq<String>, port: u16) -> Result<bool, ()> {
    if forall|i: int| 0 <= i < keys.len() ==> host_port((#[trigger] keys[i])@) is Some {
        Ok(exists|i: int| 0 <= i < keys.len() && host_port((#[trigger] keys[i])@) == Some(port))
    } else {
        Err(())
    }
}

/// Whether some host and port among the keys is about a port.
pub fn host_port_map_contains_port(entries: &Vec<String>, selected_port: u16) -> (contains: Result<
    bool,
    (),
>)
    ensures
        contains == web_holds(entries@, selected_port),
{
    let mut contains_port = false;
    let mut i: usize = 0;
    while i < entries.len()
        invariant
            i <= entries.len(),
            forall|j: int| 0 <= j < i ==> host_port((#[trigger] entries@[j])@) is Some,
            contains_port == exists|j: int|
                0 <= j < i && host_port((#[trigger] entries@[j])@) == Some(selected_port),
        decreases entries.len() - i,
    {
        match parse_host_port(entries[i].as_str()) {
            Ok(port) => {
                assert(host_port(entries@[i as int]@) == Some(port));
                if port == selected_port {
                    contains_port = true;
                }
            },
            Err(_) => {
                assert(host_port(entries@[i as int]@) is None);
                return Err(());
            },
        }
        i = i + 1;
    }
    Ok(contains_port)
}

/// Whether Funnel is enabled for some host at a port, if every key is a host and
/// port.
pub open spec fn funnel_holds(entries: Seq<(String, bool)>, port: u16) -> Result<bool, ()> {
    if forall|i: int| 0 <= i < entries.len() ==> host_port((#[trigger] entries[i]).0@) is Some {
        Ok(
            exists|i: int|
                0 <= i < entries.len() && host_port((#[trigger] entries[i]).0@) == Some(port)
                    && entries[i].1,
        )
    } else {
        Err(())
    }
}

/// Whether Funnel is enabled for some host at a port.
pub fn funnel_map_contains_port(entries: &Vec<(String, bool)>, selected_port: u16) -> (contains:
    Result<bool, ()>)
    ensures
        contains == funnel_holds(entries@, selected_port),
{
    let mut contains_port = false;
    let mut i: usize = 0;
    while i < entries.len()
        invariant
            i <= entries.len(),
            forall|j: int| 0 <= j < i ==> host_port((#[trigger] entries@[j]).0@) is Some,
            contains_port == exists|j: int|
                0 <= j < i && host_port((#[trigger] entries@[j]).0@) == Some(selected_port)
                    && entries@[j].1,
        decreases entries.len() - i,
    {
        match parse_host_port(entries[i].0.as_str()) {
            Ok(port) => {
                assert(host_port(entries@[i as int].0@) == Some(port));
                if port == selected_port && entries[i].1 {
                    contains_port = true;
                }
            },
            Err(_) => {
                assert(host_port(entries@[i as int].0@) is None);
                return Err(());
            },
        }
        i = i + 1;
    }
    Ok(contains_port)
}

/// Whether a foreground session holds a port in any way, as far as its keys are
/// read before that is known.
pub open spec fn session_holds(config: ServeConfig, port: u16) -> Result<bool, ()>
    decreases config, 0int,
{
    match tcp_handler(config.tcp@, port) {
        Err(_) => Err(()),
        Ok(Some(_)) => Ok(true),
        Ok(None) => match web_holds(config.web@, port) {
            Err(_) => Err(()),
            Ok(true) => Ok(true),
            Ok(false) => match funnel_holds(config.allow_funnel@, port) {
                Err(_) => Err(()),
                Ok(true) => Ok(true),
                Ok(false) => foreground_holds(config.foreground@, port),
            },
        },
    }
}

/// Whether some foreground session holds a port, as far as the sessions are read
/// before that is known.
pub open spec fn foreground_holds(sessions: Seq<ServeConfig>, port: u16) -> Result<bool, ()>
    decreases sessions, 1int,
{
    if sessions.len() == 0 {
        Ok(false)
    } else {
        match session_holds(sessions[0], port) {
            Err(_) => Err(()),
            Ok(true) => Ok(true),
            Ok(false) => foreground_holds(sessions.subrange(1, sessions.len() as int), port),
        }
    }
}

/// Whether some foreground session holds a port.
pub fn foreground_contains_port(foreground: &Vec<ServeConfig>, selected_port: u16) -> (contains:
    Result<bool, ()>)
    ensures
        contains == foreground_holds(foreground@, selected_port),
    decreases foreground@,
{
    let mut i: usize = 0;
    assert(foreground@.skip(0) =~= foreground@);
    while i < foreground.len()
        invariant
            i <= foreground.len(),
            foreground_holds(foreground@, selected_port) == foreground_holds(
                foreground@.skip(i as int),
                selected_port,
            ),
        decreases foreground.len() - i,
    {
        proof {
            reveal_with_fuel(foreground_holds, 2);
            reveal_with_fuel(session_holds, 2);
        }
        let config = &foreground[i];
        let ghost rest = foreground@.skip(i as int);
        assert(rest[0] == *config);
        assert(rest.subrange(1, rest.len() as int) =~= foreground@.skip(i + 1));
        match tcp_handler_at_port(config, selected_port) {
            Err(_) => {
                return Err(());
            },
            Ok(Some(_)) => {
                return Ok(true);
            },
            Ok(None) => {},
        }
        match host_port_map_contains_port(&config.web, selected_port) {
            Err(_) => {
                return Err(());
            },
            Ok(true) => {
                return Ok(true);
            },
            Ok(false) => {},
        }
        match funnel_map_contains_port(&config.allow_funnel, selected_port) {
            Err(_) => {
                return Err(());
            },
            Ok(true) => {
                return Ok(true);
            },
            Ok(false) => {},
        }
        assert(decreases_to!(foreground@ => foreground@[i as int]));
        assert(decreases_to!(foreground@[i as int] => foreground@[i as int].foreground));
        assert(decreases_to!(foreground@[i as int].foreground => foreground@[i as int].foreground@));
        match foreground_contains_port(&config.foreground, selected_port) {
            Err(_) => {
                return Err(());
            },
            Ok(true) => {
                return Ok(true);
            },
            Ok(false) => {},
        }
        i = i + 1;
    }
    Ok(false)
}

/// Whether a handler is the mapping of a port to the same local port.
pub open spec fn is_desired_handler(handler: TcpPortHandler, port: u16) -> bool {
    &&& !handler.http
    &&& !handler.https
    &&& handler.tcp_forward@ == "127.0.0.1:"@ + decimal(port as nat)
    &&& handler.terminate_tls@.len() == 0
    &&& handler.proxy_protocol == 0
}

/// How a Serve configuration relates to the mapping of a port to the same local
/// port.
pub open spec fn classification(config: ServeConfig, port: u16) -> ProviderState {
    match (
        tcp_handler(config.tcp@, port),
        web_holds(config.web@, port),
        funnel_holds(config.allow_funnel@, port),
        foreground_holds(config.foreground@, port),
    ) {
        (Ok(handler), Ok(has_web), Ok(has_funnel), Ok(has_foreground)) => {
            if has_web || has_funnel || has_foreground {
                ProviderState::Conflict
            } else {
                match handler {
                    None => ProviderState::Absent,
                    Some(handler) => if is_desired_handler(handler, port) {
                        ProviderState::AlreadySatisfied
                    } else {
                        ProviderState::Conflict
                    },
                }
            }
        },
        _ => ProviderState::Indeterminate,
    }
}

/// Classifies a Serve configuration at a port.
pub fn classify_provider_state(config: &ServeConfig, port: u16) -> (state: ProviderState)
    ensures
        state == classification(*config, port),
{
    let tcp_handler = match tcp_handler_at_port(config, port) {
        Ok(tcp_handler) => tcp_handler,
        Err(_) => {
            return ProviderState::Indeterminate;
        },
    };
    let has_web = match host_port_map_contains_port(&config.web, port) {
        Ok(has_web) => has_web,
        Err(_) => {
            return ProviderState::Indeterminate;
        },
    };
    let has_funnel = match funnel_map_contains_port(&config.allow_funnel, port) {
        Ok(has_funnel) => has_funnel,
        Err(_) => {
            return ProviderState::Indeterminate;
        },
    };
    let has_foreground = match foreground_contains_port(&config.foreground, port) {
        Ok(has_foreground) => has_foreground,
        Err(_) => {
            return ProviderState::Indeterminate;
        },
    };
    if has_web || has_funnel || has_foreground {
        return ProviderState::Conflict;
    }
    match tcp_handler {
        None => ProviderState::Absent,
        Some(handler) => {
            let mut desired_target = "127.0.0.1:".to_owned();
            desired_target.append(decimal_text(port as u64).as_str());
            if !handler.http && !handler.https && same_text(
                handler.tcp_forward.as_str(),
                desired_target.as_str(),
            ) && handler.terminate_tls.as_str().is_empty() && handler.proxy_protocol == 0 {
                ProviderState::AlreadySatisfied
            } else {
                ProviderState::Conflict
            }
        },
    }
}

/// No foreground session holds the port exactly when each of them was read to the
/// end and holds it in no way. So whether the port is free of them does not depend
/// on the order in which they are walked.
pub proof fn foreground_is_clear(sessions: Seq<ServeConfig>, port: u16)
    ensures
        foreground_holds(sessions, port) == Ok::<bool, ()>(false) <==> forall|i: int|
            0 <= i < sessions.len() ==> session_holds(#[trigger] sessions[i], port) == Ok::<
                bool,
                (),
            >(false),
    decreases sessions.len(),
{
    if sessions.len() > 0 {
        let rest = sessions.subrange(1, sessions.len() as int);
        foreground_is_clear(rest, port);
        assert forall|i: int| 1 <= i < sessions.len() implies sessions[i] == rest[i - 1] by {}
        if foreground_holds(sessions, port) == Ok::<bool, ()>(false) {
            assert forall|i: int| 0 <= i < sessions.len() implies session_holds(
                #[trigger] sessions[i],
                port,
            ) == Ok::<bool, ()>(false) by {
                if i > 0 {
                    assert(sessions[i] == rest[i - 1]);
                }
            }
        } else if session_holds(sessions[0], port) == Ok::<bool, ()>(false) {
            let k = choose|k: int|
                0 <= k < rest.len() && session_holds(#[trigger] rest[k], port) != Ok::<bool, ()>(
                    false,
                );
            assert(sessions[k + 1] == rest[k]);
        }
    }
}

/// A slot is free to be used only when nothing at all is known to hold it: every key
/// was read, and no web host, enabled Funnel, foreground session or other handler
/// has the port.
pub proof fn usable_slots_are_clear(config: ServeConfig, port: u16)
    ensures
        classification(config, port) == ProviderState::Absent <==> {
            &&& tcp_handler(config.tcp@, port) == Ok::<Option<TcpPortHandler>, ()>(None)
            &&& web_holds(config.web@, port) == Ok::<bool, ()>(false)
            &&& funnel_holds(config.allow_funnel@, port) == Ok::<bool, ()>(false)
            &&& forall|i: int|
                0 <= i < config.foreground@.len() ==> session_holds(
                    #[trigger] config.foreground@[i],
                    port,
                ) == Ok::<bool, ()>(false)
        },
        classification(config, port) == ProviderState::AlreadySatisfied <==> {
            &&& tcp_handler(config.tcp@, port) matches Ok(Some(handler)) && is_desired_handler(
                handler,
                port,
            )
            &&& web_holds(config.web@, port) == Ok::<bool, ()>(false)
            &&& funnel_holds(config.allow_funnel@, port) == Ok::<bool, ()>(false)
            &&& forall|i: int|
                0 <= i < config.foreground@.len() ==> session_holds(
                    #[trigger] config.foreground@[i],
                    port,
                ) == Ok::<bool, ()>(false)
        },
{
    foreground_is_clear(config.foreground@, port);
}

/// Keys that cannot be read make a slot indeterminate, whatever else is there.
pub proof fn malformed_keys_are_indeterminate(config: ServeConfig, port: u16)
    requires
        tcp_handler(config.tcp@, port) is Err || web_holds(config.web@, port) is Err
            || funnel_holds(config.allow_funnel@, port) is Err,
    ensures
        classification(config, port) == ProviderState::Indeterminate,
{
}

/// Whether bytes are a JSON document that `serde_json` accepts.
pub uninterp spec fn json_document(bytes: Seq<u8>) -> bool;

/// `serde_json::from_slice` accepts exactly the bytes that it can read as one JSON
/// value. Whether it does depends on the bytes alone: it is named by
/// `json_document`.
#[verifier::external_body]
fn is_json(bytes: &[u8]) -> (accepted: bool)
    ensures
        accepted == json_document(bytes@),
{
    serde_json::from_slice::<serde_json::Value>(bytes).is_ok()
}

/// What became of a query of the Serve state. An answer holds the output and the
/// configuration that it decodes to: `None` when it does not decode, `Some(None)`
/// when it is null.
pub enum ServeReply {
    Failed,
    Answered { stdout: Vec<u8>, config: Option<Option<ServeConfig>> },
}

/// The state that an output describes, given whether it is JSON at all.
pub open spec fn described_state(
    json: bool,
    config: Option<Option<ServeConfig>>,
    port: u16,
) -> Result<ProviderState, ()> {
    if !json {
        Err(())
    } else {
        match config {
            None => Ok(ProviderState::Indeterminate),
            Some(None) => Ok(ProviderState::Absent),
            Some(Some(config)) => Ok(classification(config, port)),
        }
    }
}

/// The state that an output describes, given whether it is JSON at all.
pub fn provider_state(json: bool, config: &Option<Option<ServeConfig>>, port: u16) -> (state: Result<
    ProviderState,
    (),
>)
    ensures
        state == described_state(json, *config, port),
{
    if !json {
        return Err(());
    }
    match config {
        None => Ok(ProviderState::Indeterminate),
        Some(Some(config)) => Ok(classify_provider_state(config, port)),
        Some(None) => {
            let config = ServeConfig::default();
            Ok(classify_provider_state(&config, port))
        },
    }
}

/// The state that a Serve output describes.
pub fn parse_provider_state(
    stdout: &Vec<u8>,
    config: &Option<Option<ServeConfig>>,
    port: u16,
) -> (state: Result<ProviderState, ()>)
    ensures
        state == described_state(json_document(stdout@), *config, port),
{
    provider_state(is_json(stdout), config, port)
}

/// The observed state of a slot, when an output that is not JSON is no observation.
pub open spec fn observation(reply: ServeReply, port: u16) -> Result<ProviderState, Failure> {
    match reply {
        ServeReply::Failed => Err(Failure::ServeStatusFailed),
        ServeReply::Answered { stdout, config } => match described_state(
            json_document(stdout@),
            config,
            port,
        ) {
            Ok(state) => Ok(state),
            Err(_) => Err(Failure::ServeStatusFailed),
        },
    }
}

/// Observes a slot. An output that is not JSON is no observation.
pub fn observe(reply: &ServeReply, port: u16) -> (state: Result<ProviderState, Failure>)
    ensures
        state == observation(*reply, port),
{
    match reply {
        ServeReply::Failed => Err(Failure::ServeStatusFailed),
        ServeReply::Answered { stdout, config } => match parse_provider_state(stdout, config, port) {
            Ok(state) => Ok(state),
            Err(_) => Err(Failure::ServeStatusFailed),
        },
    }
}

/// The observed states of several slots in one snapshot.
pub open spec fn observations(reply: ServeReply, ports: Seq<u16>) -> Result<
    Seq<ProviderState>,
    Failure,
> {
    if reply is Failed || exists|i: int|
        0 <= i < ports.len() && observation(reply, #[trigger] ports[i]) is Err {
        Err(Failure::ServeStatusFailed)
    } else {
        Ok(ports.map_values(|port: u16| observation(reply, port)->Ok_0))
    }
}

/// Observes several slots in one snapshot.
pub fn observe_ports(reply: &ServeReply, ports: &Vec<u16>) -> (states: Result<
    Vec<ProviderState>,
    Failure,
>)
    ensures
        match states {
            Ok(states) => observations(*reply, ports@) == Ok::<Seq<ProviderState>, Failure>(
                states@,
            ),
            Err(failure) => observations(*reply, ports@) == Err::<Seq<ProviderState>, Failure>(
                failure,
            ),
        },
{
    if let ServeReply::Failed = reply {
        return Err(Failure::ServeStatusFailed);
    }
    let mut states: Vec<ProviderState> = Vec::new();
    let mut i: usize = 0;
    while i < ports.len()
        invariant
            i <= ports.len(),
            states.len() == i,
            forall|j: int|
                0 <= j < i ==> observation(*reply, #[trigger] ports@[j]) == Ok::<
                    ProviderState,
                    Failure,
                >(states@[j]),
        decreases ports.len() - i,
    {
        match observe(reply, ports[i]) {
            Ok(state) => states.push(state),
            Err(failure) => {
                assert(observation(*reply, ports@[i as int]) is Err);
                return Err(failure);
            },
        }
        i = i + 1;
    }
    assert(states@ =~= ports@.map_values(|port: u16| observation(*reply, port)->Ok_0));
    Ok(states)
}

/// The inspected state of a slot, indeterminate when an output is not JSON.
pub open spec fn inspection(reply: ServeReply, port: u16) -> Result<ProviderState, Failure> {
    match reply {
        ServeReply::Failed => Err(Failure::ServeStatusFailed),
        ServeReply::Answered { stdout, config } => match described_state(
            json_document(stdout@),
            config,
            port,
        ) {
            Ok(state) => Ok(state),
            Err(_) => Ok(ProviderState::Indeterminate),
        },
    }
}

/// Inspects a slot before or after a change. An output that is not JSON is
/// indeterminate.
pub fn inspect_provider_state(reply: &ServeReply, port: u16) -> (state: Result<
    ProviderState,
    Failure,
>)
    ensures
        state == inspection(*reply, port),
{
    match reply {
        ServeReply::Failed => Err(Failure::ServeStatusFailed),
        ServeReply::Answered { stdout, config } => match parse_provider_state(stdout, config, port) {
            Ok(state) => Ok(state),
            Err(_) => Ok(ProviderState::Indeterminate),
        },
    }
}

/// The result of making sure that a mapping is there.
pub enum EnsureOutcome {
    Created { endpoint: String },
    AlreadySatisfied { endpoint: String },
}

/// The mathematical model of an outcome.
pub enum EnsureModel {
    Created { endpoint: Seq<char> },
    AlreadySatisfied { endpoint: Seq<char> },
}

impl View for EnsureOutcome {
    type V = EnsureModel;

    open spec fn view(&self) -> EnsureModel {
        match self {
            EnsureOutcome::Created { endpoint } => EnsureModel::Created { endpoint: endpoint@ },
            EnsureOutcome::AlreadySatisfied { endpoint } => EnsureModel::AlreadySatisfied {
                endpoint: endpoint@,
            },
        }
    }
}

/// The mathematical model of a result.
pub open spec fn outcome_result(result: Result<EnsureOutcome, Failure>) -> Result<
    EnsureModel,
    Failure,
> {
    match result {
        Ok(outcome) => Ok(outcome@),
        Err(failure) => Err(failure),
    }
}

/// The result after a creation that succeeded, given what is observed then.
pub open spec fn verification(
    observed: Result<ProviderState, Failure>,
    endpoint: Seq<char>,
) -> Result<EnsureModel, Failure> {
    if observed == Ok::<ProviderState, Failure>(ProviderState::AlreadySatisfied) {
        Ok(EnsureModel::Created { endpoint })
    } else {
        Err(Failure::PostConditionUnmet)
    }
}

/// The result after a creation that succeeded: only an observed mapping counts.
pub fn verify_created_mapping(
    observed: Result<ProviderState, Failure>,
    endpoint: String,
) -> (result: Result<EnsureOutcome, Failure>)
    ensures
        outcome_result(result) == verification(observed, endpoint@),
{
    match observed {
        Ok(ProviderState::AlreadySatisfied) => Ok(EnsureOutcome::Created { endpoint }),
        _ => Err(Failure::PostConditionUnmet),
    }
}

/// The failure after a creation that failed, given what is observed then.
pub open spec fn mutation_diagnosis(observed: Result<ProviderState, Failure>) -> Failure {
    match observed {
        Ok(ProviderState::Absent) => Failure::MutationLeftAbsent,
        Ok(ProviderState::AlreadySatisfied) => Failure::MutationUncertain,
        Ok(ProviderState::Conflict) => Failure::MutationLeftConflict,
        Ok(ProviderState::Indeterminate) => Failure::MutationLeftUnknown,
        Err(_) => Failure::MutationLeftUnknown,
    }
}

/// The failure after a creation that failed. It is a failure whatever is observed.
pub fn mutation_failure(observed: Result<ProviderState, Failure>) -> (failure: Failure)
    ensures
        failure == mutation_diagnosis(observed),
{
    match observed {
        Ok(ProviderState::Absent) => Failure::MutationLeftAbsent,
        Ok(ProviderState::AlreadySatisfied) => Failure::MutationUncertain,
        Ok(ProviderState::Conflict) => Failure::MutationLeftConflict,
        Ok(ProviderState::Indeterminate) => Failure::MutationLeftUnknown,
        Err(_) => Failure::MutationLeftUnknown,
    }
}

/// What is known while a mapping is being ensured. Each field is filled by the
/// action that asks for it.
pub struct EnsureFacts {
    /// The answer of the client.
    pub client: Option<ClientReply>,
    /// Whether the local backend accepted a connection.
    pub reachable: Option<bool>,
    /// The Serve state before any change.
    pub before: Option<ServeReply>,
    /// Whether the command that creates the mapping succeeded.
    pub mutation: Option<bool>,
    /// The Serve state after the change.
    pub after: Option<ServeReply>,
}

impl EnsureFacts {
    /// Nothing is known.
    pub open spec fn unknown() -> EnsureFacts {
        EnsureFacts {
            client: None,
            reachable: None,
            before: None,
            mutation: None,
            after: None,
        }
    }

    /// Nothing is known yet.
    pub fn new() -> (facts: EnsureFacts)
        ensures
            facts == Self::unknown(),
    {
        EnsureFacts {
            client: None,
            reachable: None,
            before: None,
            mutation: None,
            after: None,
        }
    }
}

/// What to do to ensure a mapping.
pub enum EnsureAction {
    /// Query the client state with these arguments.
    QueryClient(Vec<String>),
    /// Connect to the local backend on this port.
    Connect(u16),
    /// Query the Serve state with these arguments.
    QueryServe(Vec<String>),
    /// Create the mapping with these arguments.
    CreateMapping(Vec<String>),
    /// Query the Serve state again with these arguments.
    QueryServeAgain(Vec<String>),
}

/// The mathematical model of an action.
pub enum EnsureActionModel {
    QueryClient(Seq<Seq<char>>),
    Connect(u16),
    QueryServe(Seq<Seq<char>>),
    CreateMapping(Seq<Seq<char>>),
    QueryServeAgain(Seq<Seq<char>>),
}

impl View for EnsureAction {
    type V = EnsureActionModel;

    open spec fn view(&self) -> EnsureActionModel {
        match self {
            EnsureAction::QueryClient(arguments) => EnsureActionModel::QueryClient(
                arguments.deep_view(),
            ),
            EnsureAction::Connect(port) => EnsureActionModel::Connect(*port),
            EnsureAction::QueryServe(arguments) => EnsureActionModel::QueryServe(
                arguments.deep_view(),
            ),
            EnsureAction::CreateMapping(arguments) => EnsureActionModel::CreateMapping(
                arguments.deep_view(),
            ),
            EnsureAction::QueryServeAgain(arguments) => EnsureActionModel::QueryServeAgain(
                arguments.deep_view(),
            ),
        }
    }
}

/// The mathematical model of what to do next.
pub type EnsureStep = Next<EnsureActionModel, Result<EnsureModel, Failure>>;

/// The mathematical model of what is decided next.
pub open spec fn ensure_model(
    next: Next<EnsureAction, Result<EnsureOutcome, Failure>>,
) -> EnsureStep {
    match next {
        Next::Act(action) => Next::Act(action@),
        Next::Done(result) => Next::Done(outcome_result(result)),
    }
}

/// What to do next once the slot was found absent.
pub open spec fn creation_step(facts: EnsureFacts, port: u16, endpoint: Seq<char>) -> EnsureStep {
    match (facts.mutation, facts.after) {
        (None, _) => Next::Act(EnsureActionModel::CreateMapping(mapping_arguments(port))),
        (Some(_), None) => Next::Act(EnsureActionModel::QueryServeAgain(serve_arguments())),
        (Some(true), Some(reply)) => Next::Done(
            verification(inspection(reply, port), endpoint),
        ),
        (Some(false), Some(reply)) => Next::Done(
            Err(mutation_diagnosis(inspection(reply, port))),
        ),
    }
}

/// What to do next once the client has answered and the backend was reached.
pub open spec fn slot_step(facts: EnsureFacts, port: u16, endpoint: Seq<char>) -> EnsureStep {
    match facts.before {
        None => Next::Act(EnsureActionModel::QueryServe(serve_arguments())),
        Some(reply) => match inspection(reply, port) {
            Err(failure) => Next::Done(Err(failure)),
            Ok(ProviderState::AlreadySatisfied) => Next::Done(
                Ok(EnsureModel::AlreadySatisfied { endpoint }),
            ),
            Ok(ProviderState::Conflict) => Next::Done(Err(Failure::ServeSlotTaken)),
            Ok(ProviderState::Indeterminate) => Next::Done(Err(Failure::ServeStateUnknown)),
            Ok(ProviderState::Absent) => creation_step(facts, port, endpoint),
        },
    }
}

/// What to do next to ensure the mapping of a port.
pub open spec fn ensure_step(facts: EnsureFacts, port: u16) -> EnsureStep {
    match facts.client {
        None => Next::Act(EnsureActionModel::QueryClient(client_arguments())),
        Some(reply) => match node_endpoint(reply, port) {
            Err(failure) => Next::Done(Err(failure)),
            Ok(endpoint) => match facts.reachable {
                None => Next::Act(EnsureActionModel::Connect(port)),
                Some(false) => Next::Done(Err(Failure::BackendUnreachable(port))),
                Some(true) => slot_step(facts, port, endpoint),
            },
        },
    }
}

/// Creates the mapping of a port whose slot is absent, and looks at what came of it.
pub fn create_mapping(facts: &EnsureFacts, port: u16, endpoint: String) -> (next: Next<
    EnsureAction,
    Result<EnsureOutcome, Failure>,
>)
    ensures
        ensure_model(next) == creation_step(*facts, port, endpoint@),
{
    match (&facts.mutation, &facts.after) {
        (None, _) => Next::Act(EnsureAction::CreateMapping(mapping_command(port))),
        (Some(_), None) => Next::Act(EnsureAction::QueryServeAgain(serve_query())),
        (Some(true), Some(reply)) => Next::Done(
            verify_created_mapping(inspect_provider_state(reply, port), endpoint),
        ),
        (Some(false), Some(reply)) => Next::Done(
            Err(mutation_failure(inspect_provider_state(reply, port))),
        ),
    }
}

/// Decides what to do next to ensure the mapping of a port.
pub fn ensure(facts: &EnsureFacts, port: u16) -> (next: Next<
    EnsureAction,
    Result<EnsureOutcome, Failure>,
>)
    ensures
        ensure_model(next) == ensure_step(*facts, port),
{
    let endpoint = match &facts.client {
        None => {
            return Next::Act(EnsureAction::QueryClient(client_query()));
        },
        Some(reply) => match current_node_endpoint(reply, port) {
            Ok(endpoint) => endpoint,
            Err(failure) => {
                return Next::Done(Err(failure));
            },
        },
    };
    match facts.reachable {
        None => {
            return Next::Act(EnsureAction::Connect(port));
        },
        Some(false) => {
            return Next::Done(Err(Failure::BackendUnreachable(port)));
        },
        Some(true) => {},
    }
    match &facts.before {
        None => Next::Act(EnsureAction::QueryServe(serve_query())),
        Some(reply) => match inspect_provider_state(reply, port) {
            Err(failure) => Next::Done(Err(failure)),
            Ok(ProviderState::AlreadySatisfied) => Next::Done(
                Ok(EnsureOutcome::AlreadySatisfied { endpoint }),
            ),
            Ok(ProviderState::Conflict) => Next::Done(Err(Failure::ServeSlotTaken)),
            Ok(ProviderState::Indeterminate) => Next::Done(
                Err(Failure::ServeStateUnknown),
            ),
            Ok(ProviderState::Absent) => create_mapping(facts, port, endpoint),
        },
    }
}

/// A mapping is created only in a slot that was observed to be absent, for a backend
/// that was reached, at most once, and with the command that maps the port to the same
/// local port.
pub proof fn creation_needs_an_absent_slot(
    facts: EnsureFacts,
    port: u16,
    command: Seq<Seq<char>>,
)
    requires
        ensure_step(facts, port) == EnsureStep::Act(EnsureActionModel::CreateMapping(command)),
    ensures
        facts.client matches Some(reply) && node_endpoint(reply, port) is Ok,
        facts.reachable == Some(true),
        facts.before matches Some(reply) && inspection(reply, port) == Ok::<ProviderState, Failure>(
            ProviderState::Absent,
        ),
        facts.mutation is None,
        command == mapping_arguments(port),
{
}

/// A creation is reported only after the command succeeded and the exact mapping was
/// observed.
pub proof fn created_means_observed(facts: EnsureFacts, port: u16, endpoint: Seq<char>)
    requires
        ensure_step(facts, port) == EnsureStep::Done(Ok(EnsureModel::Created { endpoint })),
    ensures
        facts.mutation == Some(true),
        facts.after matches Some(reply) && inspection(reply, port) == Ok::<ProviderState, Failure>(
            ProviderState::AlreadySatisfied,
        ),
        facts.client matches Some(reply) && node_endpoint(reply, port) == Ok::<Seq<char>, Failure>(
            endpoint,
        ),
{
}

/// A mapping that is there already is reported as such, whatever else becomes known:
/// no change is made for it.
pub proof fn satisfied_slots_are_left_alone(facts: EnsureFacts, port: u16, endpoint: Seq<char>)
    requires
        facts.client matches Some(reply) && node_endpoint(reply, port) == Ok::<Seq<char>, Failure>(
            endpoint,
        ),
        facts.reachable == Some(true),
        facts.before matches Some(reply) && inspection(reply, port) == Ok::<ProviderState, Failure>(
            ProviderState::AlreadySatisfied,
        ),
    ensures
        ensure_step(facts, port) == EnsureStep::Done(
            Ok(EnsureModel::AlreadySatisfied { endpoint }),
        ),
{
}

/// A creation that failed is never turned into a success.
pub proof fn failed_creation_is_a_failure(facts: EnsureFacts, port: u16)
    requires
        facts.mutation == Some(false),
        facts.before matches Some(reply) && inspection(reply, port) == Ok::<ProviderState, Failure>(
            ProviderState::Absent,
        ),
        ensure_step(facts, port) is Done,
    ensures
        ensure_step(facts, port)->Done_0 is Err,
{
}

/// Every action asks for something that is not known yet, and the actions come in one
/// order, so ensuring a mapping takes none of them twice.
pub proof fn ensuring_makes_progress(facts: EnsureFacts, port: u16)
    ensures
        match ensure_step(facts, port) {
            Next::Act(EnsureActionModel::QueryClient(_)) => facts.client is None,
            Next::Act(EnsureActionModel::Connect(_)) => facts.client is Some
                && facts.reachable is None,
            Next::Act(EnsureActionModel::QueryServe(_)) => facts.reachable is Some
                && facts.before is None,
            Next::Act(EnsureActionModel::CreateMapping(_)) => facts.before is Some
                && facts.mutation is None,
            Next::Act(EnsureActionModel::QueryServeAgain(_)) => facts.mutation is Some
                && facts.after is None,
            Next::Done(_) => facts.client is Some,
        },
{
}

/// The arguments of the command that queries the client state.
pub open spec fn client_arguments() -> Seq<Seq<char>> {
    seq!["status"@, "--json"@]
}

/// The arguments of the command that queries the client state.
pub fn client_query() -> (arguments: Vec<String>)
    ensures
        arguments.deep_view() == client_arguments(),
{
    let mut arguments: Vec<String> = Vec::new();
    arguments.push("status".to_owned());
    arguments.push("--json".to_owned());
    assert(arguments.deep_view() =~= client_arguments());
    arguments
}

/// The arguments of the command that queries the Serve state.
pub open spec fn serve_arguments() -> Seq<Seq<char>> {
    seq!["serve"@, "status"@, "--json"@]
}

/// The arguments of the command that queries the Serve state.
pub fn serve_query() -> (arguments: Vec<String>)
    ensures
        arguments.deep_view() == serve_arguments(),
{
    let mut arguments: Vec<String> = Vec::new();
    arguments.push("serve".to_owned());
    arguments.push("status".to_owned());
    arguments.push("--json".to_owned());
    assert(arguments.deep_view() =~= serve_arguments());
    arguments
}

/// The arguments of the command that maps a port to the same local port.
pub open spec fn mapping_arguments(port: u16) -> Seq<Seq<char>> {
    seq![
        "serve"@,
        "--bg"@,
        "--tcp="@ + decimal(port as nat),
        "tcp://127.0.0.1:"@ + decimal(port as nat),
    ]
}

/// The arguments of the command that maps a port to the same local port.
pub fn mapping_command(port: u16) -> (arguments: Vec<String>)
    ensures
        arguments.deep_view() == mapping_arguments(port),
{
    let number = decimal_text(port as u64);
    let mut tcp_flag = "--tcp=".to_owned();
    tcp_flag.append(number.as_str());
    let mut target = "tcp://127.0.0.1:".to_owned();
    target.append(number.as_str());
    let mut arguments: Vec<String> = Vec::new();
    arguments.push("serve".to_owned());
    arguments.push("--bg".to_owned());
    arguments.push(tcp_flag);
    arguments.push(target);
    assert(arguments.deep_view() =~= mapping_arguments(port));
    arguments
}

/// What is reported of a mapping that was ensured.
pub open spec fn ensured_line(service: Seq<char>, outcome: EnsureModel) -> Seq<char> {
    match outcome {
        EnsureModel::Created { endpoint } => "Published "@ + service + " via "@
            + TAILSCALE_SERVE_TCP_PUBLISHER@ + " at "@ + endpoint,
        EnsureModel::AlreadySatisfied { endpoint } => "Publication already satisfied for "@
            + service + " via "@ + TAILSCALE_SERVE_TCP_PUBLISHER@ + " at "@ + endpoint,
    }
}

/// The mathematical model of what is decided next about a publication.
pub open spec fn line_model(next: Next<EnsureAction, Result<String, Failure>>) -> Next<
    EnsureActionModel,
    Result<Seq<char>, Failure>,
> {
    match next {
        Next::Act(action) => Next::Act(action@),
        Next::Done(result) => Next::Done(text_result(result)),
    }
}

/// What to do next to publish a service on its port.
pub open spec fn serve_publication_step(
    service: Seq<char>,
    port: u16,
    facts: EnsureFacts,
) -> Next<EnsureActionModel, Result<Seq<char>, Failure>> {
    match ensure_step(facts, port) {
        Next::Act(action) => Next::Act(action),
        Next::Done(Ok(outcome)) => Next::Done(Ok(ensured_line(service, outcome))),
        Next::Done(Err(failure)) => Next::Done(Err(failure)),
    }
}

/// Decides what to do next to publish a service on its port.
pub fn ensure_tailscale_publication(service_name: &str, port: u16, facts: &EnsureFacts) -> (next:
    Next<EnsureAction, Result<String, Failure>>)
    ensures
        line_model(next) == serve_publication_step(service_name@, port, *facts),
{
    match ensure(facts, port) {
        Next::Done(Ok(EnsureOutcome::Created { endpoint })) => {
            let mut line = "Published ".to_owned();
            line.append(service_name);
            line.append(" via ");
            line.append(TAILSCALE_SERVE_TCP_PUBLISHER);
            line.append(" at ");
            line.append(endpoint.as_str());
            Next::Done(Ok(line))
        },
        Next::Done(Ok(EnsureOutcome::AlreadySatisfied { endpoint })) => {
            let mut line = "Publication already satisfied for ".to_owned();
            line.append(service_name);
            line.append(" via ");
            line.append(TAILSCALE_SERVE_TCP_PUBLISHER);
            line.append(" at ");
            line.append(endpoint.as_str());
            Next::Done(Ok(line))
        },
        Next::Done(Err(failure)) => Next::Done(Err(failure)),
        Next::Act(action) => Next::Act(action),
    }
}

/// A service is reported as published only when its mapping was observed, before any
/// change or after the one that was made.
pub proof fn published_means_observed(
    service: Seq<char>,
    port: u16,
    facts: EnsureFacts,
    line: Seq<char>,
)
    requires
        serve_publication_step(service, port, facts) == Next::<
            EnsureActionModel,
            Result<Seq<char>, Failure>,
        >::Done(Ok(line)),
    ensures
        facts.reachable == Some(true),
        ({
            ||| facts.before matches Some(reply) && inspection(reply, port) == Ok::<
                ProviderState,
                Failure,
            >(ProviderState::AlreadySatisfied)
            ||| facts.mutation == Some(true) && (facts.after matches Some(reply) && inspection(
                reply,
                port,
            ) == Ok::<ProviderState, Failure>(ProviderState::AlreadySatisfied))
        }),
{
}

/// What is done about a slot follows from its observed state: an absent one is filled, a
/// satisfied one is left alone, and any other one is refused.
pub proof fn ensuring_follows_the_observed_state(
    facts: EnsureFacts,
    port: u16,
    state: ProviderState,
    endpoint: Seq<char>,
)
    requires
        facts.client matches Some(reply) && node_endpoint(reply, port) == Ok::<Seq<char>, Failure>(
            endpoint,
        ),
        facts.reachable == Some(true),
        facts.before matches Some(reply) && observation(reply, port) == Ok::<
            ProviderState,
            Failure,
        >(state),
        facts.mutation is None,
    ensures
        ensure_step(facts, port) == match state {
            ProviderState::Absent => Next::Act(
                EnsureActionModel::CreateMapping(mapping_arguments(port)),
            ),
            ProviderState::AlreadySatisfied => Next::Done(
                Ok(EnsureModel::AlreadySatisfied { endpoint }),
            ),
            ProviderState::Conflict => Next::Done(Err(Failure::ServeSlotTaken)),
            ProviderState::Indeterminate => Next::Done(Err(Failure::ServeStateUnknown)),
        },
{
}

/// A mapping that was created is found satisfied when the same state is seen again.
pub proof fn created_mappings_are_found_again(
    facts: EnsureFacts,
    again: EnsureFacts,
    port: u16,
    endpoint: Seq<char>,
)
    requires
        ensure_step(facts, port) == EnsureStep::Done(Ok(EnsureModel::Created { endpoint })),
        again.client == facts.client,
        again.reachable == Some(true),
        again.before == facts.after,
    ensures
        ensure_step(again, port) == EnsureStep::Done(
            Ok(EnsureModel::AlreadySatisfied { endpoint }),
        ),
{
}

/// What is inspected before a change is what is observed, but for an output that is not
/// JSON: that is no observation, and is inspected as indeterminate.
pub proof fn inspection_agrees_with_observation(reply: ServeReply, port: u16)
    ensures
        observation(reply, port) is Ok ==> inspection(reply, port) == observation(reply, port),
        observation(reply, port) is Err ==> inspection(reply, port) is Err || inspection(reply, port)
            == Ok::<ProviderState, Failure>(ProviderState::Indeterminate),
        inspection(reply, port) is Err <==> reply is Failed,
{
}

/// An output that does not decode is never taken for an absent or a satisfied slot,
/// whether it is JSON or not.
pub proof fn undecodable_state_is_indeterminate(stdout: Vec<u8>, port: u16)
    ensures
        inspection(ServeReply::Answered { stdout, config: None }, port) == Ok::<
            ProviderState,
            Failure,
        >(ProviderState::Indeterminate),
{
}

/// What was seen last of the slot of a port: a slot that was absent is looked at again.
pub open spec fn serve_seen_last(facts: EnsureFacts, port: u16) -> Option<ServeReply> {
    match facts.before {
        Some(reply) => if inspection(reply, port) == Ok::<ProviderState, Failure>(
            ProviderState::Absent,
        ) {
            facts.after
        } else {
            facts.before
        },
        None => None,
    }
}

/// Whether all that is known in a later run of a mapping is as it was seen last before. Of
/// the Serve state only the slot of the mapping counts.
pub open spec fn serve_unchanged(first: EnsureFacts, again: EnsureFacts, port: u16) -> bool {
    &&& again.client is Some ==> again.client == first.client
    &&& again.reachable is Some ==> again.reachable == first.reachable
    &&& again.before matches Some(reply) ==> {
        &&& serve_seen_last(first, port) matches Some(last)
        &&& inspection(reply, port) == inspection(last, port)
    }
}

/// The endpoint of a mapping that was ensured.
pub open spec fn endpoint_of(outcome: EnsureModel) -> Seq<char> {
    match outcome {
        EnsureModel::Created { endpoint } => endpoint,
        EnsureModel::AlreadySatisfied { endpoint } => endpoint,
    }
}

/// A mapping that was ensured is found already satisfied, at the same endpoint, as long as
/// its slot does not change, and it is not created again.
pub proof fn ensured_mappings_are_satisfied_again(
    first: EnsureFacts,
    again: EnsureFacts,
    port: u16,
    outcome: EnsureModel,
)
    requires
        ensure_step(first, port) == EnsureStep::Done(Ok(outcome)),
        serve_unchanged(first, again, port),
    ensures
        match ensure_step(again, port) {
            Next::Act(action) => !(action is CreateMapping) && !(action is QueryServeAgain),
            Next::Done(result) => result == Ok::<EnsureModel, Failure>(
                EnsureModel::AlreadySatisfied { endpoint: endpoint_of(outcome) },
            ),
        },
{
}

/// The endpoint of a port is made of the name of the node, without its final dot, and of that
/// port. There is one exactly when the client is running, the node is online, MagicDNS is
/// enabled, and the name ends in a dot behind a DNS name.
pub proof fn endpoints_name_the_node_and_the_port(
    status: TailscaleStatus,
    node: TailscaleNode,
    tailnet: TailnetStatus,
    name: Seq<char>,
    port: u16,
)
    requires
        status.local_node == Some(node),
        status.current_tailnet == Some(tailnet),
        node.dns_name@ == name.push('.'),
    ensures
        node_endpoint(ClientReply::Answered(Some(status)), port)
            == if status.backend_state@ == "Running"@ && node.online {
            if tailnet.magic_dns_enabled && dns_name(name) {
                Ok::<Seq<char>, Failure>("tcp://"@ + name + ":"@ + decimal(port as nat))
            } else {
                Err::<Seq<char>, Failure>(Failure::EndpointUnavailable)
            }
        } else {
            Err::<Seq<char>, Failure>(Failure::ClientDown)
        },
{
    assert(name.push('.').drop_last() =~= name);
    assert(name.push('.').last() == '.');
}

/// Every way in which the client does not answer usefully is a failure of its own: no
/// executable, no answer, an answer that does not decode or leaves out the node or the
/// tailnet, a client that is down, and a name that does not end in a dot.
pub proof fn client_failures_are_told_apart(status: TailscaleStatus, node: TailscaleNode, port: u16)
    ensures
        node_endpoint(ClientReply::ExecutableMissing, port) == Err::<Seq<char>, Failure>(
            Failure::TailscaleMissing,
        ),
        node_endpoint(ClientReply::NotStarted, port) == Err::<Seq<char>, Failure>(
            Failure::ClientDown,
        ),
        node_endpoint(ClientReply::Unsuccessful, port) == Err::<Seq<char>, Failure>(
            Failure::ClientDown,
        ),
        node_endpoint(ClientReply::Answered(None), port) == Err::<Seq<char>, Failure>(
            Failure::ClientStateUnknown,
        ),
        status.local_node is None || status.current_tailnet is None ==> node_endpoint(
            ClientReply::Answered(Some(status)),
            port,
        ) == Err::<Seq<char>, Failure>(Failure::ClientStateUnknown),
        status.local_node == Some(node) && status.current_tailnet is Some && (
        status.backend_state@ != "Running"@ || !node.online) ==> node_endpoint(
            ClientReply::Answered(Some(status)),
            port,
        ) == Err::<Seq<char>, Failure>(Failure::ClientDown),
        status.local_node == Some(node) && status.current_tailnet is Some
            && status.backend_state@ == "Running"@ && node.online && (node.dns_name@.len() == 0
            || node.dns_name@.last() != '.') ==> node_endpoint(
            ClientReply::Answered(Some(status)),
            port,
        ) == Err::<Seq<char>, Failure>(Failure::EndpointUnavailable),
{
}

/// What can be published also passes as a prerequisite, for every port alike.
pub proof fn prerequisites_do_not_depend_on_the_port(reply: ClientReply, port: u16, other: u16)
    ensures
        node_name(reply) is Ok <==> node_endpoint(reply, port) is Ok,
        node_endpoint(reply, port) is Ok <==> node_endpoint(reply, other) is Ok,
        node_name(reply) matches Err(failure) ==> node_endpoint(reply, port) == Err::<
            Seq<char>,
            Failure,
        >(failure),
{
}

proof fn lemma_handler_of(tcp: Seq<(String, TcpPortHandler)>, port: u16)
    ensures
        match handler_of(tcp, port) {
            Some(handler) => exists|i: int|
                0 <= i < tcp.len() && (#[trigger] tcp[i]).0@ == decimal(port as nat) && tcp[i].1
                    == handler,
            None => forall|i: int|
                0 <= i < tcp.len() ==> (#[trigger] tcp[i]).0@ != decimal(port as nat),
        },
    decreases tcp.len(),
{
    if tcp.len() > 0 {
        let rest = tcp.drop_first();
        lemma_handler_of(rest, port);
        if tcp[0].0@ != decimal(port as nat) {
            match handler_of(rest, port) {
                Some(handler) => {
                    let i = choose|i: int|
                        0 <= i < rest.len() && (#[trigger] rest[i]).0@ == decimal(port as nat)
                            && rest[i].1 == handler;
                    assert(tcp[i + 1] == rest[i]);
                },
                None => {
                    assert forall|i: int| 0 <= i < tcp.len() implies (#[trigger] tcp[i]).0@
                        != decimal(port as nat) by {
                        if i > 0 {
                            assert(tcp[i] == rest[i - 1]);
                        }
                    }
                },
            }
        }
    }
}

/// Whether a key is the number of some port.
pub open spec fn is_port_key(key: Seq<char>) -> bool {
    exists|number: u16| key == #[trigger] decimal(number as nat)
}

/// The handler of a port stands under the decimal number of that port, and every key must be
/// the number of some port.
pub proof fn handlers_are_found_by_port(tcp: Seq<(String, TcpPortHandler)>, port: u16)
    ensures
        tcp_handler(tcp, port) is Err <==> exists|i: int|
            0 <= i < tcp.len() && !is_port_key((#[trigger] tcp[i]).0@),
        tcp_handler(tcp, port) matches Ok(Some(handler)) ==> exists|i: int|
            0 <= i < tcp.len() && (#[trigger] tcp[i]).0@ == decimal(port as nat) && tcp[i].1
                == handler,
        tcp_handler(tcp, port) matches Ok(None) ==> forall|i: int|
            0 <= i < tcp.len() ==> (#[trigger] tcp[i]).0@ != decimal(port as nat),
{
    lemma_handler_of(tcp, port);
    assert forall|i: int| 0 <= i < tcp.len() implies (numeral((#[trigger] tcp[i]).0@, 65535)
        is Some) == is_port_key(tcp[i].0@) by {
        let key = tcp[i].0@;
        if let Some(number) = numeral(key, 65535) {
            numeral_reads_back(key, number, 65535);
            assert(key == decimal((number as u16) as nat));
        }
        if is_port_key(key) {
            let number = choose|number: u16| key == #[trigger] decimal(number as nat);
            numeral_reads_back(key, number as u32, 65535);
        }
    }
    if tcp_handler(tcp, port) is Err {
        let i = choose|i: int|
            0 <= i < tcp.len() && !(numeral((#[trigger] tcp[i]).0@, 65535) is Some);
        assert(!is_port_key(tcp[i].0@));
    }
    if exists|i: int| 0 <= i < tcp.len() && !is_port_key((#[trigger] tcp[i]).0@) {
        let i = choose|i: int| 0 <= i < tcp.len() && !is_port_key((#[trigger] tcp[i]).0@);
        assert(!(numeral(tcp[i].0@, 65535) is Some));
    }
}

/// Whether a key is a host with a port.
pub open spec fn names_port(key: Seq<char>, port: u16) -> bool {
    exists|host: Seq<char>|
        host.len() > 0 && key == #[trigger] host.push(':') + decimal(port as nat)
}

/// Whether a key is a host with any port.
pub open spec fn names_some_port(key: Seq<char>) -> bool {
    exists|port: u16| #[trigger] names_port(key, port)
}

/// A web host holds a port exactly when its key is a host and that port, and Funnel holds it
/// exactly when such a key is switched on. A key that is no host with a port makes neither
/// readable.
pub proof fn keys_hold_the_port_they_name(web: Seq<String>, funnel: Seq<(String, bool)>, port: u16)
    ensures
        web_holds(web, port) is Err <==> exists|i: int|
            0 <= i < web.len() && !names_some_port((#[trigger] web[i])@),
        web_holds(web, port) matches Ok(held) ==> (held <==> exists|i: int|
            0 <= i < web.len() && names_port((#[trigger] web[i])@, port)),
        funnel_holds(funnel, port) is Err <==> exists|i: int|
            0 <= i < funnel.len() && !names_some_port((#[trigger] funnel[i]).0@),
        funnel_holds(funnel, port) matches Ok(held) ==> (held <==> exists|i: int|
            0 <= i < funnel.len() && names_port((#[trigger] funnel[i]).0@, port) && funnel[i].1),
{
    assert forall|key: Seq<char>, number: u16| #[trigger] names_port(key, number) == (host_port(key)
        == Some(number)) by {
        host_port_reads_back(key, number);
    }
    assert forall|key: Seq<char>| #[trigger] names_some_port(key) == host_port(key) is Some by {
        if let Some(number) = host_port(key) {
            assert(names_port(key, number));
        }
    }
    if web_holds(web, port) is Err {
        let i = choose|i: int| 0 <= i < web.len() && !(host_port((#[trigger] web[i])@) is Some);
        assert(!names_some_port(web[i]@));
    }
    if exists|i: int| 0 <= i < web.len() && !names_some_port((#[trigger] web[i])@) {
        let i = choose|i: int| 0 <= i < web.len() && !names_some_port((#[trigger] web[i])@);
        assert(host_port(web[i]@) is None);
    }
    if web_holds(web, port) is Ok {
        if web_holds(web, port)->Ok_0 {
            let i = choose|i: int|
                0 <= i < web.len() && host_port((#[trigger] web[i])@) == Some(port);
            assert(names_port(web[i]@, port));
        }
        if exists|i: int| 0 <= i < web.len() && names_port((#[trigger] web[i])@, port) {
            let i = choose|i: int| 0 <= i < web.len() && names_port((#[trigger] web[i])@, port);
            assert(host_port(web[i]@) == Some(port));
        }
    }
    if funnel_holds(funnel, port) is Err {
        let i = choose|i: int|
            0 <= i < funnel.len() && !(host_port((#[trigger] funnel[i]).0@) is Some);
        assert(!names_some_port(funnel[i].0@));
    }
    if exists|i: int| 0 <= i < funnel.len() && !names_some_port((#[trigger] funnel[i]).0@) {
        let i = choose|i: int|
            0 <= i < funnel.len() && !names_some_port((#[trigger] funnel[i]).0@);
        assert(host_port(funnel[i].0@) is None);
    }
    if funnel_holds(funnel, port) is Ok {
        if funnel_holds(funnel, port)->Ok_0 {
            let i = choose|i: int|
                0 <= i < funnel.len() && host_port((#[trigger] funnel[i]).0@) == Some(port)
                    && funnel[i].1;
            assert(names_port(funnel[i].0@, port));
        }
        if exists|i: int|
            0 <= i < funnel.len() && names_port((#[trigger] funnel[i]).0@, port) && funnel[i].1 {
            let i = choose|i: int|
                0 <= i < funnel.len() && names_port((#[trigger] funnel[i]).0@, port)
                    && funnel[i].1;
            assert(host_port(funnel[i].0@) == Some(port));
        }
    }
}

/// A foreground session is read part by part until the port is found: its handlers, its web
/// hosts, its Funnel switches and then its own sessions. A part that cannot be read counts
/// only when the port was not found before it.
pub proof fn sessions_are_read_until_the_port_is_found(
    config: ServeConfig,
    more: Seq<ServeConfig>,
    port: u16,
)
    ensures
        foreground_holds(Seq::empty(), port) == Ok::<bool, ()>(false),
        match session_holds(config, port) {
            Err(_) => foreground_holds(seq![config] + more, port) is Err,
            Ok(true) => foreground_holds(seq![config] + more, port) == Ok::<bool, ()>(true),
            Ok(false) => foreground_holds(seq![config] + more, port) == foreground_holds(
                more,
                port,
            ),
        },
        session_holds(config, port) == Ok::<bool, ()>(true) <==> {
            ||| tcp_handler(config.tcp@, port) matches Ok(Some(_))
            ||| tcp_handler(config.tcp@, port) matches Ok(None) && {
                ||| web_holds(config.web@, port) == Ok::<bool, ()>(true)
                ||| web_holds(config.web@, port) == Ok::<bool, ()>(false) && {
                    ||| funnel_holds(config.allow_funnel@, port) == Ok::<bool, ()>(true)
                    ||| funnel_holds(config.allow_funnel@, port) == Ok::<bool, ()>(false)
                        && foreground_holds(config.foreground@, port) == Ok::<bool, ()>(true)
                }
            }
        },
        session_holds(config, port) == Ok::<bool, ()>(false) <==> {
            &&& tcp_handler(config.tcp@, port) matches Ok(None)
            &&& web_holds(config.web@, port) == Ok::<bool, ()>(false)
            &&& funnel_holds(config.allow_funnel@, port) == Ok::<bool, ()>(false)
            &&& foreground_holds(config.foreground@, port) == Ok::<bool, ()>(false)
        },
{
    reveal_with_fuel(foreground_holds, 2);
    reveal_with_fuel(session_holds, 2);
    let all = seq![config] + more;
    assert(all[0] == config && all.len() > 0);
    assert(all.subrange(1, all.len() as int) =~= more);
}

/// Whether a handler forwards plain connections to the same port of the local machine: to
/// `127.0.0.1:` and the number of the port, without HTTP, HTTPS, TLS termination or the PROXY
/// protocol.
pub open spec fn forwards_locally(handler: TcpPortHandler, port: u16) -> bool {
    &&& handler.tcp_forward@ == "127.0.0.1:"@ + decimal(port as nat)
    &&& handler.http == false
    &&& handler.https == false
    &&& handler.terminate_tls@ == Seq::<char>::empty()
    &&& handler.proxy_protocol == 0
}

/// A slot is satisfied only when the handler under the number of its port forwards plain
/// connections to the same port of the local machine. A handler with any other target, or
/// with anything else switched on, makes the slot a conflict or leaves it indeterminate.
pub proof fn satisfied_slots_forward_locally(config: ServeConfig, port: u16)
    ensures
        classification(config, port) == ProviderState::AlreadySatisfied ==> exists|i: int|
            0 <= i < config.tcp@.len() && (#[trigger] config.tcp@[i]).0@ == decimal(port as nat)
                && forwards_locally(config.tcp@[i].1, port),
        (forall|i: int|
            0 <= i < config.tcp@.len() && (#[trigger] config.tcp@[i]).0@ == decimal(port as nat)
                ==> !forwards_locally(config.tcp@[i].1, port)) && (exists|i: int|
            0 <= i < config.tcp@.len() && (#[trigger] config.tcp@[i]).0@ == decimal(port as nat))
            ==> classification(config, port) == ProviderState::Conflict || classification(
            config,
            port,
        ) == ProviderState::Indeterminate,
        classification(config, port) == ProviderState::Absent ==> forall|i: int|
            0 <= i < config.tcp@.len() ==> (#[trigger] config.tcp@[i]).0@ != decimal(port as nat),
{
    handlers_are_found_by_port(config.tcp@, port);
    assert forall|handler: TcpPortHandler| #[trigger] is_desired_handler(handler, port)
        == forwards_locally(handler, port) by {
        if handler.terminate_tls@.len() == 0 {
            assert(handler.terminate_tls@ =~= Seq::<char>::empty());
        }
    }
}

/// Where every key can be read and nothing but a handler has the port, the slot is satisfied
/// or in conflict exactly as its handler forwards locally or not. A web host, an enabled
/// Funnel or a foreground session at the port makes it a conflict whatever its handler does.
pub proof fn slots_are_classified_by_what_holds_them(config: ServeConfig, port: u16)
    requires
        tcp_handler(config.tcp@, port) is Ok,
        web_holds(config.web@, port) is Ok,
        funnel_holds(config.allow_funnel@, port) is Ok,
        foreground_holds(config.foreground@, port) is Ok,
    ensures
        classification(config, port) == if web_holds(config.web@, port) == Ok::<bool, ()>(true)
            || funnel_holds(config.allow_funnel@, port) == Ok::<bool, ()>(true)
            || foreground_holds(config.foreground@, port) == Ok::<bool, ()>(true) {
            ProviderState::Conflict
        } else {
            match tcp_handler(config.tcp@, port)->Ok_0 {
                None => ProviderState::Absent,
                Some(handler) => if forwards_locally(handler, port) {
                    ProviderState::AlreadySatisfied
                } else {
                    ProviderState::Conflict
                },
            }
        },
{
    if let Some(handler) = tcp_handler(config.tcp@, port)->Ok_0 {
        if handler.terminate_tls@.len() == 0 {
            assert(handler.terminate_tls@ =~= Seq::<char>::empty());
        }
    }
}

/// A slot is indeterminate exactly when something of the configuration cannot be read.
pub proof fn unreadable_parts_are_indeterminate(config: ServeConfig, port: u16)
    ensures
        classification(config, port) == ProviderState::Indeterminate <==> {
            ||| tcp_handler(config.tcp@, port) is Err
            ||| web_holds(config.web@, port) is Err
            ||| funnel_holds(config.allow_funnel@, port) is Err
            ||| foreground_holds(config.foreground@, port) is Err
        },
{
}

/// Two handlers that differ in their target alone are not both satisfied.
pub proof fn one_target_satisfies_a_slot(left: ServeConfig, right: ServeConfig, port: u16)
    requires
        classification(left, port) == ProviderState::AlreadySatisfied,
        classification(right, port) == ProviderState::AlreadySatisfied,
    ensures
        ({
            let one = tcp_handler(left.tcp@, port)->Ok_0->0;
            let other = tcp_handler(right.tcp@, port)->Ok_0->0;
            one.tcp_forward@ == other.tcp_forward@ && one.tcp_forward@ == "127.0.0.1:"@ + decimal(
                port as nat,
            )
        }),
{
}

/// What an output says of a slot: nothing when it is not JSON, that it is indeterminate when
/// it does not decode, that it is absent when it is null, and otherwise how its configuration
/// classifies it. A query that failed says nothing.
pub proof fn outputs_describe_slots(
    stdout: Vec<u8>,
    decoded: Option<Option<ServeConfig>>,
    config: ServeConfig,
    port: u16,
)
    ensures
        observation(ServeReply::Failed, port) == Err::<ProviderState, Failure>(
            Failure::ServeStatusFailed,
        ),
        inspection(ServeReply::Failed, port) == Err::<ProviderState, Failure>(
            Failure::ServeStatusFailed,
        ),
        !json_document(stdout@) ==> observation(
            (ServeReply::Answered { stdout, config: decoded }),
            port,
        ) == Err::<ProviderState, Failure>(Failure::ServeStatusFailed) && inspection(
            (ServeReply::Answered { stdout, config: decoded }),
            port,
        ) == Ok::<ProviderState, Failure>(ProviderState::Indeterminate),
        json_document(stdout@) ==> {
            &&& observation((ServeReply::Answered { stdout, config: None }), port) == Ok::<
                ProviderState,
                Failure,
            >(ProviderState::Indeterminate)
            &&& observation((ServeReply::Answered { stdout, config: Some(None) }), port) == Ok::<
                ProviderState,
                Failure,
            >(ProviderState::Absent)
            &&& observation((ServeReply::Answered { stdout, config: Some(Some(config)) }), port)
                == Ok::<ProviderState, Failure>(classification(config, port))
            &&& inspection((ServeReply::Answered { stdout, config: decoded }), port)
                == observation((ServeReply::Answered { stdout, config: decoded }), port)
        },
{
}

/// Several slots are observed each at its own port, and in the order of the ports. They fail
/// together, when the snapshot itself says nothing.
pub proof fn slots_are_observed_at_their_ports(reply: ServeReply, ports: Seq<u16>)
    ensures
        match observations(reply, ports) {
            Ok(states) => states.len() == ports.len() && forall|i: int|
                0 <= i < ports.len() ==> observation(reply, #[trigger] ports[i]) == Ok::<
                    ProviderState,
                    Failure,
                >(states[i]),
            Err(failure) => failure == Failure::ServeStatusFailed && forall|port: u16|
                (#[trigger] observation(reply, port)) is Err,
        },
{
    if observations(reply, ports) is Err && !(reply is Failed) {
        let i = choose|i: int| 0 <= i < ports.len() && observation(reply, #[trigger] ports[i]) is Err;
        assert(observation(reply, ports[i]) is Err);
    }
}

/// What is asked of the client and of Serve, and the command that creates a mapping: the
/// node's port and the local one are both the port of the mapping.
pub proof fn commands_are_written_out(port: u16)
    ensures
        client_arguments() == seq!["status"@, "--json"@],
        serve_arguments() == seq!["serve"@, "status"@, "--json"@],
        mapping_arguments(port).len() == 4,
        mapping_arguments(port)[0] == "serve"@,
        mapping_arguments(port)[1] == "--bg"@,
        mapping_arguments(port)[2] == "--tcp="@ + decimal(port as nat),
        mapping_arguments(port)[3] == "tcp://127.0.0.1:"@ + decimal(port as nat),
        host_port(mapping_arguments(port)[3]) == Some(port),
        numeral(mapping_arguments(port)[2].skip("--tcp="@.len() as int), 65535) == Some(port as u32),
{
    reveal_strlit("--tcp=");
    reveal_strlit("tcp://127.0.0.1:");
    let target = mapping_arguments(port)[3];
    let host = "tcp://127.0.0.1"@;
    reveal_strlit("tcp://127.0.0.1");
    assert(target =~= host.push(':') + decimal(port as nat));
    host_port_reads_back(target, port);
    assert(mapping_arguments(port)[2].skip("--tcp="@.len() as int) =~= decimal(port as nat));
    numeral_reads_back(decimal(port as nat), port as u32, 65535);
}

/// Ensuring a mapping asks the client first, then the backend on the port of the mapping,
/// then Serve, and creates the mapping of that port, with these very arguments.
pub proof fn ensuring_asks_for_its_port(facts: EnsureFacts, port: u16)
    ensures
        match ensure_step(facts, port) {
            Next::Act(EnsureActionModel::QueryClient(arguments)) => arguments == seq![
                "status"@,
                "--json"@,
            ],
            Next::Act(EnsureActionModel::Connect(local)) => local == port,
            Next::Act(EnsureActionModel::QueryServe(arguments)) => arguments == seq![
                "serve"@,
                "status"@,
                "--json"@,
            ],
            Next::Act(EnsureActionModel::CreateMapping(arguments)) => arguments == seq![
                "serve"@,
                "--bg"@,
                "--tcp="@ + decimal(port as nat),
                "tcp://127.0.0.1:"@ + decimal(port as nat),
            ],
            Next::Act(EnsureActionModel::QueryServeAgain(arguments)) => arguments == seq![
                "serve"@,
                "status"@,
                "--json"@,
            ],
            Next::Done(_) => true,
        },
        facts.client is None ==> ensure_step(facts, port) matches Next::Act(
            EnsureActionModel::QueryClient(_),
        ),
        (facts.client matches Some(reply) && node_endpoint(reply, port) is Ok)
            && facts.reachable is None ==> ensure_step(facts, port) matches Next::Act(
            EnsureActionModel::Connect(_),
        ),
        (facts.client matches Some(reply) && node_endpoint(reply, port) is Ok) && facts.reachable
            == Some(true) && facts.before is None ==> ensure_step(facts, port) matches Next::Act(
            EnsureActionModel::QueryServe(_),
        ),
{
}

/// A client without an endpoint, a backend that is not reached, and a Serve state that cannot
/// be queried each end the operation with their own failure, before anything is changed.
pub proof fn preconditions_fail_as_themselves(facts: EnsureFacts, port: u16, failure: Failure)
    ensures
        (facts.client matches Some(reply) && node_endpoint(reply, port) == Err::<
            Seq<char>,
            Failure,
        >(failure)) ==> ensure_step(facts, port) == EnsureStep::Done(Err(failure)),
        (facts.client matches Some(reply) && node_endpoint(reply, port) is Ok) && facts.reachable
            == Some(false) ==> ensure_step(facts, port) == EnsureStep::Done(
            Err(Failure::BackendUnreachable(port)),
        ),
        (facts.client matches Some(reply) && node_endpoint(reply, port) is Ok) && facts.reachable
            == Some(true) && facts.before == Some(ServeReply::Failed) ==> ensure_step(facts, port)
            == EnsureStep::Done(Err(Failure::ServeStatusFailed)),
{
}

/// After the command that creates a mapping, the slot is looked at again. When the command
/// succeeded, only a satisfied slot is a success; when it failed, the failure says in which
/// state the slot was found.
pub proof fn changes_are_judged_by_the_slot(
    facts: EnsureFacts,
    port: u16,
    endpoint: Seq<char>,
    reply: ServeReply,
)
    requires
        facts.client matches Some(reply) && node_endpoint(reply, port) == Ok::<Seq<char>, Failure>(
            endpoint,
        ),
        facts.reachable == Some(true),
        facts.before matches Some(reply) && inspection(reply, port) == Ok::<ProviderState, Failure>(
            ProviderState::Absent,
        ),
        facts.mutation is Some,
    ensures
        facts.after is None ==> ensure_step(facts, port) matches Next::Act(
            EnsureActionModel::QueryServeAgain(_),
        ),
        facts.after == Some(reply) && facts.mutation == Some(true) ==> ensure_step(facts, port)
            == EnsureStep::Done(
            if inspection(reply, port) == Ok::<ProviderState, Failure>(
                ProviderState::AlreadySatisfied,
            ) {
                Ok(EnsureModel::Created { endpoint })
            } else {
                Err(Failure::PostConditionUnmet)
            },
        ),
        facts.after == Some(reply) && facts.mutation == Some(false) ==> ensure_step(facts, port)
            == EnsureStep::Done(
            Err(
                match inspection(reply, port) {
                    Ok(ProviderState::Absent) => Failure::MutationLeftAbsent,
                    Ok(ProviderState::AlreadySatisfied) => Failure::MutationUncertain,
                    Ok(ProviderState::Conflict) => Failure::MutationLeftConflict,
                    _ => Failure::MutationLeftUnknown,
                },
            ),
        ),
{
}

/// What is reported of a mapping names the service, the publisher and the endpoint, and says
/// whether the mapping was made or was there already.
pub proof fn lines_tell_what_was_ensured(service: Seq<char>, endpoint: Seq<char>)
    ensures
        ensured_line(service, EnsureModel::Created { endpoint }) == "Published "@ + service
            + " via tailscale-serve-tcp at "@ + endpoint,
        ensured_line(service, EnsureModel::AlreadySatisfied { endpoint })
            == "Publication already satisfied for "@ + service + " via tailscale-serve-tcp at "@
            + endpoint,
{
    reveal_strlit(" via ");
    reveal_strlit("tailscale-serve-tcp");
    reveal_strlit(" at ");
    reveal_strlit(" via tailscale-serve-tcp at ");
    assert(" via "@ + "tailscale-serve-tcp"@ + " at "@ =~= " via tailscale-serve-tcp at "@);
    assert(ensured_line(service, EnsureModel::Created { endpoint }) =~= "Published "@ + service + (
    " via "@ + "tailscale-serve-tcp"@ + " at "@) + endpoint);
    assert(ensured_line(service, EnsureModel::AlreadySatisfied { endpoint })
        =~= "Publication already satisfied for "@ + service + (" via "@ + "tailscale-serve-tcp"@
        + " at "@) + endpoint);
}

/// Publishing asks for what ensuring asks for and fails as it fails, and a success is
/// reported with its line.
pub proof fn publishing_reports_what_was_ensured(
    service: Seq<char>,
    port: u16,
    facts: EnsureFacts,
    outcome: EnsureModel,
)
    ensures
        ensure_step(facts, port) == EnsureStep::Done(Ok(outcome)) ==> serve_publication_step(
            service,
            port,
            facts,
        ) == Next::<EnsureActionModel, Result<Seq<char>, Failure>>::Done(
            Ok(ensured_line(service, outcome)),
        ),
        match serve_publication_step(service, port, facts) {
            Next::Act(action) => ensure_step(facts, port) == EnsureStep::Act(action),
            Next::Done(Err(failure)) => ensure_step(facts, port) == EnsureStep::Done(Err(failure)),
            Next::Done(Ok(_)) => ensure_step(facts, port) matches Next::Done(Ok(_)),
        },
{
}

/// The model of what is decided is what is asked for, with its arguments, or the result with
/// its texts.
pub proof fn mappings_are_shown_as_they_are(
    arguments: Vec<String>,
    port: u16,
    action: EnsureAction,
    endpoint: String,
    line: String,
    failure: Failure,
)
    ensures
        EnsureAction::QueryClient(arguments)@ == EnsureActionModel::QueryClient(
            arguments.deep_view(),
        ),
        EnsureAction::Connect(port)@ == EnsureActionModel::Connect(port),
        EnsureAction::QueryServe(arguments)@ == EnsureActionModel::QueryServe(
            arguments.deep_view(),
        ),
        EnsureAction::CreateMapping(arguments)@ == EnsureActionModel::CreateMapping(
            arguments.deep_view(),
        ),
        EnsureAction::QueryServeAgain(arguments)@ == EnsureActionModel::QueryServeAgain(
            arguments.deep_view(),
        ),
        ensure_model(Next::Act(action)) == EnsureStep::Act(action@),
        ensure_model(Next::Done(Err(failure))) == EnsureStep::Done(Err(failure)),
        ensure_model(Next::Done(Ok(EnsureOutcome::Created { endpoint }))) == EnsureStep::Done(
            Ok(EnsureModel::Created { endpoint: endpoint@ }),
        ),
        ensure_model(Next::Done(Ok(EnsureOutcome::AlreadySatisfied { endpoint })))
            == EnsureStep::Done(Ok(EnsureModel::AlreadySatisfied { endpoint: endpoint@ })),
        line_model(Next::Act(action)) == Next::<
            EnsureActionModel,
            Result<Seq<char>, Failure>,
        >::Act(action@),
        line_model(Next::Done(Ok(line))) == Next::<
            EnsureActionModel,
            Result<Seq<char>, Failure>,
        >::Done(Ok(line@)),
        line_model(Next::Done(Err(failure))) == Next::<
            EnsureActionModel,
            Result<Seq<char>, Failure>,
        >::Done(Err(failure)),
{
}

/// A slot that is held by something else or cannot be classified is refused, whatever else is
/// known, and nothing is changed for it.
pub proof fn unusable_slots_are_refused(facts: EnsureFacts, port: u16)
    requires
        facts.client matches Some(reply) && node_endpoint(reply, port) is Ok,
        facts.reachable == Some(true),
    ensures
        (facts.before matches Some(reply) && inspection(reply, port) == Ok::<
            ProviderState,
            Failure,
        >(ProviderState::Conflict)) ==> ensure_step(facts, port) == EnsureStep::Done(
            Err(Failure::ServeSlotTaken),
        ),
        (facts.before matches Some(reply) && inspection(reply, port) == Ok::<
            ProviderState,
            Failure,
        >(ProviderState::Indeterminate)) ==> ensure_step(facts, port) == EnsureStep::Done(
            Err(Failure::ServeStateUnknown),
        ),
        (facts.before matches Some(reply) && inspection(reply, port) == Ok::<
            ProviderState,
            Failure,
        >(ProviderState::Absent)) && facts.mutation is None ==> ensure_step(facts, port)
            matches Next::Act(EnsureActionModel::CreateMapping(_)),
{
}

/// A slot is observed as satisfied only when the output is JSON and its configuration has,
/// under the number of the port, a handler that forwards plain connections to the same port of
/// the local machine.
pub proof fn satisfied_observations_forward_locally(reply: ServeReply, port: u16)
    requires
        observation(reply, port) == Ok::<ProviderState, Failure>(ProviderState::AlreadySatisfied)
            || inspection(reply, port) == Ok::<ProviderState, Failure>(
            ProviderState::AlreadySatisfied,
        ),
    ensures
        reply matches ServeReply::Answered { stdout, config: Some(Some(config)) } && json_document(
            stdout@,
        ) && exists|i: int|
            0 <= i < config.tcp@.len() && (#[trigger] config.tcp@[i]).0@ == decimal(port as nat)
                && config.tcp@[i].1.tcp_forward@ == "127.0.0.1:"@ + decimal(port as nat)
                && !config.tcp@[i].1.http && !config.tcp@[i].1.https
                && config.tcp@[i].1.terminate_tls@.len() == 0 && config.tcp@[i].1.proxy_protocol
                == 0,
{
    let config = reply->config->0->0;
    satisfied_slots_forward_locally(config, port);
    let i = choose|i: int|
        0 <= i < config.tcp@.len() && (#[trigger] config.tcp@[i]).0@ == decimal(port as nat)
            && forwards_locally(config.tcp@[i].1, port);
    assert(config.tcp@[i].1.terminate_tls@.len() == 0);
}

} // verus!
