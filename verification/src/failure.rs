//! The failures that commands report, and how their messages are shown.

use crate::text::{decimal, decimal_text, same_text, starts_with};
use vstd::prelude::*;

verus! {

/// A failure that a command reports.
#[derive(Clone, Copy, PartialEq, Eq, Structural, Debug)]
pub enum Failure {
    /// The service declaration could not be read.
    DeclarationUnreadable,
    /// The service declaration is not UTF-8.
    DeclarationNotUtf8,
    /// The service declaration is not well formed or not valid.
    InvalidDeclaration,
    /// The publishing intent could not be read.
    PublishingUnreadable,
    /// The publishing intent is not UTF-8.
    PublishingNotUtf8,
    /// The publishing intent is not well formed or not valid.
    InvalidPublishing,
    /// The selected service is not declared.
    ServiceNotDeclared,
    /// The selected publication is not desired.
    PublicationNotDesired,
    /// The selected publisher has no operation.
    PublisherUnsupported,
    /// Some desired publisher has no operation.
    DesiredPublisherUnsupported,
    /// Two desired Serve publications share a port.
    ServeSlotsConflict,
    /// Nothing accepts connections on the local port.
    BackendUnreachable(u16),
    /// There is no `tailscale` executable.
    TailscaleMissing,
    /// The Tailscale client is not running or not online.
    ClientDown,
    /// The Tailscale client state cannot be read.
    ClientStateUnknown,
    /// The node has no usable DNS name.
    EndpointUnavailable,
    /// The Serve state could not be observed.
    ServeStatusFailed,
    /// The Serve state cannot be classified.
    ServeStateUnknown,
    /// The Serve slot holds something else.
    ServeSlotTaken,
    /// The created mapping is not observed.
    PostConditionUnmet,
    /// Creation failed and the slot is still absent.
    MutationLeftAbsent,
    /// Creation failed though the mapping is present.
    MutationUncertain,
    /// Creation failed and the slot is in conflict.
    MutationLeftConflict,
    /// Creation failed and the slot cannot be classified.
    MutationLeftUnknown,
    /// The OpenSSH configuration could not be read.
    ConfigurationUnreadable,
    /// The OpenSSH configuration is not UTF-8.
    ConfigurationNotUtf8,
    /// The OpenSSH configuration is not well formed or not valid.
    InvalidConfiguration,
    /// A desired OpenSSH publication is not configured.
    ConfigurationUnresolved,
    /// Two desired OpenSSH publications share a remote slot.
    RemoteSlotsConflict,
    /// The runtime directory is not private.
    RuntimeDirectoryUnsafe,
    /// There is no `ssh` executable.
    SshMissing,
    /// No safe control path was resolved.
    ControlPathUnresolved,
    /// The control socket is stale or not private.
    ControlSocketUnsafe,
    /// No control master came up.
    MasterNotEstablished,
    /// An incomplete control master could not be ended.
    MasterNotCleanedUp,
    /// The forwarding request was not acknowledged.
    ForwardNotAcknowledged,
}

/// The message of a failure.
pub open spec fn message(failure: Failure) -> Seq<char> {
    match failure {
        Failure::DeclarationUnreadable => "error: failed to read aequimuta.toml"@,
        Failure::DeclarationNotUtf8 => "error: aequimuta.toml is not valid UTF-8"@,
        Failure::InvalidDeclaration => "error: aequimuta.toml is not a valid declaration"@,
        Failure::PublishingUnreadable => "error: failed to read aequimuta.publish.toml"@,
        Failure::PublishingNotUtf8 => "error: aequimuta.publish.toml is not valid UTF-8"@,
        Failure::InvalidPublishing => {
            "error: aequimuta.publish.toml is not a valid publishing intent"@
        },
        Failure::ServiceNotDeclared => "error: selected service does not exist"@,
        Failure::PublicationNotDesired => "error: selected publication is not in desired state"@,
        Failure::PublisherUnsupported => "error: selected publisher is not supported"@,
        Failure::DesiredPublisherUnsupported => "error: desired publisher is not supported"@,
        Failure::ServeSlotsConflict => "error: desired Tailscale Serve TCP publications conflict"@,
        Failure::BackendUnreachable(port) => {
            "error: local TCP backend 127.0.0.1:"@ + decimal(port as nat) + " is not reachable"@
        },
        Failure::TailscaleMissing => "error: tailscale executable is not available"@,
        Failure::ClientDown => "error: Tailscale daemon or client is not operational"@,
        Failure::ClientStateUnknown => "error: Tailscale client state is indeterminate"@,
        Failure::EndpointUnavailable => "error: current Tailscale node DNS name is unavailable"@,
        Failure::ServeStatusFailed => "error: failed to inspect Tailscale Serve state"@,
        Failure::ServeStateUnknown => "error: Tailscale Serve state is indeterminate"@,
        Failure::ServeSlotTaken => {
            "error: selected Tailscale Serve TCP port conflicts with existing state"@
        },
        Failure::PostConditionUnmet => {
            "error: Tailscale Serve TCP post-condition was not satisfied"@
        },
        Failure::MutationLeftAbsent => {
            "error: Tailscale Serve mutation failed and the target remains absent"@
        },
        Failure::MutationUncertain => {
            "error: Tailscale Serve mutation failed; the desired mapping is present but operation completion is uncertain"@
        },
        Failure::MutationLeftConflict => {
            "error: Tailscale Serve mutation failed and the target is in conflict"@
        },
        Failure::MutationLeftUnknown => {
            "error: Tailscale Serve mutation failed and the resulting state is indeterminate"@
        },
        Failure::ConfigurationUnreadable => {
            "error: failed to read aequimuta.openssh-reverse-tcp.toml"@
        },
        Failure::ConfigurationNotUtf8 => {
            "error: aequimuta.openssh-reverse-tcp.toml is not valid UTF-8"@
        },
        Failure::InvalidConfiguration => {
            "error: aequimuta.openssh-reverse-tcp.toml is not a valid OpenSSH reverse TCP configuration"@
        },
        Failure::ConfigurationUnresolved => {
            "error: desired OpenSSH reverse TCP publication has no provider configuration"@
        },
        Failure::RemoteSlotsConflict => "error: desired OpenSSH reverse TCP publications conflict"@,
        Failure::RuntimeDirectoryUnsafe => {
            "error: XDG_RUNTIME_DIR is not safe for OpenSSH reverse TCP control state"@
        },
        Failure::SshMissing => "error: ssh executable is not available"@,
        Failure::ControlPathUnresolved => "error: failed to resolve a safe OpenSSH control path"@,
        Failure::ControlSocketUnsafe => "error: OpenSSH control socket state is stale or unsafe"@,
        Failure::MasterNotEstablished => "error: failed to establish the OpenSSH ControlMaster"@,
        Failure::MasterNotCleanedUp => {
            "error: failed to clean up an incomplete OpenSSH ControlMaster"@
        },
        Failure::ForwardNotAcknowledged => {
            "error: OpenSSH remote forwarding request was not acknowledged"@
        },
    }
}

impl Failure {
    /// The message of the failure, one line that begins with `error: `.
    pub fn message(&self) -> (text: String)
        ensures
            text@ == message(*self),
            starts_with(text@, "error: "@),
    {
        proof {
            message_is_an_error(*self);
        }
        match self {
            Failure::DeclarationUnreadable => "error: failed to read aequimuta.toml".to_owned(),
            Failure::DeclarationNotUtf8 => "error: aequimuta.toml is not valid UTF-8".to_owned(),
            Failure::InvalidDeclaration => {
                "error: aequimuta.toml is not a valid declaration"
                    .to_owned()
            },
            Failure::PublishingUnreadable => {
                "error: failed to read aequimuta.publish.toml"
                    .to_owned()
            },
            Failure::PublishingNotUtf8 => {
                "error: aequimuta.publish.toml is not valid UTF-8"
                    .to_owned()
            },
            Failure::InvalidPublishing => {
                "error: aequimuta.publish.toml is not a valid publishing intent"
                    .to_owned()
            },
            Failure::ServiceNotDeclared => "error: selected service does not exist".to_owned(),
            Failure::PublicationNotDesired => {
                "error: selected publication is not in desired state"
                    .to_owned()
            },
            Failure::PublisherUnsupported => {
                "error: selected publisher is not supported"
                    .to_owned()
            },
            Failure::DesiredPublisherUnsupported => {
                "error: desired publisher is not supported"
                    .to_owned()
            },
            Failure::ServeSlotsConflict => {
                "error: desired Tailscale Serve TCP publications conflict"
                    .to_owned()
            },
            Failure::BackendUnreachable(port) => {
                let mut text = "error: local TCP backend 127.0.0.1:".to_owned();
                text.append(decimal_text(*port as u64).as_str());
                text.append(" is not reachable");
                text
            },
            Failure::TailscaleMissing => "error: tailscale executable is not available".to_owned(),
            Failure::ClientDown => {
                "error: Tailscale daemon or client is not operational"
                    .to_owned()
            },
            Failure::ClientStateUnknown => {
                "error: Tailscale client state is indeterminate"
                    .to_owned()
            },
            Failure::EndpointUnavailable => {
                "error: current Tailscale node DNS name is unavailable"
                    .to_owned()
            },
            Failure::ServeStatusFailed => {
                "error: failed to inspect Tailscale Serve state"
                    .to_owned()
            },
            Failure::ServeStateUnknown => {
                "error: Tailscale Serve state is indeterminate"
                    .to_owned()
            },
            Failure::ServeSlotTaken => {
                "error: selected Tailscale Serve TCP port conflicts with existing state"
                    .to_owned()
            },
            Failure::PostConditionUnmet => {
                "error: Tailscale Serve TCP post-condition was not satisfied"
                    .to_owned()
            },
            Failure::MutationLeftAbsent => {
                "error: Tailscale Serve mutation failed and the target remains absent"
                    .to_owned()
            },
            Failure::MutationUncertain => {
                "error: Tailscale Serve mutation failed; the desired mapping is present but operation completion is uncertain"
                    .to_owned()
            },
            Failure::MutationLeftConflict => {
                "error: Tailscale Serve mutation failed and the target is in conflict"
                    .to_owned()
            },
            Failure::MutationLeftUnknown => {
                "error: Tailscale Serve mutation failed and the resulting state is indeterminate"
                    .to_owned()
            },
            Failure::ConfigurationUnreadable => {
                "error: failed to read aequimuta.openssh-reverse-tcp.toml"
                    .to_owned()
            },
            Failure::ConfigurationNotUtf8 => {
                "error: aequimuta.openssh-reverse-tcp.toml is not valid UTF-8"
                    .to_owned()
            },
            Failure::InvalidConfiguration => {
                "error: aequimuta.openssh-reverse-tcp.toml is not a valid OpenSSH reverse TCP configuration"
                    .to_owned()
            },
            Failure::ConfigurationUnresolved => {
                "error: desired OpenSSH reverse TCP publication has no provider configuration"
                    .to_owned()
            },
            Failure::RemoteSlotsConflict => {
                "error: desired OpenSSH reverse TCP publications conflict"
                    .to_owned()
            },
            Failure::RuntimeDirectoryUnsafe => {
                "error: XDG_RUNTIME_DIR is not safe for OpenSSH reverse TCP control state"
                    .to_owned()
            },
            Failure::SshMissing => "error: ssh executable is not available".to_owned(),
            Failure::ControlPathUnresolved => {
                "error: failed to resolve a safe OpenSSH control path"
                    .to_owned()
            },
            Failure::ControlSocketUnsafe => {
                "error: OpenSSH control socket state is stale or unsafe"
                    .to_owned()
            },
            Failure::MasterNotEstablished => {
                "error: failed to establish the OpenSSH ControlMaster"
                    .to_owned()
            },
            Failure::MasterNotCleanedUp => {
                "error: failed to clean up an incomplete OpenSSH ControlMaster"
                    .to_owned()
            },
            Failure::ForwardNotAcknowledged => {
                "error: OpenSSH remote forwarding request was not acknowledged"
                    .to_owned()
            },
        }
    }
}

/// Every message begins with `error: `.
pub proof fn message_is_an_error(failure: Failure)
    ensures
        starts_with(message(failure), "error: "@),
{
    reveal_strlit("error: ");
    match failure {
        Failure::DeclarationUnreadable => {
            reveal_strlit("error: failed to read aequimuta.toml");
        },
        Failure::DeclarationNotUtf8 => {
            reveal_strlit("error: aequimuta.toml is not valid UTF-8");
        },
        Failure::InvalidDeclaration => {
            reveal_strlit("error: aequimuta.toml is not a valid declaration");
        },
        Failure::PublishingUnreadable => {
            reveal_strlit("error: failed to read aequimuta.publish.toml");
        },
        Failure::PublishingNotUtf8 => {
            reveal_strlit("error: aequimuta.publish.toml is not valid UTF-8");
        },
        Failure::InvalidPublishing => {
            reveal_strlit("error: aequimuta.publish.toml is not a valid publishing intent");
        },
        Failure::ServiceNotDeclared => {
            reveal_strlit("error: selected service does not exist");
        },
        Failure::PublicationNotDesired => {
            reveal_strlit("error: selected publication is not in desired state");
        },
        Failure::PublisherUnsupported => {
            reveal_strlit("error: selected publisher is not supported");
        },
        Failure::DesiredPublisherUnsupported => {
            reveal_strlit("error: desired publisher is not supported");
        },
        Failure::ServeSlotsConflict => {
            reveal_strlit("error: desired Tailscale Serve TCP publications conflict");
        },
        Failure::BackendUnreachable(port) => {
            reveal_strlit("error: local TCP backend 127.0.0.1:");
        },
        Failure::TailscaleMissing => {
            reveal_strlit("error: tailscale executable is not available");
        },
        Failure::ClientDown => {
            reveal_strlit("error: Tailscale daemon or client is not operational");
        },
        Failure::ClientStateUnknown => {
            reveal_strlit("error: Tailscale client state is indeterminate");
        },
        Failure::EndpointUnavailable => {
            reveal_strlit("error: current Tailscale node DNS name is unavailable");
        },
        Failure::ServeStatusFailed => {
            reveal_strlit("error: failed to inspect Tailscale Serve state");
        },
        Failure::ServeStateUnknown => {
            reveal_strlit("error: Tailscale Serve state is indeterminate");
        },
        Failure::ServeSlotTaken => {
            reveal_strlit("error: selected Tailscale Serve TCP port conflicts with existing state");
        },
        Failure::PostConditionUnmet => {
            reveal_strlit("error: Tailscale Serve TCP post-condition was not satisfied");
        },
        Failure::MutationLeftAbsent => {
            reveal_strlit("error: Tailscale Serve mutation failed and the target remains absent");
        },
        Failure::MutationUncertain => {
            reveal_strlit(
                "error: Tailscale Serve mutation failed; the desired mapping is present but operation completion is uncertain",
            );
        },
        Failure::MutationLeftConflict => {
            reveal_strlit("error: Tailscale Serve mutation failed and the target is in conflict");
        },
        Failure::MutationLeftUnknown => {
            reveal_strlit(
                "error: Tailscale Serve mutation failed and the resulting state is indeterminate",
            );
        },
        Failure::ConfigurationUnreadable => {
            reveal_strlit("error: failed to read aequimuta.openssh-reverse-tcp.toml");
        },
        Failure::ConfigurationNotUtf8 => {
            reveal_strlit("error: aequimuta.openssh-reverse-tcp.toml is not valid UTF-8");
        },
        Failure::InvalidConfiguration => {
            reveal_strlit(
                "error: aequimuta.openssh-reverse-tcp.toml is not a valid OpenSSH reverse TCP configuration",
            );
        },
        Failure::ConfigurationUnresolved => {
            reveal_strlit(
                "error: desired OpenSSH reverse TCP publication has no provider configuration",
            );
        },
        Failure::RemoteSlotsConflict => {
            reveal_strlit("error: desired OpenSSH reverse TCP publications conflict");
        },
        Failure::RuntimeDirectoryUnsafe => {
            reveal_strlit(
                "error: XDG_RUNTIME_DIR is not safe for OpenSSH reverse TCP control state",
            );
        },
        Failure::SshMissing => {
            reveal_strlit("error: ssh executable is not available");
        },
        Failure::ControlPathUnresolved => {
            reveal_strlit("error: failed to resolve a safe OpenSSH control path");
        },
        Failure::ControlSocketUnsafe => {
            reveal_strlit("error: OpenSSH control socket state is stale or unsafe");
        },
        Failure::MasterNotEstablished => {
            reveal_strlit("error: failed to establish the OpenSSH ControlMaster");
        },
        Failure::MasterNotCleanedUp => {
            reveal_strlit("error: failed to clean up an incomplete OpenSSH ControlMaster");
        },
        Failure::ForwardNotAcknowledged => {
            reveal_strlit("error: OpenSSH remote forwarding request was not acknowledged");
        },
    }
    assert(message(failure).take(7) =~= "error: "@);
}

/// A message without its leading `error: `.
pub open spec fn detail(error: Seq<char>) -> Seq<char> {
    if starts_with(error, "error: "@) {
        error.skip("error: "@.len() as int)
    } else {
        error
    }
}

/// The detail of a message, without its leading `error: `.
pub fn diagnostic_error_detail(error: &str) -> (shown: &str)
    ensures
        shown@ == detail(error@),
{
    proof {
        reveal_strlit("error: ");
    }
    let length: usize = error.unicode_len();
    if length >= 7 && same_text(error.substring_char(0, 7), "error: ") {
        error.substring_char(7, length)
    } else {
        assert(starts_with(error@, "error: "@) ==> error@.take(7) =~= error@.subrange(0, 7));
        error
    }
}

/// A failure's message is `error: ` followed by its detail.
pub proof fn message_is_prefix_and_detail(failure: Failure)
    ensures
        message(failure) == "error: "@ + detail(message(failure)),
{
    message_is_an_error(failure);
    assert(message(failure) =~= "error: "@ + message(failure).skip("error: "@.len() as int));
}

/// What `apply` reports when a publication fails.
pub open spec fn apply_error(
    service: Seq<char>,
    publisher: Seq<char>,
    error: Seq<char>,
    successful_publications: nat,
) -> Seq<char> {
    "error: apply failed for "@ + service + " via "@ + publisher + ": "@ + detail(error) + (
    if successful_publications == 0 {
        ""@
    } else {
        "; earlier successful publications were not rolled back"@
    })
}

/// The report of a failed publication, with the earlier successes it leaves in place.
pub fn contextual_apply_error(
    service: &str,
    publisher: &str,
    error: &str,
    successful_publications: usize,
) -> (text: String)
    ensures
        text@ == apply_error(service@, publisher@, error@, successful_publications as nat),
{
    let rollback_context = if successful_publications == 0 {
        ""
    } else {
        "; earlier successful publications were not rolled back"
    };
    let mut text = "error: apply failed for ".to_owned();
    text.append(service);
    text.append(" via ");
    text.append(publisher);
    text.append(": ");
    text.append(diagnostic_error_detail(error));
    text.append(rollback_context);
    text
}

/// The report of a failed publication begins with `error: `.
pub proof fn apply_error_is_an_error(
    service: Seq<char>,
    publisher: Seq<char>,
    error: Seq<char>,
    successful_publications: nat,
)
    ensures
        starts_with(apply_error(service, publisher, error, successful_publications), "error: "@),
{
    reveal_strlit("error: ");
    reveal_strlit("error: apply failed for ");
    assert(apply_error(service, publisher, error, successful_publications).take(7)
        =~= "error: "@);
}

/// The detail of a text is what stands behind a leading `error: `, and a text without it is
/// its own detail.
pub proof fn details_drop_the_prefix(text: Seq<char>)
    ensures
        detail("error: "@ + text) == text,
        !starts_with(text, "error: "@) ==> detail(text) == text,
{
    let whole = "error: "@ + text;
    assert(whole.take("error: "@.len() as int) =~= "error: "@);
    assert(whole.skip("error: "@.len() as int) =~= text);
}

/// The message on an unreachable backend names its port, and no other port.
pub proof fn unreachable_backends_are_named(port: u16, other: u16)
    ensures
        message(Failure::BackendUnreachable(port)) == "error: local TCP backend 127.0.0.1:"@
            + decimal(port as nat) + " is not reachable"@,
        message(Failure::BackendUnreachable(port)) == message(Failure::BackendUnreachable(other))
            ==> port == other,
{
    let front = "error: local TCP backend 127.0.0.1:"@;
    let back = " is not reachable"@;
    let left = message(Failure::BackendUnreachable(port));
    let right = message(Failure::BackendUnreachable(other));
    if left == right {
        let n = decimal(port as nat).len() as int;
        assert(left.len() == front.len() + n + back.len());
        assert(left.subrange(front.len() as int, front.len() + n) =~= decimal(port as nat));
        assert(right.subrange(front.len() as int, front.len() + n) =~= decimal(other as nat));
        crate::text::decimal_is_injective(port as nat, other as nat);
    }
}

/// The report of a failed publication names the service, the publisher and the detail of
/// the failure in this order, and says of earlier successes that they stay.
pub proof fn apply_errors_tell_what_failed(
    service: Seq<char>,
    publisher: Seq<char>,
    text: Seq<char>,
    successful_publications: nat,
)
    ensures
        apply_error(service, publisher, "error: "@ + text, 0) == "error: apply failed for "@
            + service + " via "@ + publisher + ": "@ + text,
        successful_publications > 0 ==> apply_error(
            service,
            publisher,
            "error: "@ + text,
            successful_publications,
        ) == apply_error(service, publisher, "error: "@ + text, 0)
            + "; earlier successful publications were not rolled back"@,
{
    reveal_strlit("");
    details_drop_the_prefix(text);
    assert(apply_error(service, publisher, "error: "@ + text, 0) =~= "error: apply failed for "@
        + service + " via "@ + publisher + ": "@ + text);
}

} // verus!
