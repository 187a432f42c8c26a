//! Status of the responder, and how its state changes are classified.
use crate::types::{EntryGroupState, ServerState};
use crate::text::{decimal, push_decimal};
use vstd::prelude::*;
use vstd::string::StringExecFns;

verus! {

/// How serious a reported state is.
#[derive(Clone, Copy, PartialEq, Eq, Structural, Debug, Hash)]
pub enum Severity {
    /// The responder or the group failed or is unusable.
    Error,
    /// A name collision, which may resolve itself.
    Warning,
    /// Normal progress.
    Info,
}

/// What the responder reports about itself.
#[derive(Debug)]
pub struct ServerStatus {
    pub host_name: String,
    pub domain_name: String,
    pub version: String,
    pub api: u32,
    pub state: ServerState,
}

/// The status as lines of text: host, domain, version, interface version
/// and state, one per line.
pub open spec fn status_lines(s: ServerStatus) -> Seq<char> {
    seq!['H', 'o', 's', 't', ':', ' '] + s.host_name@ + seq![
        '\n',
        'D',
        'o',
        'm',
        'a',
        'i',
        'n',
        ':',
        ' ',
    ] + s.domain_name@ + seq!['\n', 'V', 'e', 'r', 's', 'i', 'o', 'n', ':', ' '] + s.version@
        + seq!['\n', 'A', 'p', 'i', ':', ' '] + decimal(s.api as nat) + seq![
        '\n',
        'S',
        't',
        'a',
        't',
        'e',
        ':',
        ' ',
    ] + s.state.name_text()
}

impl ServerStatus {
    /// The status as lines of text.
    pub fn describe(&self) -> (r: String)
        ensures
            r@ == status_lines(*self),
    {
        let host = "Host: ";
        let domain = "\nDomain: ";
        let version = "\nVersion: ";
        let api = "\nApi: ";
        let state = "\nState: ";
        proof {
            reveal_strlit("Host: ");
            reveal_strlit("\nDomain: ");
            reveal_strlit("\nVersion: ");
            reveal_strlit("\nApi: ");
            reveal_strlit("\nState: ");
            assert(host@ =~= seq!['H', 'o', 's', 't', ':', ' ']);
            assert(domain@ =~= seq!['\n', 'D', 'o', 'm', 'a', 'i', 'n', ':', ' ']);
            assert(version@ =~= seq!['\n', 'V', 'e', 'r', 's', 'i', 'o', 'n', ':', ' ']);
            assert(api@ =~= seq!['\n', 'A', 'p', 'i', ':', ' ']);
            assert(state@ =~= seq!['\n', 'S', 't', 'a', 't', 'e', ':', ' ']);
        }
        let mut r = String::from_str(host);
        r.append(self.host_name.as_str());
        r.append(domain);
        r.append(self.domain_name.as_str());
        r.append(version);
        r.append(self.version.as_str());
        r.append(api);
        push_decimal(&mut r, self.api);
        r.append(state);
        r.append(self.state.name());
        r
    }
}

pub open spec fn server_severity_spec(state: ServerState) -> Severity {
    match state {
        ServerState::Failure | ServerState::Invalid => Severity::Error,
        ServerState::Collision => Severity::Warning,
        ServerState::Registering | ServerState::Running => Severity::Info,
    }
}

pub open spec fn entry_group_severity_spec(state: EntryGroupState) -> Severity {
    match state {
        EntryGroupState::Failure => Severity::Error,
        EntryGroupState::Collision => Severity::Warning,
        EntryGroupState::Established
        | EntryGroupState::Registering
        | EntryGroupState::Uncommitted => Severity::Info,
    }
}

/// The default classification of responder states.
pub fn server_severity(state: ServerState) -> (r: Severity)
    ensures
        r == server_severity_spec(state),
{
    match state {
        ServerState::Failure | ServerState::Invalid => Severity::Error,
        ServerState::Collision => Severity::Warning,
        ServerState::Registering | ServerState::Running => Severity::Info,
    }
}

/// The default classification of entry-group states.
pub fn entry_group_severity(state: EntryGroupState) -> (r: Severity)
    ensures
        r == entry_group_severity_spec(state),
{
    match state {
        EntryGroupState::Failure => Severity::Error,
        EntryGroupState::Collision => Severity::Warning,
        EntryGroupState::Established
        | EntryGroupState::Registering
        | EntryGroupState::Uncommitted => Severity::Info,
    }
}

} // verus!
