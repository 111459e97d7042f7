//! The monitored target, the outcome of one status sample, and the presence
//! text and status derived from it.
use vstd::prelude::*;
use crate::address::{address_text, host_text, DomainOrIp};
use crate::names::{lemma_sort_by_key_order_independent, lemma_sort_by_key_sorted_permutation, name_key, sort_by_key, sort_names, text_lt};
use crate::text::{decimal_string, decimal_text, join_commas, join_with_commas};

verus! {

/// The game server being monitored. Its display address is computed once,
/// when it is built.
pub struct Target {
    host: DomainOrIp,
    port: Option<u16>,
    address: String,
}

impl Target {
    pub closed spec fn host_spec(&self) -> DomainOrIp {
        self.host
    }

    pub closed spec fn port_spec(&self) -> Option<u16> {
        self.port
    }

    /// The display address: the host alone without a port, else `host:port`.
    pub open spec fn address_spec(&self) -> Seq<char> {
        address_text(host_text(self.host_spec()), self.port_spec())
    }

    #[verifier::type_invariant]
    spec fn address_matches(&self) -> bool {
        self.address@ == address_text(host_text(self.host), self.port)
    }

    /// Builds the target and its display address.
    pub fn new(host: DomainOrIp, port: Option<u16>) -> (r: Target)
        ensures
            r.host_spec() == host,
            r.port_spec() == port,
            r.address_spec() == address_text(host_text(host), port),
    {
        let mut address = host.host_string();
        match port {
            Some(p) => {
                proof {
                    reveal_strlit(":");
                }
                let ghost h = address@;
                address.append(":");
                address.append(decimal_string(p as u64).as_str());
                assert(address@ =~= h + seq![':'] + decimal_text(p as nat));
            },
            None => {},
        }
        Target { host, port, address }
    }

    /// The host, as given.
    pub fn host(&self) -> (r: &DomainOrIp)
        ensures
            *r == self.host_spec(),
    {
        &self.host
    }

    /// The port, if one is set.
    pub fn port(&self) -> (r: Option<u16>)
        ensures
            r == self.port_spec(),
    {
        self.port
    }

    /// `host` when no port is set, else `host:port`.
    pub fn display_address(&self) -> (r: &str)
        ensures
            r@ == self.address_spec(),
    {
        proof {
            use_type_invariant(self);
        }
        self.address.as_str()
    }
}

/// Why a status sample failed.
#[derive(Clone, Copy, Debug, PartialEq, Eq, Structural)]
pub enum FailureKind {
    /// The name did not resolve, or no connection could be made.
    Connect,
    /// The status exchange broke off or was rejected.
    Protocol,
    /// The server's answer could not be read.
    MalformedResponse,
}

/// The result of one status round trip against the server.
#[derive(Debug)]
pub enum SampleOutcome {
    Online { players_online: u32, players_max: u32, sample_names: Vec<String> },
    Failure { kind: FailureKind, reason: String },
}

/// Availability shown beside the presence text.
#[derive(Clone, Copy, Debug, PartialEq, Eq, Structural)]
pub enum StatusTag {
    Online,
    Unavailable,
}

/// What is published after each sample.
#[derive(Clone, Debug)]
pub struct PresenceUpdate {
    pub status: StatusTag,
    pub text: String,
}

/// The sampled names as character sequences.
pub open spec fn names_view(names: Seq<String>) -> Seq<Seq<char>> {
    names.map_values(|s: String| s@)
}

/// The status shown for an outcome.
pub open spec fn status_of(o: SampleOutcome) -> StatusTag {
    match o {
        SampleOutcome::Online { .. } => StatusTag::Online,
        SampleOutcome::Failure { .. } => StatusTag::Unavailable,
    }
}

/// The text shown when the server cannot be reached.
pub open spec fn offline_text(address: Seq<char>) -> Seq<char> {
    "offline; IP: "@ + address
}

/// The counts clause `online/max; address`.
pub open spec fn counts_text(address: Seq<char>, online: nat, max: nat) -> Seq<char> {
    decimal_text(online) + seq!['/'] + decimal_text(max) + seq![';', ' '] + address
}

/// The text shown for an online server: `online/max; address`, followed,
/// when anyone is online, by `: ` and the sampled names sorted
/// case-insensitively and joined by `,`.
pub open spec fn online_text(address: Seq<char>, online: nat, max: nat, names: Seq<Seq<char>>) -> Seq<char> {
    let counts = counts_text(address, online, max);
    if online >= 1 {
        counts + seq![':', ' '] + join_commas(sort_by_key(names))
    } else {
        counts
    }
}

/// The presence text for an outcome.
pub open spec fn presence_text(address: Seq<char>, o: SampleOutcome) -> Seq<char> {
    match o {
        SampleOutcome::Online { players_online, players_max, sample_names } => online_text(
            address,
            players_online as nat,
            players_max as nat,
            names_view(sample_names@),
        ),
        SampleOutcome::Failure { .. } => offline_text(address),
    }
}

/// The outcome of a status answer: its counts, and the sampled names, none
/// when the answer carried no sample.
pub fn outcome_from_status(players_online: u32, players_max: u32, sample: Option<Vec<String>>) -> (r: SampleOutcome)
    ensures
        r is Online,
        r->players_online == players_online,
        r->players_max == players_max,
        r->sample_names@ == match sample {
            Some(v) => v@,
            None => Seq::<String>::empty(),
        },
{
    let sample_names = match sample {
        Some(v) => v,
        None => Vec::new(),
    };
    SampleOutcome::Online { players_online, players_max, sample_names }
}

/// Maps an outcome to the status and text to publish.
pub fn format_presence(address: &str, outcome: &SampleOutcome) -> (r: PresenceUpdate)
    ensures
        r.status == status_of(*outcome),
        r.text@ == presence_text(address@, *outcome),
{
    match outcome {
        SampleOutcome::Online { players_online, players_max, sample_names } => {
            proof {
                reveal_strlit("/");
                reveal_strlit("; ");
                reveal_strlit(": ");
            }
            let mut text = decimal_string(*players_online as u64);
            text.append("/");
            text.append(decimal_string(*players_max as u64).as_str());
            text.append("; ");
            text.append(address);
            if *players_online >= 1 {
                let sorted = sort_names(sample_names);
                text.append(": ");
                text.append(join_with_commas(&sorted).as_str());
            }
            PresenceUpdate { status: StatusTag::Online, text }
        },
        SampleOutcome::Failure { .. } => {
            let mut text = String::from_str("offline; IP: ");
            text.append(address);
            PresenceUpdate { status: StatusTag::Unavailable, text }
        },
    }
}

/// With nobody online the text is the counts clause alone: no `: ` and no
/// names follow it, whatever names were sampled.
pub proof fn lemma_no_names_when_nobody_online(
    address: Seq<char>,
    players_max: u32,
    sample_names: Vec<String>,
)
    ensures
        presence_text(
            address,
            SampleOutcome::Online { players_online: 0, players_max, sample_names },
        ) == counts_text(address, 0, players_max as nat),
{
}

/// With someone online the text is the counts clause, `: `, and every
/// sampled name exactly once per occurrence, joined by `,`, in order of
/// their lower-case forms whatever the order they were sampled in.
pub proof fn lemma_names_sorted_when_online(
    address: Seq<char>,
    players_online: u32,
    players_max: u32,
    sample_names: Vec<String>,
)
    requires
        players_online >= 1,
    ensures
        ({
            let sorted = sort_by_key(names_view(sample_names@));
            &&& presence_text(
                address,
                SampleOutcome::Online { players_online, players_max, sample_names },
            ) == counts_text(address, players_online as nat, players_max as nat) + seq![':', ' ']
                + join_commas(sorted)
            &&& forall|i: int, j: int|
                0 <= i < j < sorted.len() ==> !text_lt(name_key(#[trigger] sorted[j]), name_key(#[trigger] sorted[i]))
            &&& sorted.to_multiset() == names_view(sample_names@).to_multiset()
        }),
{
    lemma_sort_by_key_sorted_permutation(names_view(sample_names@));
}

/// Where no two sampled names share a lower-case form, the text does not
/// depend on the order in which the server listed them.
pub proof fn lemma_text_independent_of_sample_order(
    address: Seq<char>,
    players_online: u32,
    players_max: u32,
    first: Vec<String>,
    second: Vec<String>,
)
    requires
        names_view(first@).to_multiset() == names_view(second@).to_multiset(),
        forall|i: int, j: int|
            0 <= i < j < first@.len() ==> name_key(#[trigger] first@[i]@) != name_key(#[trigger] first@[j]@),
    ensures
        presence_text(
            address,
            SampleOutcome::Online { players_online, players_max, sample_names: first },
        ) == presence_text(
            address,
            SampleOutcome::Online { players_online, players_max, sample_names: second },
        ),
{
    let v = names_view(first@);
    assert forall|i: int, j: int| 0 <= i < j < v.len() implies name_key(#[trigger] v[i]) != name_key(#[trigger] v[j]) by {
        assert(v[i] == first@[i]@ && v[j] == first@[j]@);
    }
    lemma_sort_by_key_order_independent(v, names_view(second@));
}

/// Whether `needle` occurs in `hay` as a contiguous run.
pub open spec fn contains_text(hay: Seq<char>, needle: Seq<char>) -> bool {
    exists|i: int| 0 <= i <= hay.len() - needle.len() && #[trigger] hay.subrange(i, i + needle.len()) == needle
}

/// A failure shows the offline text of the address alone: the reason and
/// kind of the failure never reach it, so the text holds the reason only
/// where the offline text of the address already does.
pub proof fn lemma_failure_hides_reason(address: Seq<char>, kind: FailureKind, reason: String)
    ensures
        presence_text(address, SampleOutcome::Failure { kind, reason }) == offline_text(address),
        !contains_text(offline_text(address), reason@) ==> !contains_text(
            presence_text(address, SampleOutcome::Failure { kind, reason }),
            reason@,
        ),
{
}

/// Two updates for one outcome and address carry the same status and the
/// same text.
pub proof fn lemma_format_presence_deterministic(
    address: Seq<char>,
    outcome: SampleOutcome,
    first: PresenceUpdate,
    second: PresenceUpdate,
)
    requires
        first.status == status_of(outcome),
        first.text@ == presence_text(address, outcome),
        second.status == status_of(outcome),
        second.text@ == presence_text(address, outcome),
    ensures
        first.status == second.status,
        first.text@ == second.text@,
{
}

} // verus!
