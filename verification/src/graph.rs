//! The cluster security graph's vocabulary: typed nodes, edges and the facts that hang on them.
//!
//! Every edge records who asserted it ([`Provenance`]) and whether that was a deterministic check
//! or a guess ([`Grade`]). A node is known by its [`NodeKey`], which depends on what the node is
//! and not on what was observed about it.

use crate::text;
use std::collections::BTreeMap;
use vstd::prelude::*;
use vstd::string::*;

verus! {

// ---------------------------------------------------------------------------
// Node keys
// ---------------------------------------------------------------------------

/// A stable handle for a [`Node`]: its kind and identity, as a path.
#[derive(Debug, Clone, PartialEq, Eq, PartialOrd, Ord)]
pub struct NodeKey(pub String);

/// `workload/<namespace>/<kind>/<name>`.
pub open spec fn workload_key(namespace: Seq<char>, kind: Seq<char>, name: Seq<char>) -> Seq<char> {
    "workload/"@ + namespace + "/"@ + kind + "/"@ + name
}

/// `image/<digest>`.
pub open spec fn image_key(digest: Seq<char>) -> Seq<char> {
    "image/"@ + digest
}

/// The leading segment of a key: the kind of the node.
pub open spec fn kind_text(key: Seq<char>) -> Seq<char> {
    text::before(key, "/"@)
}

/// A key without its leading segment.
pub open spec fn short_text(key: Seq<char>) -> Seq<char> {
    text::after(key, "/"@)
}

/// The segments of a key.
pub open spec fn segments(key: Seq<char>) -> Seq<Seq<char>> {
    text::split(key, "/"@)
}

/// The kinds whose second segment is a namespace (for a capability, its scope label).
pub open spec fn is_namespaced(kind: Seq<char>) -> bool {
    kind == "workload"@ || kind == "secret"@ || kind == "identity"@ || kind == "capability"@
}

/// The namespace segment of a key, for the kinds that have one.
pub open spec fn namespace_text(key: Seq<char>) -> Option<Seq<char>> {
    if is_namespaced(kind_text(key)) && segments(key).len() >= 2 {
        Some(segments(key)[1])
    } else {
        None
    }
}

/// The object name of a key: the last of a workload's four segments, or of a secret's or
/// identity's three.
pub open spec fn name_text(key: Seq<char>) -> Option<Seq<char>> {
    if kind_text(key) == "workload"@ && segments(key).len() == 4 {
        Some(segments(key)[3])
    } else if (kind_text(key) == "secret"@ || kind_text(key) == "identity"@) && segments(key).len()
        == 3 {
        Some(segments(key)[2])
    } else {
        None
    }
}

proof fn lemma_slash()
    ensures
        "/"@.len() == 1,
{
    reveal_strlit("/");
}

impl NodeKey {
    /// The key of a workload, without building the node.
    pub fn workload(namespace: &str, kind: &str, name: &str) -> (r: NodeKey)
        ensures
            r.0@ == workload_key(namespace@, kind@, name@),
    {
        NodeKey(
            "workload/".to_string().concat(namespace).concat("/").concat(kind).concat("/").concat(
                name,
            ),
        )
    }

    /// The key of an image, without building the node.
    pub fn image(digest: &str) -> (r: NodeKey)
        ensures
            r.0@ == image_key(digest@),
    {
        NodeKey("image/".to_string().concat(digest))
    }

    /// The leading segment, which names the node's kind.
    pub fn kind(&self) -> (r: &str)
        ensures
            r@ == kind_text(self.0@),
    {
        Self::kind_of(self.0.as_str())
    }

    /// The leading segment of a key in plain text.
    pub fn kind_of(key: &str) -> (r: &str)
        ensures
            r@ == kind_text(key@),
    {
        text::head(key, "/")
    }

    /// The namespace segment, for the kinds that have one.
    pub fn namespace(&self) -> (r: Option<&str>)
        ensures
            r matches Some(t) ==> namespace_text(self.0@) == Some(t@),
            r is None ==> namespace_text(self.0@) is None,
    {
        proof {
            lemma_slash();
        }
        let kind = self.kind();
        if text::same(kind, "workload") || text::same(kind, "secret") || text::same(
            kind,
            "identity",
        ) || text::same(kind, "capability") {
            text::part(self.0.as_str(), "/", 1)
        } else {
            None
        }
    }

    /// The object name, for a key with exactly the segments its kind calls for.
    pub fn name(&self) -> (r: Option<&str>)
        ensures
            r matches Some(t) ==> name_text(self.0@) == Some(t@),
            r is None ==> name_text(self.0@) is None,
    {
        proof {
            lemma_slash();
        }
        let kind = self.kind();
        if text::same(kind, "workload") {
            proof {
                reveal_strlit("workload");
                reveal_strlit("secret");
                reveal_strlit("identity");
                assert("workload"@[0] != "secret"@[0] && "workload"@[0] != "identity"@[0]);
            }
            if text::part(self.0.as_str(), "/", 4).is_none() {
                return text::part(self.0.as_str(), "/", 3);
            }
        } else if text::same(kind, "secret") || text::same(kind, "identity") {
            if text::part(self.0.as_str(), "/", 3).is_none() {
                return text::part(self.0.as_str(), "/", 2);
            }
        }
        None
    }

    /// Everything behind the kind, or the whole key where there is no separator.
    pub fn short(&self) -> (r: &str)
        ensures
            r@ == short_text(self.0@),
    {
        Self::short_of(self.0.as_str())
    }

    /// [`NodeKey::short`] of a key in plain text.
    pub fn short_of(key: &str) -> (r: &str)
        ensures
            r@ == short_text(key@),
    {
        text::tail(key, "/")
    }
}

// ---------------------------------------------------------------------------
// Facts
// ---------------------------------------------------------------------------

/// Who asserted a fact or edge, and when (milliseconds since the Unix epoch).
#[derive(Debug, Clone, PartialEq, Eq)]
pub struct Provenance {
    pub source: String,
    pub observed_at: u64,
}

impl Provenance {
    pub fn new(source: String, observed_at: u64) -> (r: Provenance)
        ensures
            r.source == source,
            r.observed_at == observed_at,
    {
        Provenance { source, observed_at }
    }
}

/// How reachable a workload is from outside its own namespace.
#[derive(Debug, Clone, Copy, PartialEq, Eq, Structural)]
pub enum Exposure {
    Internal,
    ClusterExposed,
    Internet,
}

/// Whether an image's signature was evaluated, and how.
#[derive(Debug, Clone, PartialEq, Eq)]
pub enum Trust {
    Unknown,
    Untrusted,
    /// Verified by the named source.
    Signed(Provenance),
}

/// Severity band of a vulnerability.
#[derive(Debug, Clone, Copy, PartialEq, Eq, PartialOrd, Ord, Structural, Default)]
pub enum Severity {
    #[default]
    Low,
    Medium,
    High,
    Critical,
}

impl Severity {
    /// A stable label for prompts and metrics.
    pub fn label(&self) -> (r: &'static str)
        ensures
            r@ == (match self {
                Severity::Low => "low"@,
                Severity::Medium => "medium"@,
                Severity::High => "high"@,
                Severity::Critical => "critical"@,
            }),
    {
        match self {
            Severity::Low => "low",
            Severity::Medium => "medium",
            Severity::High => "high",
            Severity::Critical => "critical",
        }
    }
}

/// Whether a vulnerability's code is reachable at run time.
#[derive(Debug, Clone, Copy, PartialEq, Eq, Structural, Default)]
pub enum Reachability {
    /// Not evaluated.
    #[default]
    Unknown,
    /// The vulnerable package was seen loaded.
    LoadedAtRuntime,
    /// It was looked for and not seen.
    NotObserved,
}

impl Reachability {
    /// A stable label for prompts, fingerprints and metrics.
    pub fn label(&self) -> (r: &'static str)
        ensures
            r@ == (match self {
                Reachability::Unknown => "unknown"@,
                Reachability::LoadedAtRuntime => "loaded-at-runtime"@,
                Reachability::NotObserved => "not-observed"@,
            }),
    {
        match self {
            Reachability::Unknown => "unknown",
            Reachability::LoadedAtRuntime => "loaded-at-runtime",
            Reachability::NotObserved => "not-observed",
        }
    }
}

/// A vulnerability on an image. `epss` and `score` hold the IEEE 754 bit patterns of the
/// exploit-prediction score and the CVSS base score: the graph stores and compares them, and
/// computes nothing with them.
#[derive(Debug, Clone, PartialEq, Eq, Default)]
pub struct Vulnerability {
    pub id: String,
    pub severity: Severity,
    pub exploited_in_wild: bool,
    pub epss: Option<u32>,
    pub sources: Vec<Provenance>,
    pub reachability: Reachability,
    pub pkg_name: Option<String>,
    pub installed_version: Option<String>,
    pub fixed_version: Option<String>,
    pub title: Option<String>,
    pub primary_link: Option<String>,
    pub score: Option<u64>,
}

/// A scanner finding that is no CVE: an exposed secret, a failed configuration check or a failed
/// RBAC check.
#[derive(Debug, Clone, PartialEq, Eq, Default)]
pub struct ScanFinding {
    pub id: String,
    pub severity: Severity,
    pub category: Option<String>,
    pub title: Option<String>,
    pub target: Option<String>,
    pub sources: Vec<Provenance>,
}

/// What a runtime sensor saw a workload do.
#[derive(Debug, Clone, PartialEq, Eq)]
pub enum Signal {
    /// A sensor rule fired.
    Alert { rule: String },
    ProcessExec { path: String },
    FileWrite { path: String },
    NetworkConnection { peer: String, internet: bool },
    /// Any other behavior; its words are in [`Behavior`].
    Other,
}

/// One observed behavior, with the sensor port's words for it and what the behavior classifiers
/// made of it: the class of a notable exec, of an alarming write, or of a foothold peer.
#[derive(Debug, Clone, PartialEq, Eq)]
pub struct Behavior {
    pub signal: Signal,
    /// The low-cardinality name of its variant.
    pub variant: String,
    /// What happened, in words.
    pub summary: String,
    pub notable_exec: Option<String>,
    pub alarming_write: Option<String>,
    pub foothold_peer: Option<String>,
}

impl Behavior {
    /// A sensor rule fired.
    pub open spec fn alerts(self) -> bool {
        self.signal is Alert
    }

    /// Whether this is a sensor alert, which corroborates a chain.
    pub fn is_alert(&self) -> (r: bool)
        ensures
            r == self.alerts(),
    {
        match &self.signal {
            Signal::Alert { rule } => true,
            _ => false,
        }
    }
}

/// A behavior, and who reported it.
#[derive(Debug, Clone, PartialEq, Eq)]
pub struct RuntimeSignal {
    pub behavior: Behavior,
    pub provenance: Provenance,
}

// ---------------------------------------------------------------------------
// Nodes
// ---------------------------------------------------------------------------

/// A running workload.
#[derive(Debug, Clone, PartialEq, Eq)]
pub struct Workload {
    pub namespace: String,
    pub name: String,
    pub kind: String,
    pub labels: BTreeMap<String, String>,
    pub meshed: bool,
    pub exposure: Exposure,
    pub runtime: Vec<RuntimeSignal>,
    pub persistent: bool,
    pub misconfigs: Vec<ScanFinding>,
    pub rbac_findings: Vec<ScanFinding>,
}

/// An identity a workload acts as.
#[derive(Debug, Clone, PartialEq, Eq)]
pub struct Identity {
    pub namespace: String,
    pub name: String,
}

/// A sensitive object worth reaching.
#[derive(Debug, Clone, PartialEq, Eq)]
pub struct SecretRef {
    pub namespace: String,
    pub name: String,
}

/// A network endpoint.
#[derive(Debug, Clone, PartialEq, Eq)]
pub struct Endpoint {
    pub address: String,
}

/// A container image, by its digest.
#[derive(Debug, Clone, PartialEq, Eq)]
pub struct Image {
    pub digest: String,
    pub reference: Option<String>,
    pub trust: Trust,
    pub vulnerabilities: Vec<Vulnerability>,
    pub exposed_secrets: Vec<ScanFinding>,
}

/// A cluster node.
#[derive(Debug, Clone, PartialEq, Eq)]
pub struct Host {
    pub name: String,
}

/// Where a capability applies.
#[derive(Debug, Clone, PartialEq, Eq, Hash)]
pub enum Scope {
    Cluster,
    Namespace(String),
}

impl Scope {
    /// `cluster`, or `ns:` and the namespace.
    pub open spec fn label_text(self) -> Seq<char> {
        match self {
            Scope::Cluster => "cluster"@,
            Scope::Namespace(ns) => "ns:"@ + ns@,
        }
    }

    /// The label used in a capability's key.
    pub fn label(&self) -> (r: String)
        ensures
            r@ == self.label_text(),
    {
        match self {
            Scope::Cluster => "cluster".to_string(),
            Scope::Namespace(ns) => "ns:".to_string().concat(ns.as_str()),
        }
    }
}

/// A dangerous RBAC power: a verb on a resource type.
#[derive(Debug, Clone, PartialEq, Eq, Hash)]
pub struct Capability {
    pub verb: String,
    pub resource: String,
    pub scope: Scope,
}

/// A node of the graph.
#[derive(Debug, Clone, PartialEq, Eq)]
pub enum Node {
    Workload(Workload),
    Identity(Identity),
    Secret(SecretRef),
    Endpoint(Endpoint),
    Image(Image),
    Host(Host),
    Capability(Capability),
}

impl Node {
    /// The node's identity as text. Two observations with the same key are the same node.
    pub open spec fn key_text(self) -> Seq<char> {
        match self {
            Node::Workload(w) => workload_key(w.namespace@, w.kind@, w.name@),
            Node::Identity(i) => "identity/"@ + i.namespace@ + "/"@ + i.name@,
            Node::Secret(s) => "secret/"@ + s.namespace@ + "/"@ + s.name@,
            Node::Endpoint(e) => "endpoint/"@ + e.address@,
            Node::Image(im) => image_key(im.digest@),
            Node::Host(h) => "host/"@ + h.name@,
            Node::Capability(c) => "capability/"@ + c.scope.label_text() + "/"@ + c.verb@ + "/"@
                + c.resource@,
        }
    }

    /// The node's stable identity.
    pub fn key(&self) -> (r: NodeKey)
        ensures
            r.0@ == self.key_text(),
    {
        match self {
            Node::Workload(w) => NodeKey::workload(
                w.namespace.as_str(),
                w.kind.as_str(),
                w.name.as_str(),
            ),
            Node::Identity(i) => NodeKey(
                "identity/".to_string().concat(i.namespace.as_str()).concat("/").concat(
                    i.name.as_str(),
                ),
            ),
            Node::Secret(s) => NodeKey(
                "secret/".to_string().concat(s.namespace.as_str()).concat("/").concat(
                    s.name.as_str(),
                ),
            ),
            Node::Endpoint(e) => NodeKey("endpoint/".to_string().concat(e.address.as_str())),
            Node::Image(im) => NodeKey::image(im.digest.as_str()),
            Node::Host(h) => NodeKey("host/".to_string().concat(h.name.as_str())),
            Node::Capability(c) => NodeKey(
                "capability/".to_string().concat(c.scope.label().as_str()).concat("/").concat(
                    c.verb.as_str(),
                ).concat("/").concat(c.resource.as_str()),
            ),
        }
    }
}

// ---------------------------------------------------------------------------
// Edges
// ---------------------------------------------------------------------------

/// Transport protocol of a reachability edge.
#[derive(Debug, Clone, Copy, PartialEq, Eq, Structural)]
pub enum Protocol {
    Tcp,
    Udp,
}

impl Protocol {
    /// The protocol's name.
    pub open spec fn name_text(self) -> Seq<char> {
        match self {
            Protocol::Tcp => "Tcp"@,
            Protocol::Udp => "Udp"@,
        }
    }

    fn name(self) -> (r: &'static str)
        ensures
            r@ == self.name_text(),
    {
        match self {
            Protocol::Tcp => "Tcp",
            Protocol::Udp => "Udp",
        }
    }
}

/// Whether a piece of evidence is deterministic proof or a guess.
#[derive(Debug, Clone, Copy, PartialEq, Eq, Structural)]
pub enum Grade {
    /// Eligible to justify a privileged action.
    Proof,
    /// May inform a proposal, never an action.
    Hypothesis,
}

/// A MITRE ATT&CK technique.
#[derive(Debug, Clone, Copy, PartialEq, Eq)]
pub enum AttackRef {
    /// T1552, Unsecured Credentials.
    UnsecuredCredentials,
    /// T1611, Escape to Host.
    EscapeToHost,
    /// T1041, Exfiltration Over C2 Channel.
    Exfiltration,
    /// Any other, by its identifier.
    Technique(&'static str),
}

pub const CREDENTIAL_ACCESS: AttackRef = AttackRef::UnsecuredCredentials;

pub const ESCAPE_TO_HOST: AttackRef = AttackRef::EscapeToHost;

pub const EXFILTRATION: AttackRef = AttackRef::Exfiltration;

/// The relation an edge expresses.
#[derive(Debug, Clone, PartialEq, Eq)]
pub enum Relation {
    Reaches { port: Option<u16>, protocol: Protocol },
    CanDo { verb: String, resource: String },
    CanRead,
    EscapesTo { via: String },
    CanEgress { via: String },
    RunsAs,
    RunsImage,
    ScheduledOn,
}

/// The techniques that capabilities realize, by verb and resource.
#[derive(Debug, Clone, PartialEq, Eq)]
pub struct CapabilityCatalogue {
    pub rows: Vec<(String, String, AttackRef)>,
}

impl CapabilityCatalogue {
    /// The technique of the first row at or behind `from` for the verb and resource.
    pub open spec fn found(self, verb: Seq<char>, resource: Seq<char>, from: int) -> Option<AttackRef>
        decreases self.rows@.len() - from,
    {
        if from < 0 || from >= self.rows@.len() {
            None
        } else if self.rows@[from].0@ == verb && self.rows@[from].1@ == resource {
            Some(self.rows@[from].2)
        } else {
            self.found(verb, resource, from + 1)
        }
    }

    /// The technique a capability realizes, if the catalogue lists it.
    pub fn lookup(&self, verb: &str, resource: &str) -> (r: Option<AttackRef>)
        ensures
            r == self.found(verb@, resource@, 0),
    {
        let mut i: usize = 0;
        while i < self.rows.len()
            invariant
                i <= self.rows.len(),
                self.found(verb@, resource@, 0) == self.found(verb@, resource@, i as int),
            decreases self.rows.len() - i,
        {
            if text::same(self.rows[i].0.as_str(), verb) && text::same(
                self.rows[i].1.as_str(),
                resource,
            ) {
                return Some(self.rows[i].2);
            }
            i += 1;
        }
        None
    }
}

/// Reading secrets through the API.
pub open spec fn reads_secrets(verb: Seq<char>, resource: Seq<char>) -> bool {
    (verb == "get"@ || verb == "list"@ || verb == "watch"@) && resource == "secrets"@
}

impl Relation {
    /// Substrate that a chain is walked over: a workload's image, identity or host.
    pub open spec fn structural(self) -> bool {
        self is RunsAs || self is RunsImage || self is ScheduledOn
    }

    /// Whether the relation is substrate, and so never a sensible cut.
    pub fn is_structural(&self) -> (r: bool)
        ensures
            r == self.structural(),
    {
        match self {
            Relation::RunsAs => true,
            Relation::RunsImage => true,
            Relation::ScheduledOn => true,
            _ => false,
        }
    }

    /// The relation's label: what kind it is and its parameters, as a path.
    pub open spec fn label_text(self) -> Seq<char> {
        match self {
            Relation::Reaches { port, protocol } => match port {
                Some(p) => "reaches/"@ + protocol.name_text() + "/"@ + text::decimal(p as nat),
                None => "reaches/"@ + protocol.name_text(),
            },
            Relation::CanDo { verb, resource } => "can-do/"@ + verb@ + "/"@ + resource@,
            Relation::CanRead => "can-read"@,
            Relation::EscapesTo { via } => "escapes-to/"@ + via@,
            Relation::CanEgress { via } => "can-egress/"@ + via@,
            Relation::RunsAs => "runs-as"@,
            Relation::RunsImage => "runs-image"@,
            Relation::ScheduledOn => "scheduled-on"@,
        }
    }

    /// A compact, stable label. Two edges with the same endpoints and label are the same edge when
    /// graphs are compared.
    pub fn label(&self) -> (r: String)
        ensures
            r@ == self.label_text(),
    {
        match self {
            Relation::Reaches { port, protocol } => match port {
                Some(p) => "reaches/".to_string().concat(protocol.name()).concat("/").concat(
                    text::number(*p as u64).as_str(),
                ),
                None => "reaches/".to_string().concat(protocol.name()),
            },
            Relation::CanDo { verb, resource } => "can-do/".to_string().concat(
                verb.as_str(),
            ).concat("/").concat(resource.as_str()),
            Relation::CanRead => "can-read".to_string(),
            Relation::EscapesTo { via } => "escapes-to/".to_string().concat(via.as_str()),
            Relation::CanEgress { via } => "can-egress/".to_string().concat(via.as_str()),
            Relation::RunsAs => "runs-as".to_string(),
            Relation::RunsImage => "runs-image".to_string(),
            Relation::ScheduledOn => "scheduled-on".to_string(),
        }
    }

    /// The ATT&CK technique the relation realizes: none for the substrate and for reachability.
    pub open spec fn realizes(self, catalogue: CapabilityCatalogue) -> Option<AttackRef> {
        match self {
            Relation::CanRead => Some(CREDENTIAL_ACCESS),
            Relation::CanDo { verb, resource } => if reads_secrets(verb@, resource@) {
                Some(CREDENTIAL_ACCESS)
            } else {
                catalogue.found(verb@, resource@, 0)
            },
            Relation::EscapesTo { via } => Some(ESCAPE_TO_HOST),
            Relation::CanEgress { via } => Some(EXFILTRATION),
            _ => None,
        }
    }

    /// The ATT&CK technique the relation realizes, if it is an attack step. What an RBAC power
    /// other than reading secrets realizes is for `catalogue` to say.
    pub fn technique(&self, catalogue: &CapabilityCatalogue) -> (r: Option<AttackRef>)
        ensures
            r == self.realizes(*catalogue),
    {
        match self {
            Relation::CanRead => Some(CREDENTIAL_ACCESS),
            Relation::CanDo { verb, resource } => {
                let (v, t) = (verb.as_str(), resource.as_str());
                if (text::same(v, "get") || text::same(v, "list") || text::same(v, "watch"))
                    && text::same(t, "secrets") {
                    Some(CREDENTIAL_ACCESS)
                } else {
                    catalogue.lookup(v, t)
                }
            },
            Relation::EscapesTo { via } => Some(ESCAPE_TO_HOST),
            Relation::CanEgress { via } => Some(EXFILTRATION),
            _ => None,
        }
    }
}

/// A directed edge: a relation, who asserted it, and on what grounds.
#[derive(Debug, Clone, PartialEq, Eq)]
pub struct Edge {
    pub relation: Relation,
    pub provenance: Provenance,
    pub grade: Grade,
}

impl Edge {
    /// Whether the edge may justify a privileged action: only deterministic proof may.
    pub fn is_proof_grade(&self) -> (r: bool)
        ensures
            r == (self.grade == Grade::Proof),
    {
        self.grade == Grade::Proof
    }
}

// ---------------------------------------------------------------------------
// Copies
// ---------------------------------------------------------------------------

impl Provenance {
    /// An equal value.
    pub fn duplicate(&self) -> (r: Provenance)
        ensures
            r == *self,
    {
        Provenance { source: self.source.clone(), observed_at: self.observed_at }
    }
}

fn duplicate_sources(v: &Vec<Provenance>) -> (r: Vec<Provenance>)
    ensures
        r@ == v@,
{
    let mut r: Vec<Provenance> = Vec::new();
    let mut i: usize = 0;
    while i < v.len()
        invariant
            i <= v.len(),
            r@ == v@.take(i as int),
        decreases v.len() - i,
    {
        r.push(v[i].duplicate());
        i += 1;
        assert(r@ =~= v@.take(i as int));
    }
    assert(v@.take(v@.len() as int) =~= v@);
    r
}

impl Vulnerability {
    /// The same fields, the list of sources compared by what it holds.
    pub open spec fn same_as(self, o: Vulnerability) -> bool {
        self.sources@ == o.sources@ && self == (Vulnerability { sources: self.sources, ..o })
    }

    /// An equal value.
    pub fn duplicate(&self) -> (r: Vulnerability)
        ensures
            r.same_as(*self),
    {
        Vulnerability {
            id: self.id.clone(),
            severity: self.severity,
            exploited_in_wild: self.exploited_in_wild,
            epss: self.epss,
            sources: duplicate_sources(&self.sources),
            reachability: self.reachability,
            pkg_name: self.pkg_name.clone(),
            installed_version: self.installed_version.clone(),
            fixed_version: self.fixed_version.clone(),
            title: self.title.clone(),
            primary_link: self.primary_link.clone(),
            score: self.score,
        }
    }

    /// Known to be exploited, or critical: the bar a foothold has to clear.
    pub open spec fn clears_bar(self) -> bool {
        self.exploited_in_wild || self.severity == Severity::Critical
    }
}

impl ScanFinding {
    /// The same fields, the list of sources compared by what it holds.
    pub open spec fn same_as(self, o: ScanFinding) -> bool {
        self.sources@ == o.sources@ && self == (ScanFinding { sources: self.sources, ..o })
    }

    /// An equal value.
    pub fn duplicate(&self) -> (r: ScanFinding)
        ensures
            r.same_as(*self),
    {
        ScanFinding {
            id: self.id.clone(),
            severity: self.severity,
            category: self.category.clone(),
            title: self.title.clone(),
            target: self.target.clone(),
            sources: duplicate_sources(&self.sources),
        }
    }
}

impl Signal {
    /// An equal value.
    pub fn duplicate(&self) -> (r: Signal)
        ensures
            r == *self,
    {
        match self {
            Signal::Alert { rule } => Signal::Alert { rule: rule.clone() },
            Signal::ProcessExec { path } => Signal::ProcessExec { path: path.clone() },
            Signal::FileWrite { path } => Signal::FileWrite { path: path.clone() },
            Signal::NetworkConnection { peer, internet } => Signal::NetworkConnection {
                peer: peer.clone(),
                internet: *internet,
            },
            Signal::Other => Signal::Other,
        }
    }
}

impl Behavior {
    /// An equal value.
    pub fn duplicate(&self) -> (r: Behavior)
        ensures
            r == *self,
    {
        Behavior {
            signal: self.signal.duplicate(),
            variant: self.variant.clone(),
            summary: self.summary.clone(),
            notable_exec: self.notable_exec.clone(),
            alarming_write: self.alarming_write.clone(),
            foothold_peer: self.foothold_peer.clone(),
        }
    }
}

} // verus!
