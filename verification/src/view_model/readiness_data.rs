//! How well the engine can see: each decision input and its live state, from the configuration and
//! what one pass delivered.

use crate::text;
use crate::text_set::ascending;
use vstd::prelude::*;
use vstd::string::*;

verus! {

/// What is configured.
#[derive(Debug, Clone, PartialEq, Eq, Default)]
pub struct ReadinessConfig {
    pub model_attached: bool,
    pub kev_count: usize,
    pub epss_count: usize,
    pub journal_durable: bool,
    pub armed: bool,
}

/// How the model's last call went.
#[derive(Debug, Clone, Copy, PartialEq, Eq, Structural)]
pub enum ModelHealth {
    /// It decided.
    Answering,
    Timeout,
    /// There was no call yet.
    Unknown,
}

/// What the behavioral feeds delivered in one pass.
#[derive(Debug, Clone, PartialEq, Eq)]
pub struct BakeStats {
    /// How many signals of each variant there were, in ascending order of the variants.
    pub signals_by_variant: Vec<(String, u64)>,
    pub resolved: u64,
    pub unresolved: u64,
    pub runtime_store: u64,
    pub corroborations: u64,
}

/// The sum of the counts.
pub open spec fn sum(v: Seq<(String, u64)>) -> int
    decreases v.len(),
{
    if v.len() == 0 {
        0
    } else {
        sum(v.drop_last()) + v.last().1
    }
}

/// The sum of the counts of the alerts, or of everything but the alerts.
pub open spec fn sum_of(v: Seq<(String, u64)>, alerts: bool) -> int
    decreases v.len(),
{
    if v.len() == 0 {
        0
    } else {
        sum_of(v.drop_last(), alerts) + (if (v.last().0@ == "alert"@) == alerts {
            v.last().1 as int
        } else {
            0
        })
    }
}

proof fn lemma_sums(v: Seq<(String, u64)>, n: int)
    requires
        0 <= n <= v.len(),
    ensures
        0 <= sum(v.take(n)) <= sum(v),
        0 <= sum_of(v.take(n), true) <= sum(v.take(n)),
        0 <= sum_of(v.take(n), false) <= sum(v.take(n)),
    decreases v.len() - n, n,
{
    if n < v.len() {
        lemma_sums(v, n + 1);
        assert(v.take(n + 1).drop_last() =~= v.take(n));
        lemma_sums_nonneg(v.take(n));
    } else {
        assert(v.take(n) =~= v);
        lemma_sums_nonneg(v);
    }
}

proof fn lemma_sums_nonneg(v: Seq<(String, u64)>)
    ensures
        0 <= sum(v),
        0 <= sum_of(v, true) <= sum(v),
        0 <= sum_of(v, false) <= sum(v),
        sum_of(v, true) + sum_of(v, false) == sum(v),
    decreases v.len(),
{
    if v.len() > 0 {
        lemma_sums_nonneg(v.drop_last());
    }
}

impl BakeStats {
    /// The variants are in ascending order, each once, and the total can be counted.
    pub open spec fn wf(self) -> bool {
        &&& ascending(self.signals_by_variant@.map_values(|p: (String, u64)| p.0@))
        &&& sum(self.signals_by_variant@) <= u64::MAX
    }

    /// All signals.
    pub open spec fn total(self) -> int {
        sum(self.signals_by_variant@)
    }

    /// The signals that are sensor alerts.
    pub open spec fn alerts(self) -> int {
        sum_of(self.signals_by_variant@, true)
    }

    /// The signals that are no alerts.
    pub open spec fn others(self) -> int {
        sum_of(self.signals_by_variant@, false)
    }

    /// How many signals there were.
    pub fn total_signals(&self) -> (r: u64)
        requires
            self.wf(),
        ensures
            r == self.total(),
    {
        let v = &self.signals_by_variant;
        let mut n: u64 = 0;
        let mut i: usize = 0;
        while i < v.len()
            invariant
                i <= v.len(),
                sum(v@) <= u64::MAX,
                n == sum(v@.take(i as int)),
            decreases v.len() - i,
        {
            assert(v@.take(i + 1).drop_last() =~= v@.take(i as int));
            proof {
                lemma_sums(v@, i + 1);
            }
            n += v[i].1;
            i += 1;
        }
        assert(v@.take(v@.len() as int) =~= v@);
        n
    }

    /// How many signals are alerts, or are none.
    fn count_signals(&self, alerts: bool) -> (r: u64)
        requires
            self.wf(),
        ensures
            r == sum_of(self.signals_by_variant@, alerts),
    {
        let v = &self.signals_by_variant;
        let mut n: u64 = 0;
        let mut i: usize = 0;
        while i < v.len()
            invariant
                i <= v.len(),
                sum(v@) <= u64::MAX,
                n == sum_of(v@.take(i as int), alerts),
            decreases v.len() - i,
        {
            assert(v@.take(i + 1).drop_last() =~= v@.take(i as int));
            proof {
                lemma_sums(v@, i + 1);
            }
            if text::same(v[i].0.as_str(), "alert") == alerts {
                n += v[i].1;
            }
            i += 1;
        }
        assert(v@.take(v@.len() as int) =~= v@);
        n
    }
}

impl Default for BakeStats {
    fn default() -> (r: Self)
        ensures
            r.wf(),
            r.signals_by_variant@.len() == 0,
            r.resolved == 0,
            r.unresolved == 0,
            r.runtime_store == 0,
            r.corroborations == 0,
    {
        BakeStats {
            signals_by_variant: Vec::new(),
            resolved: 0,
            unresolved: 0,
            runtime_store: 0,
            corroborations: 0,
        }
    }
}

/// The live state of a decision input.
#[derive(Debug, Clone, Copy, PartialEq, Eq, Structural)]
pub enum InputState {
    Present,
    Absent,
    /// Configured, and not answering.
    Degraded,
}

impl InputState {
    /// The state in words.
    pub open spec fn word_text(self) -> Seq<char> {
        match self {
            InputState::Present => "present"@,
            InputState::Absent => "absent"@,
            InputState::Degraded => "degraded"@,
        }
    }

    /// The state in words.
    pub fn word(self) -> (r: &'static str)
        ensures
            r@ == self.word_text(),
    {
        match self {
            InputState::Present => "present",
            InputState::Absent => "absent",
            InputState::Degraded => "degraded",
        }
    }
}

/// One decision input.
#[derive(Debug, Clone, PartialEq, Eq)]
pub struct ReadinessRow {
    pub id: &'static str,
    pub label: &'static str,
    pub state: InputState,
    pub why: &'static str,
    pub enable: &'static str,
    pub detail: String,
    /// Whether the model's decision is weaker without this input.
    pub weakens_decisions: bool,
}

/// A decision input, in characters.
pub struct Input {
    pub id: Seq<char>,
    pub label: Seq<char>,
    pub state: InputState,
    pub why: Seq<char>,
    pub enable: Seq<char>,
    pub detail: Seq<char>,
    pub weakens_decisions: bool,
}

impl View for ReadinessRow {
    type V = Input;

    open spec fn view(&self) -> Input {
        Input {
            id: self.id@,
            label: self.label@,
            state: self.state,
            why: self.why@,
            enable: self.enable@,
            detail: self.detail@,
            weakens_decisions: self.weakens_decisions,
        }
    }
}

/// How well the engine can see.
#[derive(Debug, Clone, PartialEq, Eq)]
pub struct Readiness {
    pub inputs: Vec<ReadinessRow>,
    /// No pass has completed yet.
    pub warming_up: bool,
    /// The model is attached and its last call decided.
    pub model_judging: bool,
}

/// The input is missing. The arm state is a posture, and never a gap.
pub open spec fn is_unmet(r: ReadinessRow) -> bool {
    r.id@ != "arm-state"@ && r.state != InputState::Present
}

/// The first row at or behind `i` with the id.
pub open spec fn row_with(rows: Seq<ReadinessRow>, id: Seq<char>, i: int) -> Option<ReadinessRow>
    decreases rows.len() - i,
{
    if i < 0 || i >= rows.len() {
        None
    } else if rows[i].id@ == id {
        Some(rows[i])
    } else {
        row_with(rows, id, i + 1)
    }
}

impl Readiness {
    /// How many inputs are missing.
    pub open spec fn unmet(self) -> int {
        self.inputs@.filter(|r: ReadinessRow| is_unmet(r)).len() as int
    }

    /// A model is configured: its row is there and not absent.
    pub open spec fn has_model(self) -> bool {
        row_with(self.inputs@, "model"@, 0) matches Some(r) && r.state != InputState::Absent
    }

    /// How many inputs are missing.
    pub fn unmet_count(&self) -> (n: usize)
        ensures
            n == self.unmet(),
            n <= self.inputs@.len(),
    {
        let ghost p = |r: ReadinessRow| is_unmet(r);
        let mut n: usize = 0;
        let mut i: usize = 0;
        assert(self.inputs@.take(0).filter(p) =~= Seq::empty());
        while i < self.inputs.len()
            invariant
                i <= self.inputs.len(),
                n <= i,
                p == |r: ReadinessRow| is_unmet(r),
                n == self.inputs@.take(i as int).filter(p).len(),
            decreases self.inputs.len() - i,
        {
            broadcast use vstd::seq::Seq::lemma_filter_push;

            assert(self.inputs@.take(i + 1) =~= self.inputs@.take(i as int).push(
                self.inputs@[i as int],
            ));
            let r = &self.inputs[i];
            if !text::same(r.id, "arm-state") && r.state != InputState::Present {
                n += 1;
            }
            i += 1;
        }
        assert(self.inputs@.take(self.inputs@.len() as int) =~= self.inputs@);
        n
    }

    /// Whether any input is missing.
    pub fn has_unmet(&self) -> (b: bool)
        ensures
            b == (self.unmet() > 0),
    {
        self.unmet_count() > 0
    }

    /// Whether a model is configured at all.
    pub fn model_attached(&self) -> (b: bool)
        ensures
            b == self.has_model(),
    {
        let mut i: usize = 0;
        while i < self.inputs.len()
            invariant
                i <= self.inputs.len(),
                row_with(self.inputs@, "model"@, 0) == row_with(self.inputs@, "model"@, i as int),
            decreases self.inputs.len() - i,
        {
            if text::same(self.inputs[i].id, "model") {
                return self.inputs[i].state != InputState::Absent;
            }
            i += 1;
        }
        false
    }
}

// ---------------------------------------------------------------------------
// Derivation
// ---------------------------------------------------------------------------

/// Present where the condition holds.
pub open spec fn state_if(present: bool) -> InputState {
    if present {
        InputState::Present
    } else {
        InputState::Absent
    }
}

/// What a store that was loaded from a file holds.
pub open spec fn loaded_text(count: nat, noun: Seq<char>) -> Seq<char> {
    if count == 0 {
        "not loaded \u{2014} no "@ + noun + " evidence available"@
    } else {
        text::decimal(count) + " "@ + noun + (if count == 1 {
            ""@
        } else {
            "s"@
        }) + " loaded"@
    }
}

/// What a behavioral feed delivered.
pub open spec fn signals_text(signals: int) -> Seq<char> {
    if signals > 0 {
        text::decimal(signals as nat) + " signal"@ + (if signals == 1 {
            ""@
        } else {
            "s"@
        }) + " last pass"@
    } else {
        "no signals last pass (no sensor reporting, or a quiet cluster)"@
    }
}

/// The state of the model: a model that does not answer is degraded, not absent.
pub open spec fn model_state(config: ReadinessConfig, health: ModelHealth) -> InputState {
    if !config.model_attached {
        InputState::Absent
    } else if health == ModelHealth::Answering {
        InputState::Present
    } else {
        InputState::Degraded
    }
}

/// What is known of the model.
pub open spec fn model_detail(config: ReadinessConfig, health: ModelHealth) -> Seq<char> {
    if !config.model_attached {
        "no model configured \u{2014} no exploitability calls are made"@
    } else {
        match health {
            ModelHealth::Answering => "attached \u{b7} last call ok"@,
            ModelHealth::Timeout => "attached \u{b7} last call timed out (CPU model warming or endpoint down)"@,
            ModelHealth::Unknown => "attached \u{b7} no call yet this run (warming up)"@,
        }
    }
}

/// The decision inputs, in the order in which they bear on decisions.
pub open spec fn inputs_of(config: ReadinessConfig, health: ModelHealth, bake: BakeStats) -> Seq<Input> {
    seq![
        Input {
            id: "model"@,
            label: "Model adjudicator"@,
            state: model_state(config, health),
            why: "decides whether a proven chain is a real breach \u{2014} without it, nothing is judged exploitable"@,
            enable: "PROTECTOR_ENGINE_MODEL"@,
            detail: model_detail(config, health),
            weakens_decisions: true,
        },
        Input {
            id: "kev"@,
            label: "KEV catalogue"@,
            state: state_if(config.kev_count > 0),
            why: "flags known-exploited CVEs so the model weighs active threats first"@,
            enable: "PROTECTOR_KEV_FILE"@,
            detail: loaded_text(config.kev_count as nat, "known-exploited CVE id"@),
            weakens_decisions: true,
        },
        Input {
            id: "epss"@,
            label: "EPSS feed"@,
            state: state_if(config.epss_count > 0),
            why: "exploit-prediction scores rank which CVEs are most likely to be hit next"@,
            enable: "PROTECTOR_EPSS_FILE"@,
            detail: loaded_text(config.epss_count as nat, "EPSS score"@),
            weakens_decisions: true,
        },
        Input {
            id: "falco"@,
            label: "Falco feed"@,
            state: state_if(bake.alerts() > 0),
            why: "live rule-fired alerts confirm a path is being exploited right now"@,
            enable: "runtime ingest (falcosidekick -> /alert)"@,
            detail: signals_text(bake.alerts()),
            weakens_decisions: true,
        },
        Input {
            id: "ebpf-agent"@,
            label: "eBPF agent"@,
            state: state_if(bake.others() > 0),
            why: "in-kernel behavioral signals (exec, secret reads, connections) show live activity"@,
            enable: "deploy the agent DaemonSet (-> /behavior)"@,
            detail: signals_text(bake.others()),
            weakens_decisions: true,
        },
        Input {
            id: "journal"@,
            label: "Decision journal"@,
            state: state_if(config.journal_durable),
            why: "durable verdicts survive a restart and back the would-have-acted report \u{2014} without it, history resets"@,
            enable: "PROTECTOR_ENGINE_JOURNAL_PATH"@,
            detail: if config.journal_durable {
                "durable volume mounted"@
            } else {
                "in-memory only \u{2014} resets on restart"@
            },
            weakens_decisions: false,
        },
        Input {
            id: "arm-state"@,
            label: "Arm state"@,
            state: InputState::Present,
            why: "shadow proposes cuts only; enforcing applies the reversible isolation automatically"@,
            enable: ""@,
            detail: if config.armed {
                "enforcing (acting)"@
            } else {
                "shadow (proposing only)"@
            },
            weakens_decisions: false,
        },
    ]
}

/// Present where the condition holds.
pub fn present_if(present: bool) -> (r: InputState)
    ensures
        r == state_if(present),
{
    if present {
        InputState::Present
    } else {
        InputState::Absent
    }
}

/// What a store that was loaded from a file holds.
pub fn coverage_detail(count: usize, noun: &str) -> (r: String)
    ensures
        r@ == loaded_text(count as nat, noun@),
{
    if count == 0 {
        "not loaded \u{2014} no ".to_string().concat(noun).concat(" evidence available")
    } else {
        text::number(count as u64).concat(" ").concat(noun).concat(
            if count == 1 {
                ""
            } else {
                "s"
            },
        ).concat(" loaded")
    }
}

/// What a behavioral feed delivered, which is present where it delivered anything.
pub fn signals_detail(state: InputState, signals: u64) -> (r: String)
    ensures
        r@ == (if state == InputState::Present {
            text::decimal(signals as nat) + " signal"@ + (if signals == 1 {
                ""@
            } else {
                "s"@
            }) + " last pass"@
        } else {
            "no signals last pass (no sensor reporting, or a quiet cluster)"@
        }),
{
    match state {
        InputState::Present => text::number(signals).concat(" signal").concat(
            if signals == 1 {
                ""
            } else {
                "s"
            },
        ).concat(" last pass"),
        _ => "no signals last pass (no sensor reporting, or a quiet cluster)".to_string(),
    }
}

/// Derives how well the engine can see from the configuration, the model's last call, what the last
/// pass delivered, and when that was.
pub fn derive_readiness(
    config: &ReadinessConfig,
    model_health: ModelHealth,
    bake: &BakeStats,
    last_pass: Option<u64>,
) -> (r: Readiness)
    requires
        bake.wf(),
    ensures
        r.warming_up == (last_pass is None),
        r.model_judging == (config.model_attached && model_health == ModelHealth::Answering),
        r.inputs@.map_values(|row: ReadinessRow| row@) == inputs_of(*config, model_health, *bake),
{
    let falco = bake.count_signals(true);
    let ebpf = bake.count_signals(false);
    let model_judging = config.model_attached && model_health == ModelHealth::Answering;
    let (model_state, model_text) = if !config.model_attached {
        (
            InputState::Absent,
            "no model configured \u{2014} no exploitability calls are made".to_string(),
        )
    } else {
        match model_health {
            ModelHealth::Answering => (
                InputState::Present,
                "attached \u{b7} last call ok".to_string(),
            ),
            ModelHealth::Timeout => (
                InputState::Degraded,
                "attached \u{b7} last call timed out (CPU model warming or endpoint down)".to_string(),
            ),
            ModelHealth::Unknown => (
                InputState::Degraded,
                "attached \u{b7} no call yet this run (warming up)".to_string(),
            ),
        }
    };
    let falco_state = present_if(falco > 0);
    let ebpf_state = present_if(ebpf > 0);
    let inputs: Vec<ReadinessRow> = vec![
        ReadinessRow {
            id: "model",
            label: "Model adjudicator",
            state: model_state,
            why: "decides whether a proven chain is a real breach \u{2014} without it, nothing is judged exploitable",
            enable: "PROTECTOR_ENGINE_MODEL",
            detail: model_text,
            weakens_decisions: true,
        },
        ReadinessRow {
            id: "kev",
            label: "KEV catalogue",
            state: present_if(config.kev_count > 0),
            why: "flags known-exploited CVEs so the model weighs active threats first",
            enable: "PROTECTOR_KEV_FILE",
            detail: coverage_detail(config.kev_count, "known-exploited CVE id"),
            weakens_decisions: true,
        },
        ReadinessRow {
            id: "epss",
            label: "EPSS feed",
            state: present_if(config.epss_count > 0),
            why: "exploit-prediction scores rank which CVEs are most likely to be hit next",
            enable: "PROTECTOR_EPSS_FILE",
            detail: coverage_detail(config.epss_count, "EPSS score"),
            weakens_decisions: true,
        },
        ReadinessRow {
            id: "falco",
            label: "Falco feed",
            state: falco_state,
            why: "live rule-fired alerts confirm a path is being exploited right now",
            enable: "runtime ingest (falcosidekick -> /alert)",
            detail: signals_detail(falco_state, falco),
            weakens_decisions: true,
        },
        ReadinessRow {
            id: "ebpf-agent",
            label: "eBPF agent",
            state: ebpf_state,
            why: "in-kernel behavioral signals (exec, secret reads, connections) show live activity",
            enable: "deploy the agent DaemonSet (-> /behavior)",
            detail: signals_detail(ebpf_state, ebpf),
            weakens_decisions: true,
        },
        ReadinessRow {
            id: "journal",
            label: "Decision journal",
            state: present_if(config.journal_durable),
            why: "durable verdicts survive a restart and back the would-have-acted report \u{2014} without it, history resets",
            enable: "PROTECTOR_ENGINE_JOURNAL_PATH",
            detail: if config.journal_durable {
                    "durable volume mounted".to_string()
                } else {
                    "in-memory only \u{2014} resets on restart".to_string()
                },
            weakens_decisions: false,
        },
        ReadinessRow {
            id: "arm-state",
            label: "Arm state",
            state: InputState::Present,
            why: "shadow proposes cuts only; enforcing applies the reversible isolation automatically",
            enable: "",
            detail: if config.armed {
                    "enforcing (acting)".to_string()
                } else {
                    "shadow (proposing only)".to_string()
                },
            weakens_decisions: false,
        },
    ];
    assert(inputs@.map_values(|row: ReadinessRow| row@) =~= inputs_of(*config, model_health, *bake));
    Readiness { inputs, warming_up: last_pass.is_none(), model_judging }
}

// ---------------------------------------------------------------------------
// Laws
// ---------------------------------------------------------------------------

/// The engine judges only with a model that is attached, past its first call and not timed out, and
/// then the model's row is present.
pub proof fn judging_needs_an_answer(config: ReadinessConfig, health: ModelHealth)
    ensures
        model_state(config, health) == InputState::Present <==> config.model_attached && health
            == ModelHealth::Answering,
        model_state(config, health) == InputState::Absent <==> !config.model_attached,
{
}

/// The two behavioral feeds share the signals of a pass between them.
pub proof fn feeds_share_the_signals(bake: BakeStats)
    ensures
        bake.alerts() + bake.others() == bake.total(),
{
    lemma_sums_nonneg(bake.signals_by_variant@);
}

} // verus!
