//! The status line: how many entries are in breach, whether the model is judging, and how much of
//! its input it has. It reads clear only where that is honest.

use crate::state::Finding;
use crate::text;
use crate::text_set::{lemma_listed, listed, TextSet};
use crate::view_model::entry::{louder, max_posture, Posture};
use crate::view_model::posture::{relative_text, relative_time};
use crate::view_model::readiness_data::{is_unmet, Readiness, ReadinessRow};
use vstd::prelude::*;
use vstd::string::*;

verus! {

/// The tone of the line.
#[derive(Debug, Clone, Copy, PartialEq, Eq, Structural)]
pub enum StatusTone {
    Breach,
    /// No breach, and the engine cannot see or judge everything.
    Blind,
    Clear,
}

impl StatusTone {
    /// The style class of the tone.
    pub fn css(self) -> (r: &'static str)
        ensures
            r@ == (match self {
                StatusTone::Breach => "s-breach"@,
                StatusTone::Blind => "s-blind"@,
                StatusTone::Clear => "s-clear"@,
            }),
    {
        match self {
            StatusTone::Breach => "s-breach",
            StatusTone::Blind => "s-blind",
            StatusTone::Clear => "s-clear",
        }
    }
}

/// The status line.
#[derive(Debug, Clone, PartialEq, Eq)]
pub struct StatusProps {
    pub tone: StatusTone,
    pub breach: usize,
    pub endpoints: usize,
    pub awaiting: usize,
    pub model_clause: String,
    pub pass_age: String,
    pub coverage_pct: u8,
}

/// The entries of the first `n` findings that bear on a breach.
pub open spec fn exposed(findings: Seq<Finding>, n: int) -> Set<Seq<char>>
    decreases n,
{
    if n <= 0 || n > findings.len() {
        Set::empty()
    } else if findings[n - 1].breach_relevant {
        exposed(findings, n - 1).insert(findings[n - 1].entry@)
    } else {
        exposed(findings, n - 1)
    }
}

/// The loudest posture of the first `n` findings of an entry that bear on a breach.
pub open spec fn posture_at(findings: Seq<Finding>, entry: Seq<char>, n: int) -> Posture
    decreases n,
{
    if n <= 0 || n > findings.len() {
        Posture::Awaiting
    } else {
        let f = findings[n - 1];
        let rest = posture_at(findings, entry, n - 1);
        if f.breach_relevant && f.entry@ == entry {
            louder(rest, Posture::of(f.verdict))
        } else {
            rest
        }
    }
}

/// The posture of an entry.
pub open spec fn posture_of(findings: Seq<Finding>, entry: Seq<char>) -> Posture {
    posture_at(findings, entry, findings.len() as int)
}

/// The exposed entries, in order.
pub open spec fn entries(findings: Seq<Finding>) -> Seq<Seq<char>> {
    listed(exposed(findings, findings.len() as int))
}

/// The model has a verdict on the entry: on some finding of it that bears on a breach.
pub open spec fn is_judged(findings: Seq<Finding>, entry: Seq<char>) -> bool {
    exists|i: int|
        0 <= i < findings.len() && (#[trigger] findings[i]).breach_relevant && findings[i].entry@
            == entry && findings[i].verdict is Some
}

/// How many entries the model has not reached yet.
pub open spec fn unjudged(findings: Seq<Finding>) -> int {
    entries(findings).filter(|e: Seq<char>| !is_judged(findings, e)).len() as int
}

/// How many entries have this posture.
pub open spec fn with_posture(findings: Seq<Finding>, p: Posture) -> int {
    entries(findings).filter(|e: Seq<char>| posture_of(findings, e) == p).len() as int
}

/// How many decision inputs there are; the arm state is none.
pub open spec fn inputs_total(readiness: Readiness) -> int {
    readiness.inputs@.filter(|r: ReadinessRow| r.id@ != "arm-state"@).len() as int
}

/// The met share of the decision inputs, in whole percent.
pub open spec fn coverage_of(readiness: Readiness) -> int {
    if inputs_total(readiness) == 0 {
        0
    } else {
        ((inputs_total(readiness) - readiness.unmet()) * 100) / inputs_total(readiness)
    }
}

/// Whether the model is judging, and if not why.
pub open spec fn model_text(readiness: Readiness) -> Seq<char> {
    if readiness.model_judging {
        "model live"@
    } else if readiness.has_model() {
        "model down \u{2014} not judging"@
    } else {
        "no model \u{2014} not judging"@
    }
}

/// The tone: a breach is loud, and what is not judged or not covered is not clear.
pub open spec fn tone_of(breach: int, readiness: Readiness) -> StatusTone {
    if breach > 0 {
        StatusTone::Breach
    } else if !readiness.model_judging || coverage_of(readiness) < 100 {
        StatusTone::Blind
    } else {
        StatusTone::Clear
    }
}

proof fn lemma_unmet(v: Seq<ReadinessRow>)
    ensures
        v.filter(|r: ReadinessRow| is_unmet(r)).len() <= v.filter(
            |r: ReadinessRow| r.id@ != "arm-state"@,
        ).len(),
    decreases v.len(),
{
    broadcast use vstd::seq::Seq::lemma_filter_push;

    let p = |r: ReadinessRow| is_unmet(r);
    let q = |r: ReadinessRow| r.id@ != "arm-state"@;
    if v.len() == 0 {
        assert(v.filter(p) =~= Seq::empty());
    } else {
        lemma_unmet(v.drop_last());
        assert(v =~= v.drop_last().push(v.last()));
    }
}

/// `p` shows the status.
pub open spec fn shows_status(
    findings: Seq<Finding>,
    last_pass: Option<u64>,
    readiness: Readiness,
    p: StatusProps,
) -> bool {
    &&& p.endpoints == entries(findings).len()
    &&& p.breach == with_posture(findings, Posture::Breach)
    &&& p.awaiting == unjudged(findings)
    &&& p.tone == tone_of(p.breach as int, readiness)
    &&& p.model_clause@ == model_text(readiness)
    &&& p.pass_age@ == relative_text(last_pass)
    &&& p.coverage_pct == coverage_of(readiness)
}

fn model_clause(readiness: &Readiness) -> (r: String)
    ensures
        r@ == model_text(*readiness),
{
    if readiness.model_judging {
        "model live".to_string()
    } else if readiness.model_attached() {
        "model down \u{2014} not judging".to_string()
    } else {
        "no model \u{2014} not judging".to_string()
    }
}

fn coverage_pct(readiness: &Readiness) -> (r: u8)
    ensures
        r == coverage_of(*readiness),
        r <= 100,
{
    let ghost q = |r: ReadinessRow| r.id@ != "arm-state"@;
    let v = &readiness.inputs;
    let mut total: usize = 0;
    let mut i: usize = 0;
    assert(v@.take(0).filter(q) =~= Seq::empty());
    while i < v.len()
        invariant
            i <= v.len(),
            total <= i,
            q == |r: ReadinessRow| r.id@ != "arm-state"@,
            total == v@.take(i as int).filter(q).len(),
        decreases v.len() - i,
    {
        broadcast use vstd::seq::Seq::lemma_filter_push;

        assert(v@.take(i + 1) =~= v@.take(i as int).push(v@[i as int]));
        if !text::same(v[i].id, "arm-state") {
            total += 1;
        }
        i += 1;
    }
    assert(v@.take(v@.len() as int) =~= v@);
    if total == 0 {
        return 0;
    }
    let unmet = readiness.unmet_count();
    proof {
        lemma_unmet(v@);
    }
    let met: usize = total - unmet;
    let share: u128 = (met as u128) * 100 / (total as u128);
    assert(share <= 100) by (nonlinear_arith)
        requires
            share == (met as int) * 100 / (total as int),
            met <= total,
            total > 0,
    ;
    share as u8
}

/// The exposed entries.
fn exposed_entries(findings: &[Finding]) -> (r: TextSet)
    ensures
        r.wf(),
        r@ == exposed(findings@, findings@.len() as int),
{
    let mut s = TextSet::new();
    let mut i: usize = 0;
    while i < findings.len()
        invariant
            i <= findings@.len(),
            s.wf(),
            s@ == exposed(findings@, i as int),
        decreases findings@.len() - i,
    {
        if findings[i].breach_relevant {
            s.insert(findings[i].entry.clone());
        }
        i += 1;
    }
    s
}

/// The posture of an entry.
fn entry_posture(findings: &[Finding], entry: &str) -> (r: Posture)
    ensures
        r == posture_of(findings@, entry@),
{
    let mut p = Posture::Awaiting;
    let mut i: usize = 0;
    while i < findings.len()
        invariant
            i <= findings@.len(),
            p == posture_at(findings@, entry@, i as int),
        decreases findings@.len() - i,
    {
        let f = &findings[i];
        if f.breach_relevant && text::same(f.entry.as_str(), entry) {
            p = max_posture(p, Posture::of_verdict(f.verdict.as_ref()));
        }
        i += 1;
    }
    p
}

/// Whether the model has a verdict on the entry.
fn has_verdict(findings: &[Finding], entry: &str) -> (r: bool)
    ensures
        r == is_judged(findings@, entry@),
{
    let mut i: usize = 0;
    while i < findings.len()
        invariant
            i <= findings@.len(),
            forall|k: int|
                0 <= k < i ==> !((#[trigger] findings@[k]).breach_relevant && findings@[k].entry@
                    == entry@ && findings@[k].verdict is Some),
        decreases findings@.len() - i,
    {
        let f = &findings[i];
        if f.breach_relevant && f.verdict.is_some() && text::same(f.entry.as_str(), entry) {
            assert(findings@[i as int].breach_relevant);
            return true;
        }
        i += 1;
    }
    false
}

/// The status line. `last_pass` is how many seconds ago the last pass was.
pub fn status_props(findings: &[Finding], last_pass: Option<u64>, readiness: &Readiness) -> (r: StatusProps)
    ensures
        shows_status(findings@, last_pass, *readiness, r),
{
    let keys = exposed_entries(findings);
    let ghost names = text::texts(keys.items@);
    proof {
        lemma_listed(names);
    }
    let ghost b = |e: Seq<char>| posture_of(findings@, e) == Posture::Breach;
    let ghost a = |e: Seq<char>| !is_judged(findings@, e);
    let mut breach: usize = 0;
    let mut awaiting: usize = 0;
    let mut i: usize = 0;
    assert(names.take(0).filter(b) =~= Seq::empty() && names.take(0).filter(a) =~= Seq::empty());
    while i < keys.items.len()
        invariant
            i <= keys.items.len(),
            names == text::texts(keys.items@),
            b == |e: Seq<char>| posture_of(findings@, e) == Posture::Breach,
            a == |e: Seq<char>| !is_judged(findings@, e),
            breach <= i,
            awaiting <= i,
            breach == names.take(i as int).filter(b).len(),
            awaiting == names.take(i as int).filter(a).len(),
        decreases keys.items.len() - i,
    {
        broadcast use vstd::seq::Seq::lemma_filter_push;

        assert(names[i as int] == keys.items@[i as int]@);
        assert(names.take(i + 1) =~= names.take(i as int).push(names[i as int]));
        let entry = keys.items[i].as_str();
        if entry_posture(findings, entry).is_breach() {
            breach += 1;
        }
        if !has_verdict(findings, entry) {
            awaiting += 1;
        }
        i += 1;
    }
    assert(names.take(names.len() as int) =~= names);
    assert(names.len() == keys.items@.len());
    let coverage = coverage_pct(readiness);
    let tone = if breach > 0 {
        StatusTone::Breach
    } else if !readiness.model_judging || coverage < 100 {
        StatusTone::Blind
    } else {
        StatusTone::Clear
    };
    StatusProps {
        tone,
        breach,
        endpoints: keys.items.len(),
        awaiting,
        model_clause: model_clause(readiness),
        pass_age: relative_time(last_pass),
        coverage_pct: coverage,
    }
}

// ---------------------------------------------------------------------------
// Laws
// ---------------------------------------------------------------------------

/// The line reads clear only with no breach, a model that judges, and every input met.
pub proof fn clear_is_honest(breach: int, readiness: Readiness)
    requires
        tone_of(breach, readiness) == StatusTone::Clear,
    ensures
        breach <= 0,
        readiness.model_judging,
        readiness.unmet() == 0,
{
    let t = inputs_total(readiness);
    let u = readiness.unmet();
    lemma_unmet(readiness.inputs@);
    assert(t > 0);
    assert(u == 0) by (nonlinear_arith)
        requires
            ((t - u) * 100) / t >= 100,
            t > 0,
            0 <= u <= t,
    ;
}

/// A model that is down never reads clear.
pub proof fn model_down_is_not_clear(breach: int, readiness: Readiness)
    requires
        !readiness.model_judging,
    ensures
        tone_of(breach, readiness) != StatusTone::Clear,
{
}

proof fn lemma_breach_at(findings: Seq<Finding>, entry: Seq<char>, n: int)
    requires
        0 <= n <= findings.len(),
        posture_at(findings, entry, n) == Posture::Breach,
    ensures
        is_judged(findings, entry),
    decreases n,
{
    if n > 0 {
        let f = findings[n - 1];
        if posture_at(findings, entry, n - 1) == Posture::Breach {
            lemma_breach_at(findings, entry, n - 1);
        } else {
            assert(findings[n - 1].breach_relevant);
        }
    }
}

/// A breach is the model's call: an entry that it has not reached is none.
pub proof fn breach_is_judged(findings: Seq<Finding>, entry: Seq<char>)
    requires
        posture_of(findings, entry) == Posture::Breach,
    ensures
        is_judged(findings, entry),
{
    lemma_breach_at(findings, entry, findings.len() as int);
}

} // verus!
