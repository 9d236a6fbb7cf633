//! What to do about a breach. What the model did not flag gets no advice: that a path is reachable
//! is no breach.

use crate::graph::{short_text, NodeKey};
use crate::state::{EndpointFinding, PathStep};
use crate::text;
use crate::view_model::endpoints::words::{auto_eligible, humanize_relation, relation_text, Posture};
use vstd::prelude::*;
use vstd::string::*;

verus! {

/// The dispositions whose cut arming would apply.
pub open spec fn is_armable(disposition: Seq<char>) -> bool {
    ||| disposition == auto_eligible()
    ||| disposition == "latent foothold \u{2014} propose"@
    ||| disposition == "structural \u{2014} propose"@
    ||| disposition == "vetoed \u{2014} propose"@
}

/// The next step in two words; a dash for what is no breach.
pub open spec fn lever_text(disposition: Seq<char>, posture: Posture) -> Seq<char> {
    if posture != Posture::Breach {
        "\u{2014}"@
    } else if is_armable(disposition) {
        "arm network"@
    } else if disposition == "durable-fix PR"@ {
        "permanent fix"@
    } else if disposition == "forbidden"@ {
        "fix by hand (escape)"@
    } else {
        "fix by hand"@
    }
}

fn armable(d: &str) -> (r: bool)
    ensures
        r == is_armable(d@),
{
    text::same(d, "auto-eligible") || text::same(d, "latent foothold \u{2014} propose")
        || text::same(d, "structural \u{2014} propose") || text::same(
        d,
        "vetoed \u{2014} propose",
    )
}

/// The next step in two words.
pub fn next_lever_tag(f: &EndpointFinding, posture: Posture) -> (r: &'static str)
    ensures
        r@ == lever_text(f.disposition@, posture),
{
    if posture != Posture::Breach {
        return "\u{2014}";
    }
    let d = f.disposition.as_str();
    if armable(d) {
        "arm network"
    } else if text::same(d, "durable-fix PR") {
        "permanent fix"
    } else if text::same(d, "forbidden") {
        "fix by hand (escape)"
    } else {
        "fix by hand"
    }
}

/// The last of the first `n` steps that leads to the node, or else the last step of the path.
pub open spec fn last_hop_to(path: Seq<PathStep>, to: Seq<char>, n: int) -> Option<PathStep>
    decreases n,
{
    if n <= 0 || n > path.len() {
        if path.len() == 0 {
            None
        } else {
            Some(path.last())
        }
    } else if path[n - 1].to@ == to {
        Some(path[n - 1])
    } else {
        last_hop_to(path, to, n - 1)
    }
}

/// The first step at or behind `i` that escapes to a host, or else the last step of the path.
pub open spec fn escape_hop(path: Seq<PathStep>, i: int) -> Option<PathStep>
    decreases path.len() - i,
{
    if i < 0 || i >= path.len() {
        if path.len() == 0 {
            None
        } else {
            Some(path.last())
        }
    } else if "escapes-to/"@.is_prefix_of(path[i].relation@) {
        Some(path[i])
    } else {
        escape_hop(path, i + 1)
    }
}

/// How to sever a path for good: revoke the grant or remove the mount that its last hop names.
pub open spec fn durable_text(f: EndpointFinding) -> Seq<char> {
    match last_hop_to(f.path@, f.objective@, f.path@.len() as int) {
        Some(step) => if "can-do/"@.is_prefix_of(step.relation@) {
            "Permanent fix: revoke the `"@ + step.relation@.skip("can-do/"@.len() as int)
                + "` RBAC grant from `"@ + short_text(step.from@) + "` (it reaches `"@ + short_text(
                step.to@,
            ) + "`) \u{2014} then protector re-checks next pass."@
        } else {
            "Permanent fix: remove the secret mount `"@ + short_text(step.to@) + "` from `"@
                + short_text(step.from@) + "` \u{2014} then protector re-checks next pass."@
        },
        None =>
            "Permanent fix: revoke the grant / remove the mount, then protector re-checks."@,
    }
}

/// How to remove the escape that blocks a path.
pub open spec fn escape_text(f: EndpointFinding) -> Seq<char> {
    match escape_hop(f.path@, 0) {
        Some(step) =>
            "Fix by hand \u{2014} the only cut is the irreversible escape primitive on `"@ + short_text(
            step.from@,
        ) + "` \u{2192} `"@ + short_text(step.to@) + "` ("@ + relation_text(step.relation@)
            + "); protector clears this finding on its own once that escape primitive is removed."@,
        None =>
            "Fix by hand \u{2014} the only cut is an irreversible escape primitive; protector clears this finding on its own once the escape primitive is removed."@,
    }
}

/// How to change the workload by hand.
pub open spec fn manual_text(f: EndpointFinding) -> Seq<char> {
    match last_hop_to(f.path@, f.objective@, f.path@.len() as int) {
        Some(step) => "No automatic fix \u{2014} change the `"@ + short_text(step.from@)
            + "` \u{2192} `"@ + short_text(step.to@) + "` hop ("@ + relation_text(step.relation@)
            + ") by hand; protector clears this finding on its own once that misconfig is gone."@,
        None =>
            "No automatic fix \u{2014} change the workload by hand; protector clears this finding on its own once the misconfig is gone."@,
    }
}

/// What to do about a finding; nothing for what is no breach.
pub open spec fn advice_text(f: EndpointFinding, posture: Posture) -> Option<Seq<char>> {
    if posture != Posture::Breach {
        None
    } else if is_armable(f.disposition@) {
        Some("would cut in shadow; arm `network` to act"@)
    } else if f.disposition@ == "durable-fix PR"@ {
        Some(durable_text(f))
    } else if f.disposition@ == "forbidden"@ {
        Some(escape_text(f))
    } else {
        Some(manual_text(f))
    }
}

/// The last step that leads to the node, or else the last step.
fn find_last_hop<'a>(path: &'a Vec<PathStep>, to: &str) -> (r: Option<&'a PathStep>)
    ensures
        r matches Some(s) ==> last_hop_to(path@, to@, path@.len() as int) == Some(*s),
        r is None ==> last_hop_to(path@, to@, path@.len() as int) is None,
{
    let mut n: usize = path.len();
    while n > 0
        invariant
            n <= path.len(),
            last_hop_to(path@, to@, path@.len() as int) == last_hop_to(path@, to@, n as int),
        decreases n,
    {
        if text::same(path[n - 1].to.as_str(), to) {
            return Some(&path[n - 1]);
        }
        n -= 1;
    }
    if path.len() == 0 {
        None
    } else {
        Some(&path[path.len() - 1])
    }
}

/// The first step that escapes to a host, or else the last step.
fn find_escape<'a>(path: &'a Vec<PathStep>) -> (r: Option<&'a PathStep>)
    ensures
        r matches Some(s) ==> escape_hop(path@, 0) == Some(*s),
        r is None ==> escape_hop(path@, 0) is None,
{
    let mut i: usize = 0;
    while i < path.len()
        invariant
            i <= path.len(),
            escape_hop(path@, 0) == escape_hop(path@, i as int),
        decreases path.len() - i,
    {
        if text::leads(path[i].relation.as_str(), "escapes-to/") {
            return Some(&path[i]);
        }
        i += 1;
    }
    if path.len() == 0 {
        None
    } else {
        Some(&path[path.len() - 1])
    }
}

fn durable_fix_todo(f: &EndpointFinding) -> (r: String)
    ensures
        r@ == durable_text(*f),
{
    match find_last_hop(&f.path, f.objective.as_str()) {
        Some(step) => {
            let secret = NodeKey::short_of(step.to.as_str());
            let workload = NodeKey::short_of(step.from.as_str());
            match text::without_prefix(step.relation.as_str(), "can-do/") {
                Some(rest) => "Permanent fix: revoke the `".to_string().concat(
                    rest.as_str(),
                ).concat("` RBAC grant from `").concat(workload).concat("` (it reaches `").concat(
                    secret,
                ).concat("`) \u{2014} then protector re-checks next pass."),
                None => "Permanent fix: remove the secret mount `".to_string().concat(
                    secret,
                ).concat("` from `").concat(workload).concat(
                    "` \u{2014} then protector re-checks next pass.",
                ),
            }
        },
        None => "Permanent fix: revoke the grant / remove the mount, then protector re-checks.".to_string(),
    }
}

fn escape_todo(f: &EndpointFinding) -> (r: String)
    ensures
        r@ == escape_text(*f),
{
    match find_escape(&f.path) {
        Some(step) =>
            "Fix by hand \u{2014} the only cut is the irreversible escape primitive on `".to_string().concat(
            NodeKey::short_of(step.from.as_str()),
        ).concat("` \u{2192} `").concat(NodeKey::short_of(step.to.as_str())).concat("` (").concat(
            humanize_relation(step.relation.as_str()).as_str(),
        ).concat(
            "); protector clears this finding on its own once that escape primitive is removed.",
        ),
        None =>
            "Fix by hand \u{2014} the only cut is an irreversible escape primitive; protector clears this finding on its own once the escape primitive is removed.".to_string(),
    }
}

fn manual_todo(f: &EndpointFinding) -> (r: String)
    ensures
        r@ == manual_text(*f),
{
    match find_last_hop(&f.path, f.objective.as_str()) {
        Some(step) => "No automatic fix \u{2014} change the `".to_string().concat(
            NodeKey::short_of(step.from.as_str()),
        ).concat("` \u{2192} `").concat(NodeKey::short_of(step.to.as_str())).concat(
            "` hop (",
        ).concat(humanize_relation(step.relation.as_str()).as_str()).concat(
            ") by hand; protector clears this finding on its own once that misconfig is gone.",
        ),
        None =>
            "No automatic fix \u{2014} change the workload by hand; protector clears this finding on its own once the misconfig is gone.".to_string(),
    }
}

/// What to do about a breach.
pub fn what_to_do(f: &EndpointFinding, posture: Posture) -> (r: Option<String>)
    ensures
        text::opt_text(r) == advice_text(*f, posture),
{
    if posture != Posture::Breach {
        return None;
    }
    let d = f.disposition.as_str();
    if armable(d) {
        Some("would cut in shadow; arm `network` to act".to_string())
    } else if text::same(d, "durable-fix PR") {
        Some(durable_fix_todo(f))
    } else if text::same(d, "forbidden") {
        Some(escape_todo(f))
    } else {
        Some(manual_todo(f))
    }
}

/// Advice is given exactly for a breach; anything else has neither advice nor a lever.
pub proof fn advice_is_for_breaches_only(f: EndpointFinding, posture: Posture)
    ensures
        advice_text(f, posture) is Some <==> posture == Posture::Breach,
        posture != Posture::Breach ==> lever_text(f.disposition@, posture) == "\u{2014}"@,
{
}

} // verus!
