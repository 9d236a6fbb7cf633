//! What keys, relations and references say of what they were made from.

use crate::graph::{
    image_key, name_text, namespace_text, short_text, AttackRef, CapabilityCatalogue, Relation,
    Severity, Vulnerability,
};
use crate::graph_laws::{is_segment, lemma_before_and_after, lemma_one_segment, lemma_segments};
use crate::image::{canonical_text, Parts};
use crate::state::PathStep;
use vstd::prelude::*;
use vstd::string::*;

verus! {

proof fn lemma_words()
    ensures
        "secret/"@ == "secret"@ + "/"@,
        "identity/"@ == "identity"@ + "/"@,
        "capability/"@ == "capability"@ + "/"@,
        "image/"@ == "image"@ + "/"@,
        is_segment("secret"@),
        is_segment("identity"@),
        is_segment("capability"@),
        is_segment("image"@),
        "secret"@ != "workload"@,
        "identity"@ != "workload"@,
        "capability"@ != "workload"@,
        "capability"@ != "secret"@,
        "capability"@ != "identity"@,
        "image"@ != "workload"@,
        "image"@ != "secret"@,
        "image"@ != "identity"@,
        "image"@ != "capability"@,
{
    reveal_strlit("/");
    reveal_strlit("secret/");
    reveal_strlit("secret");
    reveal_strlit("identity/");
    reveal_strlit("identity");
    reveal_strlit("capability/");
    reveal_strlit("capability");
    reveal_strlit("image/");
    reveal_strlit("image");
    reveal_strlit("workload");
    assert("secret/"@ =~= "secret"@ + "/"@);
    assert("identity/"@ =~= "identity"@ + "/"@);
    assert("capability/"@ =~= "capability"@ + "/"@);
    assert("image/"@ =~= "image"@ + "/"@);
    assert("secret"@[0] == 's' && "identity"@[0] == 'i' && "capability"@[0] == 'c' && "image"@[0] == 'i'
        && "workload"@[0] == 'w');
    assert("image"@.len() == 5 && "identity"@.len() == 8);
}

/// A secret's and an identity's key give back their namespace and name.
pub proof fn secret_and_identity_are_read_back(ns: Seq<char>, name: Seq<char>)
    requires
        is_segment(ns),
        is_segment(name),
    ensures
        namespace_text("secret/"@ + ns + "/"@ + name) == Some(ns),
        name_text("secret/"@ + ns + "/"@ + name) == Some(name),
        short_text("secret/"@ + ns + "/"@ + name) == ns + "/"@ + name,
        namespace_text("identity/"@ + ns + "/"@ + name) == Some(ns),
        name_text("identity/"@ + ns + "/"@ + name) == Some(name),
        short_text("identity/"@ + ns + "/"@ + name) == ns + "/"@ + name,
{
    lemma_words();
    let rest = ns + "/"@ + name;
    assert("secret/"@ + ns + "/"@ + name =~= "secret"@ + "/"@ + rest);
    assert("identity/"@ + ns + "/"@ + name =~= "identity"@ + "/"@ + rest);
    lemma_before_and_after("secret"@, rest);
    lemma_before_and_after("identity"@, rest);
    lemma_segments("secret"@, rest);
    lemma_segments("identity"@, rest);
    lemma_segments(ns, name);
    lemma_one_segment(name);
    let a = seq!["secret"@] + (seq![ns] + seq![name]);
    let b = seq!["identity"@] + (seq![ns] + seq![name]);
    assert(a.len() == 3 && a[1] == ns && a[2] == name);
    assert(b.len() == 3 && b[1] == ns && b[2] == name);
}

/// A capability's key gives back its scope and names no object; an image's has no namespace.
pub proof fn capability_and_image_are_read_back(
    scope: Seq<char>,
    verb: Seq<char>,
    resource: Seq<char>,
    digest: Seq<char>,
)
    requires
        is_segment(scope),
        is_segment(verb),
        is_segment(resource),
    ensures
        namespace_text("capability/"@ + scope + "/"@ + verb + "/"@ + resource) == Some(scope),
        name_text("capability/"@ + scope + "/"@ + verb + "/"@ + resource) is None,
        namespace_text(image_key(digest)) is None,
        name_text(image_key(digest)) is None,
        short_text(image_key(digest)) == digest,
{
    lemma_words();
    let tail = verb + "/"@ + resource;
    let rest = scope + "/"@ + tail;
    assert("capability/"@ + scope + "/"@ + verb + "/"@ + resource =~= "capability"@ + "/"@ + rest);
    lemma_before_and_after("capability"@, rest);
    lemma_segments("capability"@, rest);
    lemma_segments(scope, tail);
    lemma_segments(verb, resource);
    lemma_one_segment(resource);
    let a = seq!["capability"@] + (seq![scope] + (seq![verb] + seq![resource]));
    assert(a.len() == 4 && a[1] == scope);
    lemma_before_and_after("image"@, digest);
}

proof fn lemma_found(c: CapabilityCatalogue, verb: Seq<char>, resource: Seq<char>, i: int, k: int)
    requires
        0 <= i <= k < c.rows@.len(),
        c.rows@[k].0@ == verb && c.rows@[k].1@ == resource,
        forall|j: int|
            i <= j < k ==> !((#[trigger] c.rows@[j]).0@ == verb && c.rows@[j].1@ == resource),
    ensures
        c.found(verb, resource, i) == Some(c.rows@[k].2),
    decreases k - i,
{
    if i < k {
        assert(!(c.rows@[i].0@ == verb && c.rows@[i].1@ == resource));
        lemma_found(c, verb, resource, i + 1, k);
    }
}

/// The first row of the catalogue for a verb and a resource says what the power realizes, unless it
/// reads secrets, which is always access to credentials.
pub proof fn first_row_of_the_catalogue_counts(
    c: CapabilityCatalogue,
    verb: String,
    resource: String,
    k: int,
)
    requires
        0 <= k < c.rows@.len(),
        c.rows@[k].0@ == verb@ && c.rows@[k].1@ == resource@,
        forall|j: int|
            0 <= j < k ==> !((#[trigger] c.rows@[j]).0@ == verb@ && c.rows@[j].1@ == resource@),
    ensures
        (Relation::CanDo { verb, resource }).realizes(c) == (if resource@ == "secrets"@ && (verb@
            == "get"@ || verb@ == "list"@ || verb@ == "watch"@) {
            Some(AttackRef::UnsecuredCredentials)
        } else {
            Some(c.rows@[k].2)
        }),
{
    lemma_found(c, verb@, resource@, 0, k);
}

/// Reading a secret is access to credentials, an escape is an escape to the host, and egress is
/// exfiltration, whatever the catalogue says.
pub proof fn plain_steps_realize_their_technique(c: CapabilityCatalogue, via: String)
    ensures
        Relation::CanRead.realizes(c) == Some(AttackRef::UnsecuredCredentials),
        (Relation::EscapesTo { via }).realizes(c) == Some(AttackRef::EscapeToHost),
        (Relation::CanEgress { via }).realizes(c) == Some(AttackRef::Exfiltration),
{
}

/// The kind of a relation, by number.
pub open spec fn relation_kind(r: Relation) -> int {
    match r {
        Relation::Reaches { .. } => 0,
        Relation::CanDo { .. } => 1,
        Relation::CanRead => 2,
        Relation::EscapesTo { .. } => 3,
        Relation::CanEgress { .. } => 4,
        Relation::RunsAs => 5,
        Relation::RunsImage => 6,
        Relation::ScheduledOn => 7,
    }
}

proof fn lemma_label_starts(r: Relation)
    ensures
        r.label_text().len() >= 7,
        ({
            let l = r.label_text();
            match r {
                Relation::Reaches { .. } => l[0] == 'r' && l[1] == 'e',
                Relation::CanDo { .. } => l[0] == 'c' && l[4] == 'd',
                Relation::CanRead => l[0] == 'c' && l[4] == 'r',
                Relation::EscapesTo { .. } => l[0] == 'e',
                Relation::CanEgress { .. } => l[0] == 'c' && l[4] == 'e',
                Relation::RunsAs => l[0] == 'r' && l[1] == 'u' && l[5] == 'a',
                Relation::RunsImage => l[0] == 'r' && l[1] == 'u' && l[5] == 'i',
                Relation::ScheduledOn => l[0] == 's',
            }
        }),
{
    reveal_strlit("runs-as");
    reveal_strlit("runs-image");
    reveal_strlit("scheduled-on");
    reveal_strlit("reaches/");
    reveal_strlit("can-do/");
    reveal_strlit("can-read");
    reveal_strlit("escapes-to/");
    reveal_strlit("can-egress/");
    let l = r.label_text();
    match r {
        Relation::Reaches { port, protocol } => {
            assert(l[0] == "reaches/"@[0] && l[1] == "reaches/"@[1]);
        },
        Relation::CanDo { verb, resource } => {
            assert(l[0] == "can-do/"@[0] && l[4] == "can-do/"@[4]);
        },
        Relation::EscapesTo { via } => {
            assert(l[0] == "escapes-to/"@[0]);
        },
        Relation::CanEgress { via } => {
            assert(l[0] == "can-egress/"@[0] && l[4] == "can-egress/"@[4]);
        },
        _ => {},
    }
}

/// Relations of two kinds never share a label.
pub proof fn labels_tell_relations_apart(a: Relation, b: Relation)
    requires
        a.label_text() == b.label_text(),
    ensures
        relation_kind(a) == relation_kind(b),
{
    lemma_label_starts(a);
    lemma_label_starts(b);
}

/// A relation's label gives back what it is about: a power its verb and resource, an escape and an
/// egress their way.
pub proof fn labels_give_back_what_they_are_about(
    verb: String,
    resource: String,
    via: String,
)
    ensures
        (Relation::CanDo { verb, resource }).label_text() == "can-do/"@ + (verb@ + "/"@ + resource@),
        (Relation::EscapesTo { via }).label_text() == "escapes-to/"@ + via@,
        (Relation::CanEgress { via }).label_text() == "can-egress/"@ + via@,
{
    assert((Relation::CanDo { verb, resource }).label_text() =~= "can-do/"@ + (verb@ + "/"@
        + resource@));
}

/// Two steps with one signature are one step, where no text of them holds a space.
pub proof fn signature_pins_the_step(a: PathStep, b: PathStep)
    requires
        a.signature_text() == b.signature_text(),
        !a.from@.contains(' ') && !b.from@.contains(' '),
        !a.relation@.contains(']') && !b.relation@.contains(']'),
    ensures
        a.from@ == b.from@,
        a.relation@ == b.relation@,
        a.to@ == b.to@,
{
    reveal_strlit(" -[");
    reveal_strlit("]-> ");
    assert(" -["@[0] == ' ' && "]-> "@[0] == ']');
    let x = a.relation@ + "]-> "@ + a.to@;
    let y = b.relation@ + "]-> "@ + b.to@;
    assert(a.signature_text() =~= a.from@ + " -["@ + x);
    assert(b.signature_text() =~= b.from@ + " -["@ + y);
    crate::text_laws::comes_apart_in_front(a.from@, " -["@, x, 0);
    crate::text_laws::comes_apart_in_front(b.from@, " -["@, y, 0);
    crate::text_laws::comes_apart_in_front(a.relation@, "]-> "@, a.to@, 0);
    crate::text_laws::comes_apart_in_front(b.relation@, "]-> "@, b.to@, 0);
}

/// A vulnerability bears on a breach exactly where it is exploited or critical.
pub proof fn exploited_or_critical_bears(v: Vulnerability)
    ensures
        v.clears_bar() <==> v.exploited_in_wild || v.severity == Severity::Critical,
{
}

/// A reference is named by its registry and repository, then by its digest where there is one, else
/// by its tag, else as the latest.
pub proof fn digest_names_before_tag(p: Parts)
    ensures
        p.digest matches Some(d) ==> canonical_text(p) == p.registry + "/"@ + p.repository + "@"@ + d,
        p.digest is None && p.tag is Some ==> canonical_text(p) == p.registry + "/"@ + p.repository
            + ":"@ + p.tag->0,
        p.digest is None && p.tag is None ==> canonical_text(p) == p.registry + "/"@ + p.repository
            + ":latest"@,
{
}

} // verus!
