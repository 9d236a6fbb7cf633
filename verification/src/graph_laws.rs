//! What holds of the keys and relations of the security graph.

use crate::graph::{
    image_key, kind_text, name_text, namespace_text, segments, short_text, workload_key,
    CapabilityCatalogue, Image, Node, Relation, Workload,
};
use crate::text;
use vstd::prelude::*;
use vstd::string::*;

verus! {

// ---------------------------------------------------------------------------
// Keys and facts
// ---------------------------------------------------------------------------

/// A node keeps its key whatever is observed about it: images with one digest have one key.
pub proof fn image_key_ignores_facts(a: Image, b: Image)
    requires
        a.digest@ == b.digest@,
    ensures
        Node::Image(a).key_text() == Node::Image(b).key_text(),
{
}

/// A node keeps its key whatever is observed about it: workloads with one namespace, kind and name
/// have one key.
pub proof fn workload_key_ignores_facts(a: Workload, b: Workload)
    requires
        a.namespace@ == b.namespace@,
        a.kind@ == b.kind@,
        a.name@ == b.name@,
    ensures
        Node::Workload(a).key_text() == Node::Workload(b).key_text(),
{
}

/// The keys made without a node are those the nodes have.
pub proof fn constructors_match_keys(w: Workload, im: Image)
    ensures
        Node::Workload(w).key_text() == workload_key(w.namespace@, w.kind@, w.name@),
        Node::Image(im).key_text() == image_key(im.digest@),
{
}

// ---------------------------------------------------------------------------
// Segments
// ---------------------------------------------------------------------------

/// A text that is one segment of a key: no separator stands in it.
pub open spec fn is_segment(s: Seq<char>) -> bool {
    !s.contains('/')
}

proof fn lemma_slash()
    ensures
        "/"@ == seq!['/'],
{
    reveal_strlit("/");
    assert("/"@ =~= seq!['/']);
}

/// Where the separator stands, in characters.
proof fn lemma_slash_at(s: Seq<char>, i: int)
    requires
        0 <= i < s.len(),
    ensures
        text::occurs_at(s, "/"@, i) <==> s[i] == '/',
{
    lemma_slash();
    assert(s.subrange(i, i + 1) =~= seq![s[i]]);
    if s.subrange(i, i + 1) == "/"@ {
        assert(s.subrange(i, i + 1)[0] == "/"@[0]);
    }
}

proof fn lemma_find_slash_from(s: Seq<char>, i: int, n: int)
    requires
        0 <= i <= n < s.len(),
        forall|k: int| i <= k < n ==> #[trigger] s[k] != '/',
        s[n] == '/',
    ensures
        text::find_from(s, "/"@, i) == Some(n),
    decreases n - i,
{
    lemma_slash();
    lemma_slash_at(s, i);
    if i < n {
        lemma_find_slash_from(s, i + 1, n);
    }
}

/// The first separator behind a segment is the one that ends it.
proof fn lemma_find_slash(w: Seq<char>, rest: Seq<char>)
    requires
        is_segment(w),
    ensures
        text::find(w + "/"@ + rest, "/"@) == Some(w.len() as int),
{
    let s = w + "/"@ + rest;
    let n = w.len() as int;
    lemma_slash();
    assert forall|k: int| 0 <= k < n implies #[trigger] s[k] != '/' by {
        assert(s[k] == w[k]);
        assert(w.contains(w[k]));
    }
    assert(s[n] == '/');
    lemma_find_slash_from(s, 0, n);
}

/// A key comes apart behind its leading segment.
pub proof fn lemma_before_and_after(w: Seq<char>, rest: Seq<char>)
    requires
        is_segment(w),
    ensures
        kind_text(w + "/"@ + rest) == w,
        short_text(w + "/"@ + rest) == rest,
{
    let s = w + "/"@ + rest;
    lemma_slash();
    lemma_find_slash(w, rest);
    assert(s.take(w.len() as int) =~= w);
    assert(s.skip((w.len() + 1) as int) =~= rest);
}

proof fn lemma_split_shift(a: Seq<char>, b: Seq<char>, start: int, i: int)
    requires
        0 <= start <= i <= b.len(),
    ensures
        text::split_from(a + b, "/"@, a.len() + start, a.len() + i) == text::split_from(
            b,
            "/"@,
            start,
            i,
        ),
    decreases b.len() - i,
{
    lemma_slash();
    let s = a + b;
    assert(s.subrange(a.len() + start, s.len() as int) =~= b.subrange(start, b.len() as int));
    if i < b.len() {
        lemma_slash_at(s, a.len() + i);
        lemma_slash_at(b, i);
        assert(s[a.len() + i] == b[i]);
        if b[i] == '/' {
            assert(s.subrange(a.len() + start, a.len() + i) =~= b.subrange(start, i));
            lemma_split_shift(a, b, i + 1, i + 1);
        } else {
            lemma_split_shift(a, b, start, i + 1);
        }
    }
}

proof fn lemma_split_skip(s: Seq<char>, i: int, n: int)
    requires
        0 <= i <= n <= s.len(),
        forall|k: int| i <= k < n ==> #[trigger] s[k] != '/',
    ensures
        text::split_from(s, "/"@, 0, i) == text::split_from(s, "/"@, 0, n),
    decreases n - i,
{
    lemma_slash();
    if i < n {
        lemma_slash_at(s, i);
        lemma_split_skip(s, i + 1, n);
    }
}

/// A segment in front is the first of the segments.
pub proof fn lemma_segments(w: Seq<char>, rest: Seq<char>)
    requires
        is_segment(w),
    ensures
        segments(w + "/"@ + rest) == seq![w] + segments(rest),
{
    let s = w + "/"@ + rest;
    let n = w.len() as int;
    lemma_slash();
    assert forall|k: int| 0 <= k < n implies #[trigger] s[k] != '/' by {
        assert(s[k] == w[k]);
        assert(w.contains(w[k]));
    }
    lemma_split_skip(s, 0, n);
    lemma_slash_at(s, n);
    assert(s[n] == '/');
    assert(s.subrange(0, n) =~= w);
    lemma_split_shift(w + "/"@, rest, 0, 0);
    assert((w + "/"@) + rest =~= s);
}

/// A text without a separator is its own only segment.
pub proof fn lemma_one_segment(w: Seq<char>)
    requires
        is_segment(w),
    ensures
        segments(w) == seq![w],
{
    lemma_slash();
    assert forall|k: int| 0 <= k < w.len() implies #[trigger] w[k] != '/' by {
        assert(w.contains(w[k]));
    }
    lemma_split_skip(w, 0, w.len() as int);
    assert(w.subrange(0, w.len() as int) =~= w);
}

// ---------------------------------------------------------------------------
// Reading keys
// ---------------------------------------------------------------------------

/// The word for what a node is.
pub open spec fn kind_word(n: Node) -> Seq<char> {
    match n {
        Node::Workload(w) => "workload"@,
        Node::Identity(i) => "identity"@,
        Node::Secret(s) => "secret"@,
        Node::Endpoint(e) => "endpoint"@,
        Node::Image(im) => "image"@,
        Node::Host(h) => "host"@,
        Node::Capability(c) => "capability"@,
    }
}

proof fn lemma_kind_words()
    ensures
        "workload/"@ == "workload"@ + "/"@,
        "identity/"@ == "identity"@ + "/"@,
        "secret/"@ == "secret"@ + "/"@,
        "endpoint/"@ == "endpoint"@ + "/"@,
        "image/"@ == "image"@ + "/"@,
        "host/"@ == "host"@ + "/"@,
        "capability/"@ == "capability"@ + "/"@,
        is_segment("workload"@),
        is_segment("identity"@),
        is_segment("secret"@),
        is_segment("endpoint"@),
        is_segment("image"@),
        is_segment("host"@),
        is_segment("capability"@),
{
    lemma_slash();
    reveal_strlit("workload/");
    reveal_strlit("workload");
    reveal_strlit("identity/");
    reveal_strlit("identity");
    reveal_strlit("secret/");
    reveal_strlit("secret");
    reveal_strlit("endpoint/");
    reveal_strlit("endpoint");
    reveal_strlit("image/");
    reveal_strlit("image");
    reveal_strlit("host/");
    reveal_strlit("host");
    reveal_strlit("capability/");
    reveal_strlit("capability");
    assert("workload/"@ =~= "workload"@ + "/"@);
    assert("identity/"@ =~= "identity"@ + "/"@);
    assert("secret/"@ =~= "secret"@ + "/"@);
    assert("endpoint/"@ =~= "endpoint"@ + "/"@);
    assert("image/"@ =~= "image"@ + "/"@);
    assert("host/"@ =~= "host"@ + "/"@);
    assert("capability/"@ =~= "capability"@ + "/"@);
}

/// A key tells what its node is: its leading segment is the word for it.
pub proof fn keys_tell_their_kind(n: Node)
    ensures
        kind_text(n.key_text()) == kind_word(n),
{
    lemma_kind_words();
    match n {
        Node::Workload(w) => {
            let rest = w.namespace@ + "/"@ + w.kind@ + "/"@ + w.name@;
            assert(n.key_text() =~= "workload"@ + "/"@ + rest);
            lemma_before_and_after("workload"@, rest);
        },
        Node::Identity(i) => {
            let rest = i.namespace@ + "/"@ + i.name@;
            assert(n.key_text() =~= "identity"@ + "/"@ + rest);
            lemma_before_and_after("identity"@, rest);
        },
        Node::Secret(s) => {
            let rest = s.namespace@ + "/"@ + s.name@;
            assert(n.key_text() =~= "secret"@ + "/"@ + rest);
            lemma_before_and_after("secret"@, rest);
        },
        Node::Endpoint(e) => {
            lemma_before_and_after("endpoint"@, e.address@);
        },
        Node::Image(im) => {
            lemma_before_and_after("image"@, im.digest@);
        },
        Node::Host(h) => {
            lemma_before_and_after("host"@, h.name@);
        },
        Node::Capability(c) => {
            let rest = c.scope.label_text() + "/"@ + c.verb@ + "/"@ + c.resource@;
            assert(n.key_text() =~= "capability"@ + "/"@ + rest);
            lemma_before_and_after("capability"@, rest);
        },
    }
}

/// Nodes of two kinds never share a key.
pub proof fn kinds_never_share_a_key(a: Node, b: Node)
    requires
        a.key_text() == b.key_text(),
    ensures
        kind_word(a) == kind_word(b),
{
    keys_tell_their_kind(a);
    keys_tell_their_kind(b);
}

/// A workload's key gives back its namespace and name.
pub proof fn workload_is_read_back(namespace: Seq<char>, kind: Seq<char>, name: Seq<char>)
    requires
        is_segment(namespace),
        is_segment(kind),
        is_segment(name),
    ensures
        namespace_text(workload_key(namespace, kind, name)) == Some(namespace),
        name_text(workload_key(namespace, kind, name)) == Some(name),
        segments(workload_key(namespace, kind, name)) == seq!["workload"@, namespace, kind, name],
        short_text(workload_key(namespace, kind, name)) == namespace + "/"@ + kind + "/"@ + name,
{
    let key = workload_key(namespace, kind, name);
    let tail = kind + "/"@ + name;
    let rest = namespace + "/"@ + tail;
    lemma_kind_words();
    assert(key =~= "workload"@ + "/"@ + rest);
    assert(rest =~= namespace + "/"@ + kind + "/"@ + name);
    lemma_before_and_after("workload"@, rest);
    lemma_segments("workload"@, rest);
    lemma_segments(namespace, tail);
    lemma_segments(kind, name);
    lemma_one_segment(name);
    assert(segments(key) =~= seq!["workload"@, namespace, kind, name]);
}

/// Two workloads never share a key.
pub proof fn workloads_never_share_a_key(a: Workload, b: Workload)
    requires
        is_segment(a.namespace@),
        is_segment(a.kind@),
        is_segment(a.name@),
        is_segment(b.namespace@),
        is_segment(b.kind@),
        is_segment(b.name@),
        Node::Workload(a).key_text() == Node::Workload(b).key_text(),
    ensures
        a.namespace@ == b.namespace@,
        a.kind@ == b.kind@,
        a.name@ == b.name@,
{
    workload_is_read_back(a.namespace@, a.kind@, a.name@);
    workload_is_read_back(b.namespace@, b.kind@, b.name@);
    let x = seq!["workload"@, a.namespace@, a.kind@, a.name@];
    let y = seq!["workload"@, b.namespace@, b.kind@, b.name@];
    assert(x == y);
    assert(x[1] == y[1] && x[2] == y[2] && x[3] == y[3]);
}

/// Two images never share a key.
pub proof fn images_never_share_a_key(a: Image, b: Image)
    requires
        Node::Image(a).key_text() == Node::Image(b).key_text(),
    ensures
        a.digest@ == b.digest@,
{
    lemma_kind_words();
    lemma_before_and_after("image"@, a.digest@);
    lemma_before_and_after("image"@, b.digest@);
}

// ---------------------------------------------------------------------------
// Relations
// ---------------------------------------------------------------------------

/// The substrate that a chain is walked over is no attack step, and neither is reachability.
pub proof fn structural_is_no_attack_step(r: Relation, catalogue: CapabilityCatalogue)
    requires
        r.structural() || r is Reaches,
    ensures
        r.realizes(catalogue) is None,
{
}

} // verus!
