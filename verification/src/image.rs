//! Image references in canonical form.

use crate::text;
use sigstore::registry::OciReference;
use vstd::prelude::*;
use vstd::string::*;

verus! {

/// The parts of an image reference.
#[derive(Debug, Clone, PartialEq, Eq)]
pub struct ImageParts {
    pub registry: String,
    pub repository: String,
    pub digest: Option<String>,
    pub tag: Option<String>,
}

/// The parts of an image reference, in characters.
pub struct Parts {
    pub registry: Seq<char>,
    pub repository: Seq<char>,
    pub digest: Option<Seq<char>>,
    pub tag: Option<Seq<char>>,
}

impl View for ImageParts {
    type V = Parts;

    open spec fn view(&self) -> Parts {
        Parts {
            registry: self.registry@,
            repository: self.repository@,
            digest: text::opt_text(self.digest),
            tag: text::opt_text(self.tag),
        }
    }
}

/// The parts of a reference, where there is one, in characters.
pub open spec fn opt_parts(p: Option<ImageParts>) -> Option<Parts> {
    match p {
        Some(parts) => Some(parts@),
        None => None,
    }
}

/// What parsing a text as an [`OciReference`] gives: its parts, or nothing where the text is no
/// reference.
pub uninterp spec fn parsed_reference(reference: Seq<char>) -> Option<Parts>;

/// A reference without any path, such as `nginx:alpine`: an official image of Docker Hub.
pub open spec fn is_official(reference: Seq<char>) -> bool {
    !reference.contains('/')
}

/// A lower-case letter or a digit.
pub open spec fn is_plain(c: char) -> bool {
    'a' <= c <= 'z' || '0' <= c <= '9'
}

/// A reference that starts with an organization of Docker Hub, such as `acme-labs/app:1`: letters,
/// digits, hyphens and underscores that name no host.
pub open spec fn is_organization(reference: Seq<char>) -> bool {
    exists|n: int|
        #![trigger reference[n]]
        {
            &&& 0 < n < reference.len()
            &&& reference[n] == '/'
            &&& reference.take(n) != "localhost"@
            &&& forall|i: int|
                0 <= i < n ==> is_plain(#[trigger] reference[i]) || reference[i] == '-'
                    || reference[i] == '_'
        }
}

/// A reference that starts with a host other than Docker Hub's: what stands before the first slash
/// holds a dot or a colon, or is `localhost`.
pub open spec fn has_own_host(reference: Seq<char>) -> bool {
    let host = text::before(reference, "/"@);
    &&& reference.contains('/')
    &&& host.contains('.') || host.contains(':') || host == "localhost"@
    &&& host != "docker.io"@
    &&& host != "index.docker.io"@
}

/// A reference as its parts write it: the tag behind a colon and the digest behind an at sign, where
/// there are any.
pub open spec fn written(p: Parts) -> Seq<char> {
    let base = p.registry + "/"@ + p.repository;
    let tagged = match p.tag {
        Some(t) => base + ":"@ + t,
        None => base,
    };
    match p.digest {
        Some(d) => tagged + "@"@ + d,
        None => tagged,
    }
}

/// The parts are those that the reference writes down. Where it has neither a tag nor a digest, the
/// tag is the latest.
pub open spec fn is_as_written(reference: Seq<char>, p: Parts) -> bool {
    &&& p.registry == text::before(reference, "/"@)
    &&& !p.repository.contains(':')
    &&& !p.repository.contains('@')
    &&& written(p) == reference || (p.digest is None && p.tag == Some("latest"@) && p.registry + "/"@
        + p.repository == reference)
}

/// Letters, digits and hyphens in runs that `sep` separates: it starts and ends with a letter or
/// digit, and so does each run.
pub open spec fn is_run(s: Seq<char>, sep: char) -> bool {
    &&& s.len() > 0
    &&& is_plain(s[0])
    &&& is_plain(s.last())
    &&& forall|i: int|
        0 <= i < s.len() ==> is_plain(#[trigger] s[i]) || s[i] == '-' || (s[i] == sep && is_plain(
            s[i - 1],
        ) && is_plain(s[i + 1]))
}

/// A tag: at most 128 ASCII letters, digits, underscores, dots and hyphens, and neither of the last
/// two in front.
pub open spec fn is_tag(t: Seq<char>) -> bool {
    &&& 0 < t.len() <= 128
    &&& text::is_alnum(t[0]) || t[0] == '_'
    &&& forall|i: int|
        0 <= i < t.len() ==> text::is_alnum(#[trigger] t[i]) || t[i] == '_' || t[i] == '.' || t[i]
            == '-'
}

/// A SHA-256 digest in hexadecimal.
pub open spec fn is_sha256(d: Seq<char>) -> bool {
    &&& d.len() == 71
    &&& d.take(7) == "sha256:"@
    &&& forall|i: int|
        7 <= i < 71 ==> '0' <= #[trigger] d[i] <= '9' || 'a' <= d[i] <= 'f' || 'A' <= d[i] <= 'F'
}

/// `<name>:<tag>`, an official image of Docker Hub.
pub open spec fn is_official_tag(reference: Seq<char>, name: Seq<char>, tag: Seq<char>) -> bool {
    reference == name + ":"@ + tag && is_run(name, '-') && name.len() <= 247 && is_tag(tag)
}

/// `<name>@<digest>`, an official image of Docker Hub.
pub open spec fn is_official_digest(reference: Seq<char>, name: Seq<char>, digest: Seq<char>) -> bool {
    reference == name + "@"@ + digest && is_run(name, '-') && name.len() <= 247 && is_sha256(digest)
}

/// `<host>/<path>:<tag>`, an image of another registry.
pub open spec fn is_hosted_tag(
    reference: Seq<char>,
    host: Seq<char>,
    path: Seq<char>,
    tag: Seq<char>,
) -> bool {
    &&& reference == host + "/"@ + path + ":"@ + tag
    &&& is_run(host, '.')
    &&& host.contains('.')
    &&& host != "docker.io"@
    &&& host != "index.docker.io"@
    &&& is_run(path, '/')
    &&& path.len() <= 255
    &&& is_tag(tag)
}

/// References in these three forms parse, and into these parts.
pub open spec fn reads_plain_forms(reference: Seq<char>, r: Option<Parts>) -> bool {
    &&& forall|name: Seq<char>, tag: Seq<char>| #[trigger]
        is_official_tag(reference, name, tag) ==> r == Some(
            Parts {
                registry: "docker.io"@,
                repository: "library/"@ + name,
                digest: None,
                tag: Some(tag),
            },
        )
    &&& forall|name: Seq<char>, digest: Seq<char>| #[trigger]
        is_official_digest(reference, name, digest) ==> r == Some(
            Parts {
                registry: "docker.io"@,
                repository: "library/"@ + name,
                digest: Some(digest),
                tag: None,
            },
        )
    &&& forall|host: Seq<char>, path: Seq<char>, tag: Seq<char>| #[trigger]
        is_hosted_tag(reference, host, path, tag) ==> r == Some(
            Parts { registry: host, repository: path, digest: None, tag: Some(tag) },
        )
}

/// `str::parse::<OciReference>`, with the parts read by `OciReference::registry`, `repository`,
/// `digest` and `tag`. The result depends on the text alone. How a text is taken apart is not
/// stated in general. These things are: a reference that parses has a digest or a tag; an official
/// image of Docker Hub parses as it does with its registry and `library` written out; an image of
/// one of its organizations parses as it does with its registry written out; a reference with a host
/// of its own has the parts that it writes down; and plain references with a tag or a digest parse,
/// and into which parts. Docker Hub's registry has two names, `docker.io` and `index.docker.io`.
#[verifier::external_body]
fn parse_reference(reference: &str) -> (r: Option<ImageParts>)
    ensures
        opt_parts(r) == parsed_reference(reference@),
        r matches Some(p) ==> p@.digest is Some || p@.tag is Some,
        is_official(reference@) ==> opt_parts(r) == parsed_reference(
            "docker.io/library/"@ + reference@,
        ) && opt_parts(r) == parsed_reference("index.docker.io/library/"@ + reference@),
        is_organization(reference@) ==> opt_parts(r) == parsed_reference(
            "docker.io/"@ + reference@,
        ) && opt_parts(r) == parsed_reference("index.docker.io/"@ + reference@),
        r matches Some(p) ==> has_own_host(reference@) ==> is_as_written(reference@, p@),
        reads_plain_forms(reference@, opt_parts(r)),
{
    match reference.parse::<OciReference>() {
        Ok(r) => Some(
            ImageParts {
                registry: r.registry().to_string(),
                repository: r.repository().to_string(),
                digest: r.digest().map(|d| d.to_string()),
                tag: r.tag().map(|t| t.to_string()),
            },
        ),
        Err(_) => None,
    }
}

/// A reference by its parts: by digest where there is one, else by tag, else by the latest tag.
pub open spec fn canonical_text(p: Parts) -> Seq<char> {
    let base = p.registry + "/"@ + p.repository;
    match p.digest {
        Some(d) => base + "@"@ + d,
        None => match p.tag {
            Some(t) => base + ":"@ + t,
            None => base + ":latest"@,
        },
    }
}

/// The canonical form of a reference that was taken apart.
pub fn canonical_of(p: &ImageParts) -> (r: String)
    ensures
        r@ == canonical_text(p@),
{
    let base = p.registry.clone().concat("/").concat(p.repository.as_str());
    match &p.digest {
        Some(d) => base.concat("@").concat(d.as_str()),
        None => match &p.tag {
            Some(t) => base.concat(":").concat(t.as_str()),
            None => base.concat(":latest"),
        },
    }
}

/// The canonical form of a text: that of its parts, or the text itself where it is no reference.
pub open spec fn canonical_name(reference: Seq<char>) -> Seq<char> {
    match parsed_reference(reference) {
        Some(p) => canonical_text(p),
        None => reference,
    }
}

/// The canonical form of an image reference, so that one image has one key however it is written: a
/// pod's short reference and a scanner's full one of the same image on Docker Hub come to the same.
/// A text that is no reference stays as it is.
pub fn canonical_image(reference: &str) -> (r: String)
    ensures
        r@ == canonical_name(reference@),
        parsed_reference(reference@) is Some && is_official(reference@) ==> r@ == canonical_name(
            "docker.io/library/"@ + reference@,
        ) && r@ == canonical_name("index.docker.io/library/"@ + reference@),
        parsed_reference(reference@) is Some && is_organization(reference@) ==> r@
            == canonical_name("docker.io/"@ + reference@) && r@ == canonical_name(
            "index.docker.io/"@ + reference@,
        ),
        parsed_reference(reference@) matches Some(p) ==> has_own_host(reference@) ==> is_as_written(
            reference@,
            p,
        ),
        parsed_reference(reference@) is Some && has_own_host(reference@) && is_tagged(reference@)
            ==> r@ == reference@,
        forall|name: Seq<char>, tag: Seq<char>| #[trigger]
            is_official_tag(reference@, name, tag) ==> r@ == "docker.io/"@ + ("library/"@ + name)
                + ":"@ + tag,
        forall|name: Seq<char>, digest: Seq<char>| #[trigger]
            is_official_digest(reference@, name, digest) ==> r@ == "docker.io/"@ + ("library/"@
                + name) + "@"@ + digest,
        forall|host: Seq<char>, path: Seq<char>, tag: Seq<char>| #[trigger]
            is_hosted_tag(reference@, host, path, tag) ==> r@ == reference@,
{
    proof {
        reveal_strlit("docker.io");
        reveal_strlit("docker.io/");
        reveal_strlit("/");
        assert("docker.io"@ + "/"@ =~= "docker.io/"@);
    }
    match parse_reference(reference) {
        Some(p) => {
            proof {
                if has_own_host(reference@) && is_tagged(reference@) {
                    tagged_reference_stays(reference@, p@);
                }
            }
            canonical_of(&p)
        },
        None => reference.to_string(),
    }
}

/// A tag stands in the reference and no digest: a colon behind the first slash, and no at sign.
pub open spec fn is_tagged(reference: Seq<char>) -> bool {
    text::after(reference, "/"@).contains(':') && !reference.contains('@')
}

/// A reference with a host of its own and a tag comes back as it was written.
pub proof fn tagged_reference_stays(reference: Seq<char>, p: Parts)
    requires
        has_own_host(reference),
        is_tagged(reference),
        is_as_written(reference, p),
        p.digest is Some || p.tag is Some,
    ensures
        canonical_text(p) == reference,
{
    reveal_strlit("/");
    reveal_strlit("@");
    let base = p.registry + "/"@ + p.repository;
    match p.digest {
        Some(d) => {
            let n = written(p).len() - d.len() - 1;
            assert(written(p)[n] == '@');
            assert(reference[n] == '@');
        },
        None => {
            if written(p) != reference {
                text::lemma_find_from(reference, "/"@, 0);
                let k = text::find(reference, "/"@);
                match k {
                    Some(k) => {
                        assert(p.registry == reference.take(k));
                        assert(reference.skip(k + 1) =~= p.repository);
                    },
                    None => {
                        let m = reference.index_of('/');
                        assert(reference.subrange(m, m + 1) =~= "/"@);
                        assert(text::occurs_at(reference, "/"@, m));
                    },
                }
            }
        },
    }
}

/// A digest pins an image: references with one registry, repository and digest have one canonical
/// form, whatever their tags.
pub proof fn digest_pins_identity(a: Parts, b: Parts)
    requires
        a.registry == b.registry,
        a.repository == b.repository,
        a.digest is Some,
        a.digest == b.digest,
    ensures
        canonical_text(a) == canonical_text(b),
{
}

/// Where neither has a digest, different tags keep two references of one repository apart.
pub proof fn tags_keep_apart(a: Parts, b: Parts)
    requires
        a.registry == b.registry,
        a.repository == b.repository,
        a.digest is None,
        b.digest is None,
        a.tag is Some,
        b.tag is Some,
        a.tag != b.tag,
    ensures
        canonical_text(a) != canonical_text(b),
{
    let base = a.registry + "/"@ + a.repository + ":"@;
    let ta = a.tag.unwrap();
    let tb = b.tag.unwrap();
    if canonical_text(a) == canonical_text(b) {
        assert((base + ta).skip(base.len() as int) =~= ta);
        assert((base + tb).skip(base.len() as int) =~= tb);
    }
}

} // verus!
