//! Stable ids for rows: a readable slug, and a hash of the full key that keeps apart what slugs
//! alike.

use crate::text;
use vstd::prelude::*;
use vstd::string::*;

verus! {

pub const FNV_OFFSET: u64 = 0xcbf2_9ce4_8422_2325;

pub const FNV_PRIME: u64 = 0x0000_0100_0000_01b3;

/// The 64-bit FNV-1a hash of the bytes.
pub open spec fn fnv1a(bytes: Seq<u8>) -> u64
    decreases bytes.len(),
{
    if bytes.len() == 0 {
        FNV_OFFSET
    } else {
        (fnv1a(bytes.drop_last()) ^ (bytes.last() as u64)).wrapping_mul(FNV_PRIME)
    }
}

/// The lower-case hexadecimal digit of a number below sixteen.
pub open spec fn hex_digit(d: int) -> char {
    if d < 10 {
        ((48 + d) as u32) as char
    } else {
        ((87 + d) as u32) as char
    }
}

/// The last `width` hexadecimal digits of `n`, with leading zeros.
pub open spec fn hex(n: nat, width: nat) -> Seq<char>
    decreases width,
{
    if width == 0 {
        Seq::empty()
    } else {
        hex(n / 16, (width - 1) as nat).push(hex_digit((n % 16) as int))
    }
}

/// The low half of the hash of a key, as eight hexadecimal digits.
pub open spec fn hash_text(key: Seq<char>) -> Seq<char> {
    hex((fnv1a(vstd::utf8::encode_utf8(key)) % 0x1_0000_0000) as nat, 8)
}

/// `<prefix>-<slug>-<hash>`.
pub open spec fn id_text(prefix: Seq<char>, key: Seq<char>) -> Seq<char> {
    prefix + "-"@ + text::slug(key) + "-"@ + hash_text(key)
}

/// `<prefix>-<slug>-<hash>`, the slug in lower case.
pub open spec fn signing_id_text(prefix: Seq<char>, key: Seq<char>) -> Seq<char> {
    prefix + "-"@ + text::lower(text::slug(key)) + "-"@ + hash_text(key)
}

fn hex_char(d: u64) -> (r: char)
    requires
        d < 16,
    ensures
        r == hex_digit(d as int),
{
    if d < 10 {
        (48 + d as u8) as char
    } else {
        (87 + d as u8) as char
    }
}

fn hex_number(n: u64, width: usize) -> (r: String)
    ensures
        r@ == hex(n as nat, width as nat),
    decreases width,
{
    if width == 0 {
        String::new()
    } else {
        let mut r = hex_number(n / 16, width - 1);
        r.push(hex_char(n % 16));
        r
    }
}

/// The low half of the FNV-1a hash of a key, as eight hexadecimal digits.
pub fn short_hash(s: &str) -> (r: String)
    ensures
        r@ == hash_text(s@),
{
    let bytes = s.as_bytes();
    let mut hash: u64 = FNV_OFFSET;
    let mut i: usize = 0;
    while i < bytes.len()
        invariant
            i <= bytes@.len(),
            bytes@ == vstd::utf8::encode_utf8(s@),
            hash == fnv1a(bytes@.take(i as int)),
        decreases bytes@.len() - i,
    {
        assert(bytes@.take(i + 1).drop_last() =~= bytes@.take(i as int));
        hash = (hash ^ (bytes[i] as u64)).wrapping_mul(FNV_PRIME);
        i += 1;
    }
    assert(bytes@.take(bytes@.len() as int) =~= bytes@);
    hex_number(hash % 0x1_0000_0000, 8)
}

/// `<prefix>-<slug>-<hash>` of a key.
pub fn row_id(prefix: &str, key: &str) -> (r: String)
    ensures
        r@ == id_text(prefix@, key@),
{
    prefix.to_string().concat("-").concat(text::slugged(key).as_str()).concat("-").concat(
        short_hash(key).as_str(),
    )
}

/// `<prefix>-<slug>-<hash>` of the key of a signing row, in lower case.
pub fn signing_dom_id(prefix: &str, key: &str) -> (r: String)
    ensures
        r@ == signing_id_text(prefix@, key@),
{
    let slug = text::slugged(key);
    prefix.to_string().concat("-").concat(text::lowered(slug.as_str()).as_str()).concat("-").concat(
        short_hash(key).as_str(),
    )
}

// ---------------------------------------------------------------------------
// Laws
// ---------------------------------------------------------------------------

/// A character that is safe in an id: an ASCII letter or digit, or a hyphen.
pub open spec fn is_safe(c: char) -> bool {
    text::is_alnum(c) || c == '-'
}

/// A lower-case letter, a digit or a hyphen.
pub open spec fn is_plain(c: char) -> bool {
    'a' <= c <= 'z' || '0' <= c <= '9' || c == '-'
}

proof fn lemma_hex(n: nat, width: nat)
    ensures
        hex(n, width).len() == width,
        forall|i: int| 0 <= i < width ==> is_plain(#[trigger] hex(n, width)[i]),
    decreases width,
{
    if width > 0 {
        lemma_hex(n / 16, (width - 1) as nat);
        let d = (n % 16) as int;
        assert(0 <= d < 16);
    }
}

/// An id with a safe prefix holds only letters, digits and hyphens, whatever the key holds.
pub proof fn ids_are_safe(prefix: Seq<char>, key: Seq<char>)
    requires
        forall|i: int| 0 <= i < prefix.len() ==> is_safe(#[trigger] prefix[i]),
    ensures
        forall|i: int|
            0 <= i < id_text(prefix, key).len() ==> is_safe(#[trigger] id_text(prefix, key)[i]),
{
    reveal_strlit("-");
    lemma_hex((fnv1a(vstd::utf8::encode_utf8(key)) % 0x1_0000_0000) as nat, 8);
    let s = text::slug(key);
    let id = id_text(prefix, key);
    let p = prefix.len() as int;
    let q = s.len() as int;
    assert forall|i: int| 0 <= i < id.len() implies is_safe(#[trigger] id[i]) by {
        if i < p {
            assert(id[i] == prefix[i]);
        } else if i == p {
            assert(id[i] == "-"@[0]);
        } else if i < p + 1 + q {
            assert(id[i] == s[i - p - 1]);
        } else if i == p + 1 + q {
            assert(id[i] == "-"@[0]);
        } else {
            assert(id[i] == hash_text(key)[i - p - q - 2]);
        }
    }
}

/// Two keys share an id exactly when both their slugs and their hashes are the same.
pub proof fn id_is_slug_and_hash(p: Seq<char>, a: Seq<char>, b: Seq<char>)
    ensures
        id_text(p, a) == id_text(p, b) <==> text::slug(a) == text::slug(b) && hash_text(a)
            == hash_text(b),
{
    lemma_hex((fnv1a(vstd::utf8::encode_utf8(a)) % 0x1_0000_0000) as nat, 8);
    lemma_hex((fnv1a(vstd::utf8::encode_utf8(b)) % 0x1_0000_0000) as nat, 8);
    let x = id_text(p, a);
    let y = id_text(p, b);
    if x == y {
        let n = x.len() as int;
        assert(x.skip(n - 8) =~= hash_text(a));
        assert(y.skip(n - 8) =~= hash_text(b));
        let k = (p.len() + "-"@.len()) as int;
        let m = n - 8 - "-"@.len();
        assert(x.subrange(k, m) =~= text::slug(a));
        assert(y.subrange(k, m) =~= text::slug(b));
    }
}

/// The id of a signing row holds only lower-case letters, digits and hyphens, whatever the key
/// holds, where its prefix does. It starts with the prefix and ends with the hash of the key.
pub proof fn signing_ids_are_plain(prefix: Seq<char>, key: Seq<char>)
    requires
        forall|i: int| 0 <= i < prefix.len() ==> is_plain(#[trigger] prefix[i]),
    ensures
        forall|i: int|
            0 <= i < signing_id_text(prefix, key).len() ==> is_plain(
                #[trigger] signing_id_text(prefix, key)[i],
            ),
        (prefix + "-"@).is_prefix_of(signing_id_text(prefix, key)),
        signing_id_text(prefix, key).skip(signing_id_text(prefix, key).len() - 9) == "-"@ + hash_text(
            key,
        ),
{
    reveal_strlit("-");
    lemma_hex((fnv1a(vstd::utf8::encode_utf8(key)) % 0x1_0000_0000) as nat, 8);
    let s = text::lower(text::slug(key));
    let id = signing_id_text(prefix, key);
    let p = prefix.len() as int;
    let q = s.len() as int;
    assert forall|i: int| 0 <= i < id.len() implies is_plain(#[trigger] id[i]) by {
        if i < p {
            assert(id[i] == prefix[i]);
        } else if i == p {
            assert(id[i] == "-"@[0]);
        } else if i < p + 1 + q {
            assert(id[i] == s[i - p - 1]);
            assert(s[i - p - 1] == text::ascii_lower(text::slug(key)[i - p - 1]));
        } else if i == p + 1 + q {
            assert(id[i] == "-"@[0]);
        } else {
            assert(id[i] == hash_text(key)[i - p - q - 2]);
        }
    }
    assert(id.take(p + 1) =~= prefix + "-"@);
    assert(id.skip(id.len() - 9) =~= "-"@ + hash_text(key));
}

/// Ids of signing rows with different prefixes of one length differ, whatever their keys: the row of
/// an image never shares an id with a banner of its repository.
pub proof fn prefixes_keep_apart(p: Seq<char>, q: Seq<char>, a: Seq<char>, b: Seq<char>)
    requires
        p.len() == q.len(),
        p != q,
    ensures
        signing_id_text(p, a) != signing_id_text(q, b),
{
    if signing_id_text(p, a) == signing_id_text(q, b) {
        assert(signing_id_text(p, a).take(p.len() as int) =~= p);
        assert(signing_id_text(q, b).take(q.len() as int) =~= q);
    }
}

} // verus!
