//! Session identity: stable hashes of the proxy configuration.
//!
//! Two runs point at the same remote session if they share a server URL, an
//! optional OAuth resource and the same set of custom headers. [`SessionHash`]
//! reduces these three to a short hash that is safe to print without leaking
//! secrets. [`CredentialKey`] leaves the headers out: it names stored tokens,
//! and those stay valid when request headers change.

use sha2::{Digest, Sha256};
use vstd::prelude::*;
use vstd::string::*;
use vstd::utf8::*;

use crate::headers::Headers;

verus! {

// ---------------------------------------------------------------------------
// Digests
// ---------------------------------------------------------------------------

/// The SHA-256 digest of `data`.
pub uninterp spec fn sha256_digest(data: Seq<u8>) -> Seq<u8>;

/// `sha2::Sha256::digest`. Claims that the digest depends on the data alone
/// and has 32 bytes.
#[verifier::external_body]
fn sha256(data: &[u8]) -> (r: Vec<u8>)
    ensures
        r@ == sha256_digest(data@),
        r@.len() == 32,
{
    Sha256::digest(data).to_vec()
}

/// The hexadecimal digit for a number below 16.
pub open spec fn hex_digit(n: int) -> char {
    if n < 10 {
        (48 + n) as char
    } else {
        (87 + n) as char
    }
}

/// `data` in lower-case hexadecimal, two digits for each byte.
pub open spec fn hex(data: Seq<u8>) -> Seq<char> {
    Seq::new(
        2 * data.len(),
        |i: int|
            hex_digit(
                if i % 2 == 0 {
                    data[i / 2] as int / 16
                } else {
                    data[i / 2] as int % 16
                },
            ),
    )
}

/// `hex::encode`. Claims that every byte gives two lower-case digits, the
/// higher half first.
#[verifier::external_body]
fn hex_text(data: &[u8]) -> (r: String)
    ensures
        r@ == hex(data@),
{
    hex::encode(data)
}

/// The first eight bytes of the digest of `data`, in hexadecimal.
pub open spec fn short_hash(data: Seq<u8>) -> Seq<char> {
    hex(sha256_digest(data).take(8))
}

/// Is `c` a lower-case hexadecimal digit?
pub open spec fn is_hex_digit(c: char) -> bool {
    '0' <= c <= '9' || 'a' <= c <= 'f'
}

/// Are these sixteen hexadecimal digits?
pub open spec fn is_short_hash(s: Seq<char>) -> bool {
    s.len() == 16 && forall|i: int| 0 <= i < s.len() ==> is_hex_digit(#[trigger] s[i])
}

/// The first eight bytes of a digest, in hexadecimal.
pub fn shortened(digest: &[u8]) -> (r: String)
    requires
        digest@.len() >= 8,
    ensures
        r@ == hex(digest@.take(8)),
        is_short_hash(r@),
{
    let mut head: Vec<u8> = Vec::new();
    let mut i: usize = 0;
    while i < 8
        invariant
            i <= 8,
            digest@.len() >= 8,
            head@ == digest@.take(i as int),
        decreases 8 - i,
    {
        head.push(digest[i]);
        i += 1;
        assert(digest@.take(i as int) =~= digest@.take(i - 1).push(digest@[i - 1]));
    }
    let r: String = hex_text(head.as_slice());
    assert forall|i: int| 0 <= i < r@.len() implies is_hex_digit(#[trigger] r@[i]) by {
        assert(0 <= head@[i / 2] as int / 16 < 16);
    }
    r
}

// ---------------------------------------------------------------------------
// What is hashed
// ---------------------------------------------------------------------------

/// One header as it is hashed: the name, a colon, the value, a line feed.
pub open spec fn line(entry: (Seq<char>, Seq<u8>)) -> Seq<u8> {
    encode_utf8(entry.0) + seq![58u8] + entry.1 + seq![10u8]
}

/// Headers as they are hashed, one line for each.
pub open spec fn lines(entries: Seq<(Seq<char>, Seq<u8>)>) -> Seq<u8>
    decreases entries.len(),
{
    if entries.len() == 0 {
        seq![]
    } else {
        line(entries[0]) + lines(entries.drop_first())
    }
}

/// Is `b` the bar or the backslash?
pub open spec fn is_special(b: u8) -> bool {
    b == 124 || b == 92
}

/// `data` with a backslash before each bar and each backslash, so that a bar
/// behind it can only be the end of it.
pub open spec fn escaped(data: Seq<u8>) -> Seq<u8>
    decreases data.len(),
{
    if data.len() == 0 {
        seq![]
    } else if is_special(data[0]) {
        seq![92u8, data[0]] + escaped(data.drop_first())
    } else {
        seq![data[0]] + escaped(data.drop_first())
    }
}

/// The bytes of an optional resource: none where there is no resource, and a
/// mark that nothing is escaped to, a backslash and a hyphen, where it is
/// empty.
pub open spec fn resource_bytes(resource: Option<Seq<char>>) -> Seq<u8> {
    match resource {
        Some(r) => if r.len() == 0 {
            seq![92u8, 45u8]
        } else {
            escaped(encode_utf8(r))
        },
        None => seq![],
    }
}

/// The bytes that stand for a configuration: the server URL, a bar, the
/// resource, a bar, the headers in the order of their names. Bars inside the
/// URL and the resource are escaped.
pub open spec fn identity(
    server_url: Seq<char>,
    resource: Option<Seq<char>>,
    entries: Seq<(Seq<char>, Seq<u8>)>,
) -> Seq<u8> {
    escaped(encode_utf8(server_url)) + seq![124u8] + resource_bytes(resource) + seq![124u8] + lines(
        entries,
    )
}

/// The session hash of a configuration.
pub open spec fn session_hash(
    server_url: Seq<char>,
    resource: Option<Seq<char>>,
    headers: Map<Seq<char>, Seq<u8>>,
) -> Seq<char> {
    short_hash(identity(server_url, resource, crate::headers::sorted_entries(headers)))
}

/// The credential key of a server URL and a resource.
pub open spec fn credential_key(server_url: Seq<char>, resource: Option<Seq<char>>) -> Seq<char> {
    short_hash(identity(server_url, resource, seq![]))
}

fn push_all(out: &mut Vec<u8>, more: &[u8])
    ensures
        final(out)@ == old(out)@ + more@,
{
    let mut i: usize = 0;
    while i < more.len()
        invariant
            i <= more.len(),
            out@ == old(out)@ + more@.take(i as int),
        decreases more.len() - i,
    {
        out.push(more[i]);
        i += 1;
        assert(more@.take(i as int) =~= more@.take(i - 1).push(more@[i - 1]));
        assert(out@ =~= old(out)@ + more@.take(i as int));
    }
    assert(more@.take(more@.len() as int) =~= more@);
}

/// Append `data`, escaped.
fn push_escaped(out: &mut Vec<u8>, data: &[u8])
    ensures
        final(out)@ == old(out)@ + escaped(data@),
{
    let mut i: usize = 0;
    assert(data@.skip(0) =~= data@);
    while i < data.len()
        invariant
            i <= data.len(),
            out@ + escaped(data@.skip(i as int)) == old(out)@ + escaped(data@),
        decreases data.len() - i,
    {
        let ghost before = out@;
        let ghost rest = data@.skip(i as int);
        let b: u8 = data[i];
        assert(rest[0] == b);
        assert(rest.drop_first() =~= data@.skip(i + 1));
        if b == 124 || b == 92 {
            out.push(92);
        }
        out.push(b);
        i += 1;
        assert(out@ + escaped(data@.skip(i as int)) =~= before + escaped(rest));
    }
    assert(out@ + escaped(data@.skip(i as int)) =~= out@);
}

/// The part of the identity before the headers.
fn identity_prefix(server_url: &str, resource: Option<&str>) -> (out: Vec<u8>)
    ensures
        out@ == escaped(encode_utf8(server_url@)) + seq![124u8] + resource_bytes(
            crate::text::opt_slice(resource),
        ) + seq![124u8],
{
    let mut out: Vec<u8> = Vec::new();
    push_escaped(&mut out, server_url.as_bytes());
    out.push(124);
    match resource {
        Some(r) => {
            if r.is_empty() {
                out.push(92);
                out.push(45);
            } else {
                push_escaped(&mut out, r.as_bytes());
            }
        },
        None => {},
    }
    out.push(124);
    assert(out@ =~= escaped(encode_utf8(server_url@)) + seq![124u8] + resource_bytes(
        crate::text::opt_slice(resource),
    ) + seq![124u8]);
    out
}

/// The bytes that stand for a configuration.
pub fn identity_bytes(server_url: &str, resource: Option<&str>, headers: &Headers) -> (out: Vec<u8>)
    ensures
        out@ == identity(
            server_url@,
            crate::text::opt_slice(resource),
            crate::headers::sorted_entries(headers.map()),
        ),
{
    proof {
        use_type_invariant(headers);
        crate::headers::lemma_sorted_entries(headers@);
    }
    let mut out: Vec<u8> = identity_prefix(server_url, resource);
    let ghost prefix = out@;
    let mut i: usize = 0;
    assert(headers@.skip(0) =~= headers@);
    assert(out@ + lines(headers@.skip(0)) =~= prefix + lines(headers@));
    while i < headers.len()
        invariant
            i <= headers@.len(),
            out@ + lines(headers@.skip(i as int)) == prefix + lines(headers@),
        decreases headers@.len() - i,
    {
        let ghost before = out@;
        let h = headers.at(i);
        push_all(&mut out, h.name.as_str().as_bytes());
        out.push(58);
        push_all(&mut out, h.value.as_slice());
        out.push(10);
        proof {
            let rest = headers@.skip(i as int);
            assert(rest[0] == headers@[i as int]);
            assert(out@ =~= before + line(rest[0]));
            assert(rest.drop_first() =~= headers@.skip(i + 1));
            assert(out@ + lines(headers@.skip(i + 1)) =~= before + lines(rest));
        }
        i += 1;
    }
    assert(out@ + lines(headers@.skip(i as int)) =~= out@);
    assert(out@ =~= identity(server_url@, crate::text::opt_slice(resource), headers@));
    out
}

// ---------------------------------------------------------------------------
// The hashes
// ---------------------------------------------------------------------------

/// A short, stable identifier for a server, a resource and a set of headers.
#[derive(Debug, Clone, PartialEq, Eq, Hash)]
pub struct SessionHash(String);

impl View for SessionHash {
    type V = Seq<char>;

    closed spec fn view(&self) -> Seq<char> {
        self.0@
    }
}

impl SessionHash {
    /// The hash for this combination of server, resource and headers.
    pub fn new(server_url: &str, resource: Option<&str>, headers: &Headers) -> (r: SessionHash)
        ensures
            r@ == session_hash(server_url@, crate::text::opt_slice(resource), headers.map()),
            is_short_hash(r@),
    {
        let bytes: Vec<u8> = identity_bytes(server_url, resource, headers);
        let digest: Vec<u8> = sha256(bytes.as_slice());
        SessionHash(shortened(digest.as_slice()))
    }

    /// The hash as text.
    pub fn as_str(&self) -> (r: &str)
        ensures
            r@ == self@,
    {
        self.0.as_str()
    }
}

/// A short, stable name for the credentials of a server and a resource.
#[derive(Debug, Clone, PartialEq, Eq, Hash)]
pub struct CredentialKey(String);

impl View for CredentialKey {
    type V = Seq<char>;

    closed spec fn view(&self) -> Seq<char> {
        self.0@
    }
}

impl CredentialKey {
    /// The key for this combination of server and resource.
    pub fn new(server_url: &str, resource: Option<&str>) -> (r: CredentialKey)
        ensures
            r@ == credential_key(server_url@, crate::text::opt_slice(resource)),
            is_short_hash(r@),
    {
        let bytes: Vec<u8> = identity_prefix(server_url, resource);
        assert(bytes@ =~= identity(server_url@, crate::text::opt_slice(resource), seq![]));
        let digest: Vec<u8> = sha256(bytes.as_slice());
        CredentialKey(shortened(digest.as_slice()))
    }

    /// The key as text.
    pub fn as_str(&self) -> (r: &str)
        ensures
            r@ == self@,
    {
        self.0.as_str()
    }
}

// ---------------------------------------------------------------------------
// Laws
// ---------------------------------------------------------------------------

/// The order in which headers are added does not matter.
pub proof fn law_header_order_does_not_matter(
    server_url: Seq<char>,
    resource: Option<Seq<char>>,
    headers: Map<Seq<char>, Seq<u8>>,
    name1: Seq<char>,
    value1: Seq<u8>,
    name2: Seq<char>,
    value2: Seq<u8>,
)
    requires
        name1 != name2,
    ensures
        session_hash(server_url, resource, headers.insert(name1, value1).insert(name2, value2))
            == session_hash(
            server_url,
            resource,
            headers.insert(name2, value2).insert(name1, value1),
        ),
{
    assert(headers.insert(name1, value1).insert(name2, value2) =~= headers.insert(
        name2,
        value2,
    ).insert(name1, value1));
}

/// Without headers the credential key is the session hash.
pub proof fn law_key_is_the_hash_without_headers(
    server_url: Seq<char>,
    resource: Option<Seq<char>>,
)
    ensures
        credential_key(server_url, resource) == session_hash(server_url, resource, Map::empty()),
{
    let none: Seq<(Seq<char>, Seq<u8>)> = seq![];
    assert(crate::headers::map_of(none) =~= Map::empty());
    crate::headers::lemma_sorted_entries(none);
}

proof fn lemma_utf8_injective(a: Seq<char>, b: Seq<char>)
    requires
        encode_utf8(a) == encode_utf8(b),
    ensures
        a == b,
{
    encode_utf8_decode_utf8(a);
    encode_utf8_decode_utf8(b);
}

/// Are all names and values of `entries` valid?
pub open spec fn are_valid(entries: Seq<(Seq<char>, Seq<u8>)>) -> bool {
    forall|i: int|
        0 <= i < entries.len() ==> crate::headers::is_header_name((#[trigger] entries[i]).0) && crate::headers::is_header_value(
            entries[i].1,
        )
}

proof fn lemma_name_bytes(name: Seq<char>)
    requires
        crate::headers::is_header_name(name),
    ensures
        encode_utf8(name).len() == name.len(),
        forall|i: int| 0 <= i < name.len() ==> #[trigger] encode_utf8(name)[i] != 58,
{
    assert(is_ascii_chars(name)) by {
        assert forall|i: int| 0 <= i < name.len() implies '\0' <= #[trigger] name[i]
            <= '\u{7f}' by {
            assert(crate::headers::is_name_char(name[i]));
        }
    }
    is_ascii_chars_encode_utf8(name);
    assert forall|i: int| 0 <= i < name.len() implies #[trigger] encode_utf8(name)[i] != 58 by {
        assert(crate::headers::is_name_char(name[i]));
    }
}

proof fn lemma_lines_injective(a: Seq<(Seq<char>, Seq<u8>)>, b: Seq<(Seq<char>, Seq<u8>)>)
    requires
        are_valid(a),
        are_valid(b),
        lines(a) == lines(b),
    ensures
        a == b,
    decreases a.len(),
{
    if a.len() == 0 || b.len() == 0 {
        if a.len() > 0 {
            assert(lines(a).len() > 0);
        }
        if b.len() > 0 {
            assert(lines(b).len() > 0);
        }
        assert(a =~= b);
    } else {
        let (n1, v1) = a[0];
        let (n2, v2) = b[0];
        let s = lines(a);
        let t = lines(b);
        lemma_name_bytes(n1);
        lemma_name_bytes(n2);
        let k1 = encode_utf8(n1).len() as int;
        let k2 = encode_utf8(n2).len() as int;
        assert(s[k1] == 58);
        assert(t[k2] == 58);
        if k1 < k2 {
            assert(t[k1] == encode_utf8(n2)[k1]);
        } else if k2 < k1 {
            assert(s[k2] == encode_utf8(n1)[k2]);
        }
        assert(encode_utf8(n1) =~= s.take(k1));
        assert(encode_utf8(n2) =~= t.take(k2));
        lemma_utf8_injective(n1, n2);
        let m1 = k1 + 1 + v1.len();
        let m2 = k2 + 1 + v2.len();
        assert(s[m1] == 10);
        assert(t[m2] == 10);
        if m1 < m2 {
            assert(t[m1] == v2[m1 - k2 - 1]);
        } else if m2 < m1 {
            assert(s[m2] == v1[m2 - k1 - 1]);
        }
        assert(v1 =~= s.subrange(k1 + 1, m1));
        assert(v2 =~= t.subrange(k2 + 1, m2));
        assert(lines(a.drop_first()) =~= s.skip(m1 + 1));
        assert(lines(b.drop_first()) =~= t.skip(m2 + 1));
        assert(are_valid(a.drop_first())) by {
            assert forall|i: int| 0 <= i < a.drop_first().len() implies crate::headers::is_header_name(
                (#[trigger] a.drop_first()[i]).0,
            ) && crate::headers::is_header_value(a.drop_first()[i].1) by {
                assert(a.drop_first()[i] == a[i + 1]);
            }
        }
        assert(are_valid(b.drop_first())) by {
            assert forall|i: int| 0 <= i < b.drop_first().len() implies crate::headers::is_header_name(
                (#[trigger] b.drop_first()[i]).0,
            ) && crate::headers::is_header_value(b.drop_first()[i].1) by {
                assert(b.drop_first()[i] == b[i + 1]);
            }
        }
        lemma_lines_injective(a.drop_first(), b.drop_first());
        assert(a =~= seq![a[0]] + a.drop_first());
        assert(b =~= seq![b[0]] + b.drop_first());
    }
}

/// What was escaped ends at the first bar that is not escaped.
proof fn lemma_escaped_ends(a: Seq<u8>, rest1: Seq<u8>, b: Seq<u8>, rest2: Seq<u8>)
    requires
        escaped(a) + seq![124u8] + rest1 == escaped(b) + seq![124u8] + rest2,
    ensures
        a == b,
        rest1 == rest2,
    decreases a.len(),
{
    let s = escaped(a) + seq![124u8] + rest1;
    let t = escaped(b) + seq![124u8] + rest2;
    if a.len() == 0 || b.len() == 0 {
        if a.len() > 0 {
            assert(s[0] == escaped(a)[0]);
            assert(t[0] == 124);
        }
        if b.len() > 0 {
            assert(t[0] == escaped(b)[0]);
            assert(s[0] == 124);
        }
        assert(a =~= b);
        assert(rest1 =~= s.skip(1));
        assert(rest2 =~= t.skip(1));
    } else {
        let a1 = a.drop_first();
        let b1 = b.drop_first();
        assert(s[0] == escaped(a)[0]);
        assert(t[0] == escaped(b)[0]);
        let n: int = if is_special(a[0]) {
            2
        } else {
            1
        };
        if is_special(a[0]) {
            assert(is_special(b[0]));
            assert(s[1] == escaped(a)[1]);
            assert(t[1] == escaped(b)[1]);
        }
        assert(a[0] == b[0]);
        assert(escaped(a1) + seq![124u8] + rest1 =~= s.skip(n));
        assert(escaped(b1) + seq![124u8] + rest2 =~= t.skip(n));
        lemma_escaped_ends(a1, rest1, b1, rest2);
        assert(a =~= seq![a[0]] + a1);
        assert(b =~= seq![b[0]] + b1);
    }
}

/// The mark of an empty resource is told from everything that is escaped.
proof fn lemma_mark_is_no_escape(rest1: Seq<u8>, b: Seq<u8>, rest2: Seq<u8>)
    ensures
        seq![92u8, 45u8] + seq![124u8] + rest1 != escaped(b) + seq![124u8] + rest2,
{
    let s = seq![92u8, 45u8] + seq![124u8] + rest1;
    let t = escaped(b) + seq![124u8] + rest2;
    assert(s[0] == 92 && s[1] == 45);
    if b.len() == 0 {
        assert(t[0] == 124);
    } else {
        assert(t[0] == escaped(b)[0]);
        if is_special(b[0]) {
            assert(t[1] == escaped(b)[1]);
        }
    }
}

proof fn lemma_resource_ends(
    resource1: Option<Seq<char>>,
    rest1: Seq<u8>,
    resource2: Option<Seq<char>>,
    rest2: Seq<u8>,
)
    requires
        resource_bytes(resource1) + seq![124u8] + rest1 == resource_bytes(resource2) + seq![124u8]
            + rest2,
    ensures
        resource1 == resource2,
        rest1 == rest2,
{
    let none = Seq::<char>::empty();
    let bytes1 = match resource1 {
        Some(r) => encode_utf8(r),
        None => seq![],
    };
    let bytes2 = match resource2 {
        Some(r) => encode_utf8(r),
        None => seq![],
    };
    let empty1 = resource1 matches Some(r) && r.len() == 0;
    let empty2 = resource2 matches Some(r) && r.len() == 0;
    if empty1 && empty2 {
        assert(resource1->0 =~= resource2->0);
        let s = resource_bytes(resource1) + seq![124u8] + rest1;
        let t = resource_bytes(resource2) + seq![124u8] + rest2;
        assert(rest1 =~= s.skip(3));
        assert(rest2 =~= t.skip(3));
    } else if empty1 {
        lemma_mark_is_no_escape(rest1, bytes2, rest2);
    } else if empty2 {
        lemma_mark_is_no_escape(rest2, bytes1, rest1);
    } else {
        assert(resource_bytes(resource1) =~= escaped(bytes1));
        assert(resource_bytes(resource2) =~= escaped(bytes2));
        lemma_escaped_ends(bytes1, rest1, bytes2, rest2);
        match (resource1, resource2) {
            (Some(x), Some(y)) => {
                lemma_utf8_injective(x, y);
            },
            (Some(x), None) => {
                assert(encode_utf8(none) =~= bytes1);
                lemma_utf8_injective(x, none);
            },
            (None, Some(y)) => {
                assert(encode_utf8(none) =~= bytes2);
                lemma_utf8_injective(y, none);
            },
            (None, None) => {},
        }
    }
}

/// Configurations that differ in the server URL, in the resource or in their
/// valid headers are hashed from different bytes.
pub proof fn law_identity_is_injective(
    url1: Seq<char>,
    url2: Seq<char>,
    resource1: Option<Seq<char>>,
    resource2: Option<Seq<char>>,
    entries1: Seq<(Seq<char>, Seq<u8>)>,
    entries2: Seq<(Seq<char>, Seq<u8>)>,
)
    requires
        are_valid(entries1),
        are_valid(entries2),
        identity(url1, resource1, entries1) == identity(url2, resource2, entries2),
    ensures
        url1 == url2,
        resource1 == resource2,
        entries1 == entries2,
{
    let tail1 = resource_bytes(resource1) + seq![124u8] + lines(entries1);
    let tail2 = resource_bytes(resource2) + seq![124u8] + lines(entries2);
    let u1 = encode_utf8(url1);
    let u2 = encode_utf8(url2);
    assert(escaped(u1) + seq![124u8] + tail1 =~= identity(url1, resource1, entries1));
    assert(escaped(u2) + seq![124u8] + tail2 =~= identity(url2, resource2, entries2));
    lemma_escaped_ends(u1, tail1, u2, tail2);
    lemma_utf8_injective(url1, url2);
    lemma_resource_ends(resource1, lines(entries1), resource2, lines(entries2));
    lemma_lines_injective(entries1, entries2);
}

/// Credential keys for different servers or resources are hashed from
/// different bytes.
pub proof fn law_credential_identity_is_injective(
    url1: Seq<char>,
    url2: Seq<char>,
    resource1: Option<Seq<char>>,
    resource2: Option<Seq<char>>,
)
    requires
        identity(url1, resource1, seq![]) == identity(url2, resource2, seq![]),
    ensures
        url1 == url2,
        resource1 == resource2,
{
    law_identity_is_injective(url1, url2, resource1, resource2, seq![], seq![]);
}

/// Do these bytes get the same short hash only where they are the same?
pub open spec fn do_not_collide(data1: Seq<u8>, data2: Seq<u8>) -> bool {
    short_hash(data1) == short_hash(data2) ==> data1 == data2
}

/// Two configurations are the same session if and only if they share the
/// server URL, the resource and the headers, collisions of the hash aside.
pub proof fn law_same_session_same_configuration(
    url1: Seq<char>,
    url2: Seq<char>,
    resource1: Option<Seq<char>>,
    resource2: Option<Seq<char>>,
    entries1: Seq<(Seq<char>, Seq<u8>)>,
    entries2: Seq<(Seq<char>, Seq<u8>)>,
)
    requires
        crate::headers::is_sorted(entries1),
        crate::headers::is_sorted(entries2),
        are_valid(entries1),
        are_valid(entries2),
        do_not_collide(
            identity(url1, resource1, entries1),
            identity(url2, resource2, entries2),
        ),
    ensures
        session_hash(url1, resource1, crate::headers::map_of(entries1)) == session_hash(
            url2,
            resource2,
            crate::headers::map_of(entries2),
        ) <==> url1 == url2 && resource1 == resource2 && crate::headers::map_of(entries1)
            == crate::headers::map_of(entries2),
{
    crate::headers::lemma_sorted_entries(entries1);
    crate::headers::lemma_sorted_entries(entries2);
    if identity(url1, resource1, entries1) == identity(url2, resource2, entries2) {
        law_identity_is_injective(url1, url2, resource1, resource2, entries1, entries2);
    }
}

/// Two configurations share stored credentials if and only if they share the
/// server URL and the resource, collisions of the hash aside.
pub proof fn law_same_key_same_server_and_resource(
    url1: Seq<char>,
    url2: Seq<char>,
    resource1: Option<Seq<char>>,
    resource2: Option<Seq<char>>,
)
    requires
        do_not_collide(
            identity(url1, resource1, seq![]),
            identity(url2, resource2, seq![]),
        ),
    ensures
        credential_key(url1, resource1) == credential_key(url2, resource2) <==> url1 == url2
            && resource1 == resource2,
{
    if identity(url1, resource1, seq![]) == identity(url2, resource2, seq![]) {
        law_credential_identity_is_injective(url1, url2, resource1, resource2);
    }
}

/// What is hashed, part by part: text without bars and backslashes stands for
/// itself, and each of those is preceded by a backslash; each header is a line
/// with its name, a colon and its value.
pub proof fn law_what_is_hashed(
    plain: Seq<u8>,
    special: u8,
    rest: Seq<u8>,
    before: Seq<(Seq<char>, Seq<u8>)>,
    name: Seq<char>,
    value: Seq<u8>,
    after: Seq<(Seq<char>, Seq<u8>)>,
)
    requires
        forall|i: int| 0 <= i < plain.len() ==> #[trigger] plain[i] != 124 && plain[i] != 92,
        special == 124 || special == 92,
    ensures
        escaped(plain) == plain,
        escaped(plain + seq![special] + rest) == plain + seq![92u8, special] + escaped(rest),
        lines(Seq::empty()) == Seq::<u8>::empty(),
        lines(before + seq![(name, value)] + after) == lines(before) + (encode_utf8(name)
            + seq![58u8] + value + seq![10u8]) + lines(after),
    decreases plain.len() + before.len(),
{
    let entry = (name, value);
    let all = before + seq![entry] + after;
    let text = plain + seq![special] + rest;
    if plain.len() > 0 {
        let p = plain.drop_first();
        assert forall|i: int| 0 <= i < p.len() implies #[trigger] p[i] != 124 && p[i] != 92 by {
            assert(p[i] == plain[i + 1]);
        }
        law_what_is_hashed(p, special, rest, before, name, value, after);
        assert(plain[0] != 124 && plain[0] != 92);
        assert(escaped(plain) =~= plain);
        assert(text[0] == plain[0]);
        assert(text.drop_first() =~= p + seq![special] + rest);
        assert(escaped(text) =~= plain + seq![92u8, special] + escaped(rest));
    } else {
        assert(escaped(plain) =~= plain);
        assert(text[0] == special);
        assert(text.drop_first() =~= rest);
        assert(escaped(text) =~= plain + seq![92u8, special] + escaped(rest));
        if before.len() > 0 {
            let b = before.drop_first();
            law_what_is_hashed(plain, special, rest, b, name, value, after);
            assert(all[0] == before[0]);
            assert(all.drop_first() =~= b + seq![entry] + after);
            assert(lines(all) =~= lines(before) + line(entry) + lines(after));
        } else {
            assert(all[0] == entry);
            assert(all.drop_first() =~= after);
            assert(lines(all) =~= lines(before) + line(entry) + lines(after));
        }
    }
}

/// The bytes of a configuration: URL, resource and headers with bars behind
/// the first two; no resource stands for nothing, and an empty one for a mark.
pub proof fn law_the_bytes_of_a_configuration(
    url: Seq<char>,
    resource: Seq<char>,
    entries: Seq<(Seq<char>, Seq<u8>)>,
)
    requires
        resource.len() > 0,
    ensures
        ({
            let head = escaped(encode_utf8(url)).push(124);
            &&& identity(url, None, entries) == head.push(124) + lines(entries)
            &&& identity(url, Some(Seq::empty()), entries) == head + seq![92u8, 45u8, 124u8]
                + lines(entries)
            &&& identity(url, Some(resource), entries) == head + escaped(
                encode_utf8(resource),
            ).push(124) + lines(entries)
            &&& credential_key(url, None) == short_hash(head.push(124))
            &&& credential_key(url, Some(resource)) == short_hash(
                head + escaped(encode_utf8(resource)).push(124),
            )
        }),
{
    let head = escaped(encode_utf8(url)).push(124);
    let r = escaped(encode_utf8(resource));
    let none: Seq<(Seq<char>, Seq<u8>)> = seq![];
    assert(identity(url, None, entries) =~= head.push(124) + lines(entries));
    assert(identity(url, Some(Seq::empty()), entries) =~= head + seq![92u8, 45u8, 124u8] + lines(
        entries,
    ));
    assert(identity(url, Some(resource), entries) =~= head + r.push(124) + lines(entries));
    assert(identity(url, None, none) =~= head.push(124));
    assert(identity(url, Some(resource), none) =~= head + r.push(124));
}

/// A short hash is the first eight bytes of the digest, each as two digits of
/// base sixteen.
pub proof fn law_short_hashes(data: Seq<u8>, i: int)
    requires
        sha256_digest(data).len() >= 8,
        0 <= i < 8,
    ensures
        short_hash(data).len() == 16,
        short_hash(data)[2 * i] == hex_digit(sha256_digest(data)[i] as int / 16),
        short_hash(data)[2 * i + 1] == hex_digit(sha256_digest(data)[i] as int % 16),
{
    assert((2 * i) / 2 == i && (2 * i) % 2 == 0);
    assert((2 * i + 1) / 2 == i && (2 * i + 1) % 2 == 1);
}

/// A session is told by its headers in the order of their names.
pub proof fn law_sessions_are_told_by_sorted_headers(
    url: Seq<char>,
    resource: Option<Seq<char>>,
    entries: Seq<(Seq<char>, Seq<u8>)>,
)
    requires
        crate::headers::is_sorted(entries),
    ensures
        session_hash(url, resource, crate::headers::map_of(entries)) == short_hash(
            identity(url, resource, entries),
        ),
{
    crate::headers::lemma_sorted_entries(entries);
}

} // verus!
