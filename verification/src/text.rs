//! Text comparison for domain names.
//!
//! Contracts speak of texts as sequences of characters. The executable code
//! works on their UTF-8 bytes, and the lemmas of this module carry each
//! answer from the bytes back to the characters.

use vstd::prelude::*;
use vstd::string::*;
use vstd::utf8::*;

verus! {

/// The separator between the labels of a domain name.
pub open spec fn label_separator() -> char {
    '.'
}

/// `host` lies strictly below `entry` in the domain tree: it is longer than
/// `entry`, ends with `entry`, and the character just before that ending is
/// the label separator. So `a.example.org` lies below `example.org`, and
/// `notexample.org` does not.
pub open spec fn is_strict_subdomain(host: Seq<char>, entry: Seq<char>) -> bool {
    &&& host.len() > entry.len()
    &&& host[host.len() - entry.len() - 1] == label_separator()
    &&& host.subrange(host.len() - entry.len(), host.len() as int) == entry
}

/// `host` is covered by the subdomain entry `entry`: it is `entry` itself or
/// lies strictly below it.
pub open spec fn is_within_domain(host: Seq<char>, entry: Seq<char>) -> bool {
    host == entry || is_strict_subdomain(host, entry)
}

/// The byte-level form of `is_strict_subdomain`, over UTF-8 encodings.
pub open spec fn is_dotted_suffix(host: Seq<u8>, entry: Seq<u8>) -> bool {
    &&& host.len() > entry.len()
    &&& host[host.len() - entry.len() - 1] == 0x2e
    &&& host.subrange(host.len() - entry.len(), host.len() as int) == entry
}

/// Texts with the same UTF-8 encoding are the same text.
pub proof fn lemma_encoding_injective(a: Seq<char>, b: Seq<char>)
    requires
        encode_utf8(a) == encode_utf8(b),
    ensures
        a == b,
{
    encode_utf8_decode_utf8(a);
    encode_utf8_decode_utf8(b);
}

/// Encoding distributes over concatenation.
pub proof fn lemma_encoding_concat(a: Seq<char>, b: Seq<char>)
    ensures
        encode_utf8(a + b) == encode_utf8(a) + encode_utf8(b),
    decreases a.len(),
{
    if a.len() == 0 {
        assert(a + b =~= b);
        assert(encode_utf8(a) + encode_utf8(b) =~= encode_utf8(b));
    } else {
        assert((a + b).drop_first() =~= a.drop_first() + b);
        assert((a + b)[0] == a[0]);
        lemma_encoding_concat(a.drop_first(), b);
        assert(encode_utf8(a + b) =~= encode_utf8(a) + encode_utf8(b));
    }
}

/// The label separator is encoded as the single byte `0x2e`.
pub proof fn lemma_separator_encoding()
    ensures
        encode_utf8(seq![label_separator()]) == seq![0x2eu8],
{
    let s = seq![label_separator()];
    assert(s[0] as u32 == 0x2e);
    assert((0x2eu32 & 0x7f) as u8 == 0x2eu8) by (bit_vector);
    assert(s.drop_first() =~= Seq::<char>::empty());
    assert(encode_utf8(s.drop_first()) =~= Seq::<u8>::empty());
    assert(encode_utf8(s) =~= seq![0x2eu8]);
}

/// The byte-level test and the character-level definition agree.
pub proof fn lemma_dotted_suffix(host: Seq<char>, entry: Seq<char>)
    ensures
        is_dotted_suffix(encode_utf8(host), encode_utf8(entry)) == is_strict_subdomain(host, entry),
{
    let h = encode_utf8(host);
    let e = encode_utf8(entry);
    let dot = seq![label_separator()];
    lemma_separator_encoding();
    if is_strict_subdomain(host, entry) {
        let k = host.len() - entry.len();
        let prefix = host.subrange(0, k - 1);
        assert(host =~= prefix + dot + entry);
        lemma_encoding_concat(prefix + dot, entry);
        lemma_encoding_concat(prefix, dot);
        let p = encode_utf8(prefix);
        assert(h == p + seq![0x2eu8] + e);
        assert(h.len() == p.len() + 1 + e.len());
        assert(h[h.len() - e.len() - 1] == 0x2e);
        assert(h.subrange(h.len() - e.len(), h.len() as int) =~= e);
    }
    if is_dotted_suffix(h, e) {
        let k = h.len() - e.len();
        encode_utf8_valid_utf8(host);
        assert(!is_continuation_byte(h[k - 1]));
        is_char_boundary_iff_not_is_continuation_byte(h, k - 1);
        valid_utf8_split(h, k - 1);
        let p = h.subrange(0, k - 1);
        let prefix = decode_utf8(p);
        decode_utf8_encode_utf8(p);
        lemma_encoding_concat(prefix + dot, entry);
        lemma_encoding_concat(prefix, dot);
        assert(h =~= p + seq![0x2eu8] + e);
        lemma_encoding_injective(host, prefix + dot + entry);
        assert(host.len() == prefix.len() + 1 + entry.len());
        assert(host[host.len() - entry.len() - 1] == label_separator());
        assert(host.subrange(host.len() - entry.len(), host.len() as int) =~= entry);
    }
}

/// Whether two texts are equal.
pub fn str_eq(a: &str, b: &str) -> (r: bool)
    ensures
        r == (a@ == b@),
{
    let x = a.as_bytes();
    let y = b.as_bytes();
    if x.len() != y.len() {
        return false;
    }
    let mut i: usize = 0;
    while i < x.len()
        invariant
            x@ == encode_utf8(a@),
            y@ == encode_utf8(b@),
            x.len() == y.len(),
            i <= x.len(),
            forall|k: int| 0 <= k < i ==> x@[k] == y@[k],
        decreases x.len() - i,
    {
        if x[i] != y[i] {
            return false;
        }
        i += 1;
    }
    proof {
        assert(x@ =~= y@);
        lemma_encoding_injective(a@, b@);
    }
    true
}

/// Whether `host` lies strictly below `entry` in the domain tree.
pub fn strict_subdomain(host: &str, entry: &str) -> (r: bool)
    ensures
        r == is_strict_subdomain(host@, entry@),
{
    let h = host.as_bytes();
    let e = entry.as_bytes();
    proof {
        lemma_dotted_suffix(host@, entry@);
    }
    if h.len() <= e.len() {
        return false;
    }
    let start: usize = h.len() - e.len();
    if h[start - 1] != 0x2e {
        return false;
    }
    let mut i: usize = 0;
    while i < e.len()
        invariant
            h@ == encode_utf8(host@),
            e@ == encode_utf8(entry@),
            h.len() > e.len(),
            start == h.len() - e.len(),
            i <= e.len(),
            forall|k: int| 0 <= k < i ==> h@[start + k] == e@[k],
            is_dotted_suffix(h@, e@) == is_strict_subdomain(host@, entry@),
        decreases e.len() - i,
    {
        if h[start + i] != e[i] {
            assert(h@.subrange(start as int, h.len() as int)[i as int] != e@[i as int]);
            return false;
        }
        i += 1;
    }
    assert(h@.subrange(start as int, h.len() as int) =~= e@);
    true
}

/// Whether `host` is `entry` itself or lies strictly below it.
pub fn within_domain(host: &str, entry: &str) -> (r: bool)
    ensures
        r == is_within_domain(host@, entry@),
{
    str_eq(host, entry) || strict_subdomain(host, entry)
}

} // verus!
