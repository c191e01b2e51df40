use vstd::prelude::*;
use sha2::Digest;

verus! {

/// The SHA-256 digest of a byte sequence. The digest is a pure function of
/// the input bytes, but its value is fixed by the outside implementation and
/// is not stated here; contracts speak of it only through this name.
pub uninterp spec fn sha256_of(input: Seq<u8>) -> Seq<u8>;

/// Relies on sha2::Sha256 through digest::Digest::digest: the digest depends
/// on the input bytes alone and is 32 bytes long (Sha256's output size).
#[verifier::external_body]
fn sha256(input: &[u8]) -> (r: Vec<u8>)
    ensures
        r@ == sha256_of(input@),
        r@.len() == 32,
{
    sha2::Sha256::digest(input).to_vec()
}

/// Relies on String::from_utf8: a vector of bytes below 128 is valid ASCII,
/// hence valid UTF-8, and decodes to exactly one character per byte, each
/// with the byte's code point.
#[verifier::external_body]
pub(crate) fn ascii_to_string(bytes: Vec<u8>) -> (r: String)
    requires
        forall|i: int| 0 <= i < bytes@.len() ==> bytes@[i] < 128,
    ensures
        r@ == bytes@.map_values(|b: u8| b as char),
{
    match String::from_utf8(bytes) {
        Ok(s) => s,
        Err(_) => String::new(),
    }
}

/// The byte that writes a value below 16 as a lowercase hexadecimal digit.
pub open spec fn hex_digit(v: u8) -> u8
    recommends
        v < 16,
{
    if v < 10 {
        (0x30 + v) as u8
    } else {
        (0x57 + v) as u8
    }
}

/// Two lowercase hexadecimal digits for each byte, in order.
pub open spec fn hex_bytes(s: Seq<u8>) -> Seq<u8>
    decreases s.len(),
{
    if s.len() == 0 {
        Seq::empty()
    } else {
        hex_bytes(s.drop_last()) + seq![hex_digit(s.last() / 16), hex_digit(s.last() % 16)]
    }
}

proof fn lemma_hex_bytes_props(s: Seq<u8>)
    ensures
        hex_bytes(s).len() == 2 * s.len(),
        forall|i: int| 0 <= i < hex_bytes(s).len() ==> #[trigger] hex_bytes(s)[i] < 128,
    decreases s.len(),
{
    if s.len() > 0 {
        lemma_hex_bytes_props(s.drop_last());
    }
}

pub(crate) fn hex_digit_of(v: u8) -> (r: u8)
    requires
        v < 16,
    ensures
        r == hex_digit(v),
{
    if v < 10 {
        0x30 + v
    } else {
        0x57 + v
    }
}

/// Renders a digest as its lowercase hexadecimal bytes.
fn hex_of(digest: &[u8]) -> (r: Vec<u8>)
    ensures
        r@ == hex_bytes(digest@),
{
    let mut out: Vec<u8> = Vec::new();
    let mut i: usize = 0;
    while i < digest.len()
        invariant
            i <= digest@.len(),
            out@ == hex_bytes(digest@.take(i as int)),
        decreases digest@.len() - i,
    {
        let b = digest[i];
        out.push(hex_digit_of(b / 16));
        out.push(hex_digit_of(b % 16));
        proof {
            let t = digest@.take(i + 1);
            assert(t.drop_last() =~= digest@.take(i as int));
            assert(t.last() == digest@[i as int]);
            assert(out@ =~= hex_bytes(digest@.take(i + 1)));
        }
        i = i + 1;
    }
    proof {
        assert(digest@.take(digest@.len() as int) =~= digest@);
    }
    out
}

/// The SHA-256 digest of `input`, written as 64 lowercase hexadecimal
/// characters.
pub open spec fn sha256_hex_of(input: Seq<u8>) -> Seq<char> {
    hex_bytes(sha256_of(input)).map_values(|b: u8| b as char)
}

/// Computes the SHA-256 digest of `input`, rendered as lowercase hex bytes.
pub(crate) fn sha256_hex_vec(input: &[u8]) -> (r: Vec<u8>)
    ensures
        r@ == hex_bytes(sha256_of(input@)),
        r@.len() == 64,
        forall|i: int| 0 <= i < r@.len() ==> r@[i] < 128,
{
    let digest = sha256(input);
    let r = hex_of(digest.as_slice());
    proof {
        lemma_hex_bytes_props(digest@);
    }
    r
}

/// Computes the SHA-256 digest of `input` and renders it in lowercase hex.
pub(crate) fn sha256_hex(input: &[u8]) -> (r: String)
    ensures
        r@ == sha256_hex_of(input@),
        r@.len() == 64,
{
    let hx = sha256_hex_vec(input);
    ascii_to_string(hx)
}

/// Does `bs` begin with `d` ASCII `'0'` bytes?
pub(crate) fn has_zero_prefix(bs: &[u8], d: usize) -> (r: bool)
    ensures
        r == (d <= bs@.len() && forall|i: int| 0 <= i < d ==> bs@[i] == 0x30),
{
    if d > bs.len() {
        return false;
    }
    let mut i: usize = 0;
    while i < d
        invariant
            i <= d,
            d <= bs@.len(),
            forall|j: int| 0 <= j < i ==> bs@[j] == 0x30,
        decreases d - i,
    {
        if bs[i] != 0x30 {
            proof {
                assert(bs@[i as int] != 0x30);
            }
            return false;
        }
        i = i + 1;
    }
    true
}

/// The leading-zero test on rendered characters agrees with the same test
/// on the underlying hexadecimal bytes.
pub(crate) proof fn lemma_zeros_chars(bs: Seq<u8>, d: int)
    ensures
        crate::leading_zeros_ok(bs.map_values(|b: u8| b as char), d) <==> (d <= bs.len()
            && forall|i: int| 0 <= i < d ==> bs[i] == 0x30),
{
    let cs = bs.map_values(|b: u8| b as char);
    assert(cs.len() == bs.len());
    assert forall|i: int| 0 <= i < bs.len() implies (cs[i] == '0' <==> bs[i] == 0x30) by {
        assert(cs[i] == bs[i] as char);
    }
}

/// Characters rendered from bytes below 128 are ASCII.
proof fn lemma_cast_chars_ascii(bs: Seq<u8>)
    requires
        forall|i: int| 0 <= i < bs.len() ==> bs[i] < 128,
    ensures
        vstd::utf8::is_ascii_chars(bs.map_values(|b: u8| b as char)),
{
    let cs = bs.map_values(|b: u8| b as char);
    assert forall|i: int| 0 <= i < cs.len() implies '\0' <= #[trigger] cs[i] <= '\u{7f}' by {
        assert(cs[i] == bs[i] as char);
    }
}

/// A rendered digest is an ASCII string.
pub(crate) proof fn lemma_digest_ascii(input: Seq<u8>)
    ensures
        vstd::utf8::is_ascii_chars(sha256_hex_of(input)),
{
    lemma_hex_bytes_props(sha256_of(input));
    lemma_cast_chars_ascii(hex_bytes(sha256_of(input)));
}

/// Does the ASCII string `s` begin with `d` `'0'` characters?
pub(crate) fn str_leading_zeros(s: &str, d: usize) -> (r: bool)
    requires
        vstd::utf8::is_ascii_chars(s@),
    ensures
        r == crate::leading_zeros_ok(s@, d as int),
{
    proof {
        vstd::utf8::is_ascii_chars_encode_utf8(s@);
        vstd::utf8::is_ascii_chars_nat_bound(s@);
    }
    let bs = s.as_bytes();
    let r = has_zero_prefix(bs, d);
    proof {
        assert forall|i: int| 0 <= i < s@.len() implies (bs@[i] == 0x30 <==> s@[i] == '0') by {
            assert(bs@[i] == s@[i] as u8);
            assert((s@[i] as nat) < 128);
        }
    }
    r
}

} // verus!
