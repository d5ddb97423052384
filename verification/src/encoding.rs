//! Base64 text encoding (RFC 4648) of byte strings, and UTF-8 decoding of
//! byte strings into text.
use vstd::prelude::*;
use vstd::utf8::*;
use base64::Engine;

verus! {

/// The symbol that stands for the 6-bit value `v` in the standard alphabet
/// (`+`, `/`) or in the URL-safe one (`-`, `_`).
pub open spec fn base64_symbol(url_safe: bool, v: int) -> char {
    if v < 26 {
        (65 + v) as char
    } else if v < 52 {
        (97 + (v - 26)) as char
    } else if v < 62 {
        (48 + (v - 52)) as char
    } else if v == 62 {
        if url_safe { '-' } else { '+' }
    } else {
        if url_safe { '_' } else { '/' }
    }
}

/// Base64 encoding of `bytes`: each group of three bytes becomes four
/// symbols; a last group of one or two bytes becomes two or three symbols,
/// followed by `=` up to four when `pad` is set.
pub open spec fn base64_encode(bytes: Seq<u8>, url_safe: bool, pad: bool) -> Seq<char>
    decreases bytes.len(),
{
    if bytes.len() == 0 {
        seq![]
    } else if bytes.len() == 1 {
        let b0 = bytes[0] as int;
        seq![base64_symbol(url_safe, b0 / 4), base64_symbol(url_safe, (b0 % 4) * 16)]
            + if pad { seq!['=', '='] } else { seq![] }
    } else if bytes.len() == 2 {
        let b0 = bytes[0] as int;
        let b1 = bytes[1] as int;
        seq![
            base64_symbol(url_safe, b0 / 4),
            base64_symbol(url_safe, (b0 % 4) * 16 + b1 / 16),
            base64_symbol(url_safe, (b1 % 16) * 4),
        ] + if pad { seq!['='] } else { seq![] }
    } else {
        let b0 = bytes[0] as int;
        let b1 = bytes[1] as int;
        let b2 = bytes[2] as int;
        seq![
            base64_symbol(url_safe, b0 / 4),
            base64_symbol(url_safe, (b0 % 4) * 16 + b1 / 16),
            base64_symbol(url_safe, (b1 % 16) * 4 + b2 / 64),
            base64_symbol(url_safe, b2 % 64),
        ] + base64_encode(bytes.subrange(3, bytes.len() as int), url_safe, pad)
    }
}

/// Number of symbols in the base64 encoding of `n` bytes.
pub open spec fn base64_encoded_len(n: nat, pad: bool) -> nat {
    if n % 3 == 0 {
        4 * (n / 3)
    } else if pad {
        4 * (n / 3) + 4
    } else {
        4 * (n / 3) + (n % 3) + 1
    }
}

/// The length of the encoding of `n` bytes fits in a `usize`.
pub open spec fn base64_len_fits(n: nat, pad: bool) -> bool {
    base64_encoded_len(n, pad) <= usize::MAX
}

pub proof fn lemma_base64_encode_len(bytes: Seq<u8>, url_safe: bool, pad: bool)
    ensures
        base64_encode(bytes, url_safe, pad).len() == base64_encoded_len(bytes.len(), pad),
    decreases bytes.len(),
{
    if bytes.len() >= 3 {
        lemma_base64_encode_len(bytes.subrange(3, bytes.len() as int), url_safe, pad);
    }
}

proof fn lemma_symbol_injective(url_safe: bool, a: int, b: int)
    requires
        0 <= a < 64,
        0 <= b < 64,
        base64_symbol(url_safe, a) == base64_symbol(url_safe, b),
    ensures
        a == b,
{
}

/// Different byte strings have different unpadded encodings.
pub proof fn lemma_base64_encode_injective(a: Seq<u8>, b: Seq<u8>, url_safe: bool)
    requires
        base64_encode(a, url_safe, false) == base64_encode(b, url_safe, false),
    ensures
        a == b,
    decreases a.len(),
{
    let ea = base64_encode(a, url_safe, false);
    let eb = base64_encode(b, url_safe, false);
    lemma_base64_encode_len(a, url_safe, false);
    lemma_base64_encode_len(b, url_safe, false);
    assert(a.len() == b.len());
    if a.len() == 0 {
        assert(a =~= b);
    } else if a.len() == 1 {
        let (a0, b0) = (a[0] as int, b[0] as int);
        assert(ea[0] == eb[0]);
        assert(ea[1] == eb[1]);
        lemma_symbol_injective(url_safe, a0 / 4, b0 / 4);
        lemma_symbol_injective(url_safe, (a0 % 4) * 16, (b0 % 4) * 16);
        assert(a =~= b);
    } else if a.len() == 2 {
        let (a0, b0, a1, b1) = (a[0] as int, b[0] as int, a[1] as int, b[1] as int);
        assert(ea[0] == eb[0]);
        assert(ea[1] == eb[1]);
        assert(ea[2] == eb[2]);
        lemma_symbol_injective(url_safe, a0 / 4, b0 / 4);
        lemma_symbol_injective(url_safe, (a0 % 4) * 16 + a1 / 16, (b0 % 4) * 16 + b1 / 16);
        lemma_symbol_injective(url_safe, (a1 % 16) * 4, (b1 % 16) * 4);
        assert(a =~= b);
    } else {
        let (a0, b0, a1, b1, a2, b2) = (
            a[0] as int,
            b[0] as int,
            a[1] as int,
            b[1] as int,
            a[2] as int,
            b[2] as int,
        );
        assert(ea[0] == eb[0]);
        assert(ea[1] == eb[1]);
        assert(ea[2] == eb[2]);
        assert(ea[3] == eb[3]);
        lemma_symbol_injective(url_safe, a0 / 4, b0 / 4);
        lemma_symbol_injective(url_safe, (a0 % 4) * 16 + a1 / 16, (b0 % 4) * 16 + b1 / 16);
        lemma_symbol_injective(url_safe, (a1 % 16) * 4 + a2 / 64, (b1 % 16) * 4 + b2 / 64);
        lemma_symbol_injective(url_safe, a2 % 64, b2 % 64);
        let ra = a.subrange(3, a.len() as int);
        let rb = b.subrange(3, b.len() as int);
        assert(ea.subrange(4, ea.len() as int) =~= base64_encode(ra, url_safe, false));
        assert(eb.subrange(4, eb.len() as int) =~= base64_encode(rb, url_safe, false));
        lemma_base64_encode_injective(ra, rb, url_safe);
        assert(a =~= b) by {
            assert forall|i: int| 0 <= i < a.len() implies a[i] == b[i] by {
                if i >= 3 {
                    assert(a[i] == ra[i - 3]);
                    assert(b[i] == rb[i - 3]);
                }
            }
        }
    }
}

/// The bytes decoded from `text` by base64 with the URL-safe alphabet and no
/// padding: the bytes whose encoding is `text`, or `None` where `text` is no
/// such encoding.
pub open spec fn base64_url_decoding(text: Seq<char>) -> Option<Seq<u8>> {
    if exists|b: Seq<u8>| #[trigger] base64_encode(b, true, false) == text {
        Some(choose|b: Seq<u8>| #[trigger] base64_encode(b, true, false) == text)
    } else {
        None
    }
}

/// Decoding gives back the bytes that were encoded.
pub proof fn lemma_base64_url_decoding(b: Seq<u8>)
    ensures
        base64_url_decoding(base64_encode(b, true, false)) == Some(b),
{
    let text = base64_encode(b, true, false);
    assert(exists|c: Seq<u8>| #[trigger] base64_encode(c, true, false) == text);
    let c = choose|c: Seq<u8>| #[trigger] base64_encode(c, true, false) == text;
    lemma_base64_encode_injective(c, b, true);
}

/// The UTF-8 encoding of joined text is the join of the encodings.
pub proof fn lemma_encode_utf8_concat(a: Seq<char>, b: Seq<char>)
    ensures
        encode_utf8(a + b) == encode_utf8(a) + encode_utf8(b),
    decreases a.len(),
{
    if a.len() == 0 {
        assert(a + b =~= b);
        assert(encode_utf8(a) + encode_utf8(b) =~= encode_utf8(b));
    } else {
        assert((a + b).drop_first() =~= a.drop_first() + b);
        assert((a + b)[0] == a[0]);
        lemma_encode_utf8_concat(a.drop_first(), b);
        assert(encode_utf8(a + b) =~= encode_utf8(a) + encode_utf8(b));
    }
}

/// Each character takes at most four bytes in UTF-8.
pub proof fn lemma_encode_utf8_len(a: Seq<char>)
    ensures
        encode_utf8(a).len() <= 4 * a.len(),
    decreases a.len(),
{
    if a.len() > 0 {
        lemma_encode_utf8_len(a.drop_first());
    }
}

/// Encoding more bytes takes no fewer symbols.
pub proof fn lemma_base64_len_monotone(m: nat, n: nat, pad: bool)
    requires
        m <= n,
    ensures
        base64_encoded_len(m, pad) <= base64_encoded_len(n, pad),
{
}

/// `base64::engine::general_purpose::URL_SAFE_NO_PAD.encode`: the URL-safe
/// encoding of `bytes`, without padding. The crate panics where the length of
/// the output overflows `usize`; `requires` leaves that out.
#[verifier::external_body]
pub(crate) fn encode_url_safe_no_pad(bytes: &[u8]) -> (text: String)
    requires
        base64_len_fits(bytes@.len(), false),
    ensures
        text@ == base64_encode(bytes@, true, false),
{
    base64::engine::general_purpose::URL_SAFE_NO_PAD.encode(bytes)
}

/// `base64::engine::general_purpose::STANDARD.encode`: the standard encoding
/// of `bytes`, with padding. The crate panics where the length of the output
/// overflows `usize`; `requires` leaves that out.
#[verifier::external_body]
pub(crate) fn encode_standard(bytes: &[u8]) -> (text: String)
    requires
        base64_len_fits(bytes@.len(), true),
    ensures
        text@ == base64_encode(bytes@, false, true),
{
    base64::engine::general_purpose::STANDARD.encode(bytes)
}

/// The error type of base64 decoding.
#[verifier::external_type_specification]
#[verifier::external_body]
pub struct ExDecodeError(base64::DecodeError);

/// `base64::engine::general_purpose::URL_SAFE_NO_PAD.decode`: the engine
/// requires no padding and canonical trailing bits, so it decodes exactly the
/// texts that are the URL-safe unpadded encoding of some bytes, and gives
/// those bytes. Which error comes out is not stated.
#[verifier::external_body]
pub(crate) fn decode_url_safe_no_pad(text: &str) -> (r: Result<Vec<u8>, base64::DecodeError>)
    ensures
        r is Ok <==> exists|b: Seq<u8>| #[trigger] base64_encode(b, true, false) == text@,
        r matches Ok(bytes) ==> base64_encode(bytes@, true, false) == text@,
{
    base64::engine::general_purpose::URL_SAFE_NO_PAD.decode(text)
}

/// Decodes `text` from URL-safe unpadded base64, where it is such an
/// encoding.
pub(crate) fn decode_base64_url(text: &str) -> (r: Result<Vec<u8>, base64::DecodeError>)
    ensures
        r is Ok <==> base64_url_decoding(text@) is Some,
        r matches Ok(bytes) ==> base64_url_decoding(text@) == Some(bytes@),
{
    let r = decode_url_safe_no_pad(text);
    proof {
        if r is Ok {
            lemma_base64_url_decoding(r->Ok_0@);
        }
    }
    r
}

/// `ToString::to_string` on a base64 decoding error: some description of it.
#[verifier::external_body]
pub(crate) fn decode_error_text(e: &base64::DecodeError) -> (text: String) {
    e.to_string()
}

/// `String::from_utf8`: succeeds exactly on valid UTF-8, with the characters
/// that the bytes encode.
#[verifier::external_body]
pub(crate) fn string_from_utf8(bytes: Vec<u8>) -> (r: Option<String>)
    ensures
        r is Some <==> valid_utf8(bytes@),
        r matches Some(s) ==> s@ == decode_utf8(bytes@),
{
    String::from_utf8(bytes).ok()
}

} // verus!
