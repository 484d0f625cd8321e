//! Text encodings: URL-safe base64 without padding, and UTF-8.
use base64::engine::general_purpose::URL_SAFE_NO_PAD;
use base64::Engine;
use vstd::prelude::*;
use vstd::utf8::*;
use vstd::string::*;
use vstd::std_specs::iter::IteratorSpec;

verus! {

/// The URL-safe base64 text of `data`, without padding.
pub uninterp spec fn b64u_of(data: Seq<u8>) -> Seq<char>;

pub open spec fn is_b64u_char(c: char) -> bool {
    ('A' <= c <= 'Z') || ('a' <= c <= 'z') || ('0' <= c <= '9') || c == '-' || c == '_'
}

/// The bytes of a text whose characters are all ASCII.
pub open spec fn ascii_bytes(s: Seq<char>) -> Seq<u8> {
    s.map_values(|c: char| c as u8)
}

/// Every character is of the URL-safe base64 alphabet.
pub open spec fn is_b64u_text(s: Seq<char>) -> bool {
    forall|i: int| 0 <= i < s.len() ==> is_b64u_char(#[trigger] s[i])
}

/// `text` holds the bytes of the base64 text of some data.
pub open spec fn b64u_decodable(text: Seq<u8>) -> bool {
    exists|d: Seq<u8>| text == encode_utf8(#[trigger] b64u_of(d))
}

/// The data whose base64 text has the bytes `text`.
pub open spec fn b64u_decoded(text: Seq<u8>) -> Seq<u8> {
    choose|d: Seq<u8>| text == encode_utf8(#[trigger] b64u_of(d))
}

/// What encoding `data` showed of its text: base64 characters, and no other
/// data has the same text.
pub open spec fn encoded_text(data: Seq<u8>) -> bool {
    &&& is_b64u_text(b64u_of(data))
    &&& forall|d: Seq<u8>| #[trigger] b64u_of(d) == b64u_of(data) ==> d == data
}

/// Relies on base64's `URL_SAFE_NO_PAD` engine, `Engine::encode`: the URL-safe
/// alphabet (`A-Z a-z 0-9 - _`), no padding, and no two inputs share a text.
#[verifier::external_body]
pub(crate) fn b64u_encode(data: &[u8]) -> (r: String)
    ensures
        r@ == b64u_of(data@),
        forall|i: int| 0 <= i < r@.len() ==> is_b64u_char(#[trigger] r@[i]),
        forall|d: Seq<u8>| #[trigger] b64u_of(d) == r@ ==> d == data@,
{
    URL_SAFE_NO_PAD.encode(data)
}

/// Relies on base64's `URL_SAFE_NO_PAD` engine, `Engine::decode`: it accepts
/// exactly the texts that `encode` writes (no padding, no stray trailing bits)
/// and returns the bytes they encode.
#[verifier::external_body]
pub(crate) fn b64u_decode(text: &[u8]) -> (r: Option<Vec<u8>>)
    ensures
        match r {
            Some(v) => {
                &&& text@ == encode_utf8(b64u_of(v@))
                &&& forall|d: Seq<u8>| text@ == encode_utf8(#[trigger] b64u_of(d)) ==> d == v@
            },
            None => forall|d: Seq<u8>| text@ != encode_utf8(#[trigger] b64u_of(d)),
        },
{
    URL_SAFE_NO_PAD.decode(text).ok()
}

/// Relies on `String::from_utf8`: it succeeds exactly on UTF-8 bytes, and the
/// string holds the characters they encode.
#[verifier::external_body]
pub(crate) fn utf8_string(bytes: Vec<u8>) -> (r: Option<String>)
    ensures
        r is Some <==> valid_utf8(bytes@),
        r matches Some(s) ==> s@ == decode_utf8(bytes@),
{
    String::from_utf8(bytes).ok()
}

/// The UTF-8 bytes of an ASCII text are its character codes.
pub proof fn lemma_ascii_chars_bytes(s: Seq<char>)
    requires
        is_ascii_chars(s),
    ensures
        encode_utf8(s) == ascii_bytes(s),
{
    is_ascii_chars_encode_utf8(s);
    assert(encode_utf8(s) =~= ascii_bytes(s));
}

/// Base64 text is ASCII.
pub proof fn lemma_b64u_ascii(s: Seq<char>)
    requires
        forall|i: int| 0 <= i < s.len() ==> is_b64u_char(#[trigger] s[i]),
    ensures
        is_ascii_chars(s),
        encode_utf8(s) == ascii_bytes(s),
        forall|i: int|
            0 <= i < s.len() ==> #[trigger] ascii_bytes(s)[i] != 46u8 && ascii_bytes(s)[i] != 35u8
                && ascii_bytes(s)[i] != 10u8,
{
    assert forall|i: int| 0 <= i < s.len() implies '\0' <= #[trigger] s[i] <= '\u{7f}' by {
        assert(is_b64u_char(s[i]));
    }
    lemma_ascii_chars_bytes(s);
    assert forall|i: int| 0 <= i < s.len() implies #[trigger] ascii_bytes(s)[i] != 46u8 && ascii_bytes(s)[i]
        != 35u8 && ascii_bytes(s)[i] != 10u8 by {
        assert(is_b64u_char(s[i]));
    }
}

/// Whether two byte slices hold the same bytes.
pub fn bytes_eq(a: &[u8], b: &[u8]) -> (r: bool)
    ensures
        r == (a@ == b@),
{
    if a.len() != b.len() {
        return false;
    }
    let mut i: usize = 0;
    while i < a.len()
        invariant
            a@.len() == b@.len(),
            i <= a@.len(),
            forall|j: int| 0 <= j < i ==> a@[j] == b@[j],
        decreases a@.len() - i,
    {
        if a[i] != b[i] {
            return false;
        }
        i = i + 1;
    }
    assert(a@ =~= b@);
    true
}

/// UTF-8 encodes a concatenation piece by piece.
pub proof fn lemma_encode_utf8_concat(a: Seq<char>, b: Seq<char>)
    ensures
        encode_utf8(a + b) == encode_utf8(a) + encode_utf8(b),
    decreases a.len(),
{
    if a.len() == 0 {
        assert(a + b =~= b);
        assert(encode_utf8(a) =~= Seq::<u8>::empty());
        assert(encode_utf8(a) + encode_utf8(b) =~= encode_utf8(b));
    } else {
        lemma_encode_utf8_concat(a.drop_first(), b);
        assert((a + b).drop_first() =~= a.drop_first() + b);
        assert((a + b)[0] == a[0]);
        assert(encode_utf8(a + b) == encode_scalar((a + b)[0] as u32) + encode_utf8((a + b).drop_first()));
        assert(encode_utf8(a) == encode_scalar(a[0] as u32) + encode_utf8(a.drop_first()));
        assert(encode_utf8(a + b) =~= encode_utf8(a) + encode_utf8(b));
    }
}

/// A copy of `s[start..end]`.
pub fn copy_range<T: Copy>(s: &[T], start: usize, end: usize) -> (r: Vec<T>)
    requires
        start <= end <= s@.len(),
    ensures
        r@ == s@.subrange(start as int, end as int),
{
    let mut r: Vec<T> = Vec::new();
    let mut i: usize = start;
    while i < end
        invariant
            start <= i <= end <= s@.len(),
            r@ == s@.subrange(start as int, i as int),
        decreases end - i,
    {
        r.push(s[i]);
        i = i + 1;
        assert(r@ =~= s@.subrange(start as int, i as int));
    }
    r
}

/// Decodes the bytes of a base64 text.
pub fn decode_b64u(text: &[u8]) -> (r: Option<Vec<u8>>)
    ensures
        r is Some <==> b64u_decodable(text@),
        r matches Some(v) ==> v@ == b64u_decoded(text@),
{
    let r = b64u_decode(text);
    proof {
        if r is Some {
            let v = r->Some_0;
            assert(text@ == encode_utf8(b64u_of(v@)));
            let d = b64u_decoded(text@);
            assert(text@ == encode_utf8(b64u_of(d)));
        }
    }
    r
}

/// The encoded text of data is decodable, back to that data alone.
pub proof fn lemma_b64u_round_trip(data: Seq<u8>)
    requires
        encoded_text(data),
    ensures
        b64u_decodable(encode_utf8(b64u_of(data))),
        b64u_decoded(encode_utf8(b64u_of(data))) == data,
{
    let text = encode_utf8(b64u_of(data));
    assert(text == encode_utf8(b64u_of(data)));
    let d = b64u_decoded(text);
    assert(encode_utf8(b64u_of(d)) == text);
    encode_utf8_decode_utf8(b64u_of(d));
    encode_utf8_decode_utf8(b64u_of(data));
    assert(b64u_of(d) == b64u_of(data));
}

/// The characters of `s`, in order.
pub fn chars_of(s: &str) -> (r: Vec<char>)
    ensures
        r@ == s@,
{
    broadcast use vstd::string::axiom_spec_iter, vstd::string::next_postcondition;

    let mut r: Vec<char> = Vec::new();
    for c in it: s.chars()
        invariant
            r@ == it.history(),
    {
        r.push(c);
    }
    assert(r@ =~= s@);
    r
}

/// Relies on `String`'s `FromIterator<char>`: the string holds the characters
/// in order.
#[verifier::external_body]
pub(crate) fn string_of_chars(chars: &[char]) -> (r: String)
    ensures
        r@ == chars@,
{
    chars.iter().collect()
}

} // verus!
