//! Share links: an encoded scene, compressed with DEFLATE and written in base64, carried in
//! the fragment of the page's URL.
use vstd::prelude::*;
use vstd::string::StringSliceAdditionalSpecFns;

verus! {

/// The base64 text (standard alphabet, with padding) that `base64::encode` makes of `bytes`.
pub uninterp spec fn base64_text(bytes: Seq<u8>) -> Seq<char>;

/// What `base64::decode` makes of `text`: its bytes, or `None` when it is not standard
/// base64.
pub uninterp spec fn base64_bytes(text: Seq<char>) -> Option<Seq<u8>>;

/// The raw DEFLATE stream that `miniz_oxide::deflate::compress_to_vec` makes of `data` at
/// compression level `level`.
pub uninterp spec fn deflated(data: Seq<u8>, level: u8) -> Seq<u8>;

/// What `miniz_oxide::inflate::decompress_to_vec` makes of `stream`: the data it holds,
/// or `None` when it is not a complete raw DEFLATE stream.
pub uninterp spec fn inflated(stream: Seq<u8>) -> Option<Seq<u8>>;

/// Whether `c` is a character of standard base64 text: a letter, a digit, `+`, `/` or the
/// padding `=`.
pub open spec fn base64_symbol(c: char) -> bool {
    ('A' <= c && c <= 'Z') || ('a' <= c && c <= 'z') || ('0' <= c && c <= '9') || c == '+' || c == '/' || c == '='
}

/// Calls `base64::encode` (standard alphabet, with padding). Claimed: the text is
/// `base64_text` of the bytes; it is made of base64 symbols, four for every three bytes or
/// part of three (`encoded_size`); and `base64::decode` gives the bytes back (the crate's
/// round-trip tests check this). The bound is the one under which the output buffer of
/// `encoded_size(n)` bytes can be allocated (at most `isize::MAX` bytes); past it the call
/// panics with a capacity overflow.
#[verifier::external_body]
fn base64_encode(bytes: &[u8]) -> (text: String)
    requires
        4 * ((bytes@.len() + 2) / 3) <= usize::MAX / 2,
    ensures
        text@ == base64_text(bytes@),
        text@.len() == 4 * ((bytes@.len() + 2) / 3),
        forall|i: int| 0 <= i < text@.len() ==> base64_symbol(#[trigger] text@[i]),
        base64_bytes(text@) == Some(bytes@),
{
    base64::encode(bytes)
}

/// Calls `base64::decode` (standard alphabet) on the bytes of `text`, turning its error
/// into `None`. Claimed: the result is `base64_bytes` of the text; text that
/// `base64::encode` made decodes to the bytes it was made from; and text holding a character
/// that is no base64 symbol (not even padding) is refused as an invalid byte. The length bound
/// keeps the output buffer, three quarters of the input, within what an allocation can hold.
#[verifier::external_body]
fn base64_decode(text: &str) -> (bytes: Option<Vec<u8>>)
    requires
        text.spec_bytes().len() <= usize::MAX / 2,
    ensures
        bytes is None <==> base64_bytes(text@) is None,
        bytes matches Some(b) ==> base64_bytes(text@) == Some(b@),
        bytes is None ==> forall|data: Seq<u8>| text@ != #[trigger] base64_text(data),
        bytes matches Some(b) ==> forall|data: Seq<u8>| text@ == #[trigger] base64_text(data) ==> b@ == data,
        (exists|i: int| 0 <= i < text@.len() && !base64_symbol(#[trigger] text@[i])) ==> bytes is None,
{
    base64::decode(text).ok()
}

/// Calls `miniz_oxide::deflate::compress_to_vec`, which writes a raw DEFLATE stream at
/// levels 0 to 10. Claimed: the stream is `deflated` of the data and level, and
/// `decompress_to_vec` gives the data back (DEFLATE is lossless; the crate's tests compress and
/// decompress back). The length bound
/// keeps the output buffer, which the compressor doubles as it fills, within what an
/// allocation can hold.
#[verifier::external_body]
fn deflate_bytes(data: &[u8], level: u8) -> (stream: Vec<u8>)
    requires
        data@.len() <= usize::MAX / 8,
        level <= 10,
    ensures
        stream@ == deflated(data@, level),
        inflated(stream@) == Some(data@),
{
    miniz_oxide::deflate::compress_to_vec(data, level)
}

/// Calls `miniz_oxide::inflate::decompress_to_vec` (raw DEFLATE, no size limit), turning
/// its error status into `None`. Claimed: the result is `inflated` of the stream, and a
/// stream that `compress_to_vec` made at a level from 0 to 10 inflates to the data it was
/// made from (DEFLATE is lossless; the crate's tests compress and decompress back). Not
/// stated: the output size, which only the stream bounds.
#[verifier::external_body]
fn inflate_bytes(stream: &[u8]) -> (data: Option<Vec<u8>>)
    ensures
        data is None <==> inflated(stream@) is None,
        data matches Some(d) ==> inflated(stream@) == Some(d@),
        data is None ==> forall|orig: Seq<u8>, level: u8| level <= 10 ==> stream@ != #[trigger] deflated(orig, level),
        data matches Some(d) ==> forall|orig: Seq<u8>, level: u8|
            level <= 10 && stream@ == #[trigger] deflated(orig, level) ==> d@ == orig,
{
    miniz_oxide::inflate::decompress_to_vec(stream).ok()
}

/// The DEFLATE level of share links: the strongest.
pub const SHARE_LEVEL: u8 = 10;

/// The share text of an encoded scene.
pub open spec fn share_text(encoded: Seq<u8>) -> Seq<char> {
    base64_text(deflated(encoded, SHARE_LEVEL))
}

/// The encoded scene that a share text carries, if it is one.
pub open spec fn share_payload(text: Seq<char>) -> Option<Seq<u8>> {
    match base64_bytes(text) {
        Some(stream) => inflated(stream),
        None => None,
    }
}

/// Whether the base64 text of `stream` fits in one allocation (at most `isize::MAX` bytes).
pub open spec fn base64_fits(stream: Seq<u8>) -> bool {
    4 * ((stream.len() + 2) / 3) <= usize::MAX / 2
}

/// The share text of an encoded scene: compressed at `SHARE_LEVEL`, then base64. `None`
/// exactly when the base64 text of the compressed scene would not fit in one allocation,
/// where `base64::encode` panics with a capacity overflow. The text is ASCII, short enough
/// for `decode_share_link`, and carries the scene back.
pub fn encode_share_link(encoded: &[u8]) -> (text: Option<String>)
    requires
        encoded@.len() <= usize::MAX / 8,
    ensures
        text is Some <==> base64_fits(deflated(encoded@, SHARE_LEVEL)),
        text matches Some(t) ==> {
            &&& t@ == share_text(encoded@)
            &&& forall|i: int| 0 <= i < t@.len() ==> base64_symbol(#[trigger] t@[i])
            &&& vstd::utf8::is_ascii_chars(t@)
            &&& t@.len() <= usize::MAX / 2
            &&& share_payload(t@) == Some(encoded@)
        },
{
    let stream = deflate_bytes(encoded, SHARE_LEVEL);
    let n = stream.len();
    let chunks: usize = n / 3 + if n % 3 == 0 { 0 } else { 1 };
    proof {
        assert((n + 2) / 3 == chunks) by (nonlinear_arith)
            requires
                chunks == n / 3 + (if n % 3 == 0 { 0int } else { 1int }),
        ;
    }
    if chunks <= usize::MAX / 4 && 4 * chunks <= usize::MAX / 2 {
        let t = base64_encode(stream.as_slice());
        proof {
            assert forall|i: int| 0 <= i < t@.len() implies '\0' <= #[trigger] t@[i] <= '\u{7f}' by {
                assert(base64_symbol(t@[i]));
            }
        }
        Some(t)
    } else {
        None
    }
}

/// ASCII text has as many UTF-8 bytes as characters, so a share text made by
/// `encode_share_link` meets the length bound of `decode_share_link`.
pub proof fn lemma_ascii_text_bytes(text: &str)
    requires
        vstd::utf8::is_ascii_chars(text@),
    ensures
        text.spec_bytes().len() == text@.len(),
{
    vstd::utf8::is_ascii_chars_encode_utf8(text@);
}

/// The encoded scene that a share text carries: base64, then DEFLATE; `None` when the
/// text is not base64 or the bytes are not a DEFLATE stream. Text made by
/// `encode_share_link` gives back the scene it was made from.
pub fn decode_share_link(text: &str) -> (encoded: Option<Vec<u8>>)
    requires
        text.spec_bytes().len() <= usize::MAX / 2,
    ensures
        match encoded {
            Some(e) => share_payload(text@) == Some(e@),
            None => share_payload(text@) is None,
        },
        forall|scene: Seq<u8>| text@ == #[trigger] share_text(scene) ==> (encoded matches Some(e) && e@ == scene),
        (exists|i: int| 0 <= i < text@.len() && !base64_symbol(#[trigger] text@[i])) ==> encoded is None,
{
    let decoded = base64_decode(text);
    let result = match decoded {
        Some(stream) => inflate_bytes(stream.as_slice()),
        None => None,
    };
    assert forall|scene: Seq<u8>| text@ == #[trigger] share_text(scene) implies (result matches Some(e) && e@ == scene) by {
        let stream = deflated(scene, SHARE_LEVEL);
        assert(text@ == base64_text(stream));
    }
    result
}

/// The part of a URL fragment after its leading `#`; `None` for an empty fragment.
pub fn fragment_payload(hash: &str) -> (payload: Option<&str>)
    requires
        hash@.len() > 0 ==> vstd::utf8::is_char_boundary(hash.spec_bytes(), 1),
    ensures
        payload is None <==> hash@.len() == 0,
        payload matches Some(p) ==> p.spec_bytes() == hash.spec_bytes().skip(1),
{
    if hash.is_empty() {
        None
    } else {
        let (_, rest) = hash.split_at(1);
        assert(rest.spec_bytes() =~= hash.spec_bytes().skip(1));
        Some(rest)
    }
}

} // verus!
