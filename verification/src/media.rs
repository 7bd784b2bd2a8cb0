//! Media paths: their base64url names, their text and their content types.

use crate::http::{is_value_text, no_fields, plain_error, AppError, ErrorView, BAD_REQUEST};
use crate::path::{
    extension, is_media, is_media_name, opt_utf8_text, path_extension, text_of, utf8_text,
};
use base64::engine::general_purpose::URL_SAFE_NO_PAD;
use base64::{DecodeError, Engine};
use vstd::prelude::*;
use vstd::utf8::encode_utf8;

verus! {

/// The error of `Engine::decode`.
#[verifier::external_type_specification]
#[verifier::external_body]
pub struct ExDecodeError(base64::DecodeError);

/// The character of the base64url alphabet for six bits: letters, digits, a
/// hyphen and an underscore.
pub open spec fn base64url_char(bits: int) -> char {
    if bits < 26 {
        (65 + bits) as char
    } else if bits < 52 {
        (71 + bits) as char
    } else if bits < 62 {
        (bits - 4) as char
    } else if bits == 62 {
        '-'
    } else {
        '_'
    }
}

/// The byte at a position, and zero behind the last one.
pub open spec fn byte_or_zero(bytes: Seq<u8>, i: int) -> int {
    if i < bytes.len() {
        bytes[i] as int
    } else {
        0
    }
}

/// The `i`th group of six bits in some bytes: three bytes hold four of them.
pub open spec fn six_bits(bytes: Seq<u8>, i: int) -> int {
    let first = byte_or_zero(bytes, i / 4 * 3);
    let second = byte_or_zero(bytes, i / 4 * 3 + 1);
    let third = byte_or_zero(bytes, i / 4 * 3 + 2);
    if i % 4 == 0 {
        first / 4
    } else if i % 4 == 1 {
        first % 4 * 16 + second / 16
    } else if i % 4 == 2 {
        second % 16 * 4 + third / 64
    } else {
        third % 64
    }
}

/// The length of the base64url text of so many bytes: a character for each six
/// bits, the last of them filled up.
pub open spec fn base64url_len(bytes: nat) -> nat {
    (4 * bytes + 2) / 3
}

/// The base64url text of some bytes, without padding.
pub open spec fn base64url_encoded(bytes: Seq<u8>) -> Seq<char> {
    Seq::new(base64url_len(bytes.len()), |i: int| base64url_char(six_bits(bytes, i)))
}

/// The bytes of a base64url text without padding, if it is one.
pub open spec fn base64url_decoded(text: Seq<char>) -> Option<Seq<u8>> {
    if exists|bytes: Seq<u8>| #[trigger] base64url_encoded(bytes) == text {
        Some(choose|bytes: Seq<u8>| #[trigger] base64url_encoded(bytes) == text)
    } else {
        None
    }
}

/// Is the character one of the base64url alphabet?
pub open spec fn is_base64url_char(c: char) -> bool {
    'A' <= c <= 'Z' || 'a' <= c <= 'z' || '0' <= c <= '9' || c == '-' || c == '_'
}

proof fn lemma_six_bits(bytes: Seq<u8>, i: int)
    requires
        0 <= i,
    ensures
        0 <= six_bits(bytes, i) < 64,
{
    let first = byte_or_zero(bytes, i / 4 * 3);
    let second = byte_or_zero(bytes, i / 4 * 3 + 1);
    let third = byte_or_zero(bytes, i / 4 * 3 + 2);
    assert(0 <= first < 256 && 0 <= second < 256 && 0 <= third < 256);
}

proof fn lemma_base64url_char(a: int, b: int)
    requires
        0 <= a < 64,
        0 <= b < 64,
    ensures
        is_base64url_char(base64url_char(a)),
        base64url_char(a) == base64url_char(b) ==> a == b,
{
    assert(base64url_char(a) as u32 == if a < 26 {
        65 + a
    } else if a < 52 {
        71 + a
    } else if a < 62 {
        a - 4
    } else if a == 62 {
        45
    } else {
        95
    });
    assert(base64url_char(b) as u32 == if b < 26 {
        65 + b
    } else if b < 52 {
        71 + b
    } else if b < 62 {
        b - 4
    } else if b == 62 {
        45
    } else {
        95
    });
}

/// Each byte is made of bits from two groups of six.
proof fn lemma_byte_of_six_bits(bytes: Seq<u8>, i: int)
    requires
        0 <= i < bytes.len(),
    ensures
        ({
            let g = i / 3 * 4;
            bytes[i] == (if i % 3 == 0 {
                six_bits(bytes, g) * 4 + six_bits(bytes, g + 1) / 16
            } else if i % 3 == 1 {
                six_bits(bytes, g + 1) % 16 * 16 + six_bits(bytes, g + 2) / 4
            } else {
                six_bits(bytes, g + 2) % 4 * 64 + six_bits(bytes, g + 3)
            })
        }),
{
    let k = i / 3;
    let g = k * 4;
    assert((g + 1) / 4 == k && (g + 2) / 4 == k && (g + 3) / 4 == k && g / 4 == k);
    assert(g % 4 == 0 && (g + 1) % 4 == 1 && (g + 2) % 4 == 2 && (g + 3) % 4 == 3);
    let first = byte_or_zero(bytes, k * 3);
    let second = byte_or_zero(bytes, k * 3 + 1);
    let third = byte_or_zero(bytes, k * 3 + 2);
    assert(0 <= first < 256 && 0 <= second < 256 && 0 <= third < 256);
    assert(six_bits(bytes, g) == first / 4);
    assert(six_bits(bytes, g + 1) == first % 4 * 16 + second / 16);
    assert(six_bits(bytes, g + 2) == second % 16 * 4 + third / 64);
    assert(six_bits(bytes, g + 3) == third % 64);
    assert(i == k * 3 + i % 3);
}

/// Different bytes have different base64url texts.
pub proof fn law_base64url_injective(a: Seq<u8>, b: Seq<u8>)
    requires
        base64url_encoded(a) == base64url_encoded(b),
    ensures
        a == b,
{
    assert(base64url_encoded(a).len() == base64url_len(a.len()));
    assert(base64url_encoded(b).len() == base64url_len(b.len()));
    assert(a.len() == b.len());
    assert forall|i: int| 0 <= i < base64url_len(a.len()) implies #[trigger] six_bits(a, i)
        == six_bits(b, i) by {
        assert(base64url_encoded(a)[i] == base64url_char(six_bits(a, i)));
        assert(base64url_encoded(b)[i] == base64url_char(six_bits(b, i)));
        lemma_six_bits(a, i);
        lemma_six_bits(b, i);
        lemma_base64url_char(six_bits(a, i), six_bits(b, i));
    }
    assert forall|i: int| 0 <= i < a.len() implies a[i] == b[i] by {
        lemma_byte_of_six_bits(a, i);
        lemma_byte_of_six_bits(b, i);
    }
    assert(a =~= b);
}

/// The base64url text of some bytes is of the alphabet, and gives the bytes when
/// it is decoded; no other text does.
pub proof fn law_base64url_round_trip(bytes: Seq<u8>, text: Seq<char>)
    ensures
        base64url_encoded(bytes).len() == base64url_len(bytes.len()),
        forall|i: int|
            0 <= i < base64url_encoded(bytes).len() ==> is_base64url_char(
                #[trigger] base64url_encoded(bytes)[i],
            ),
        base64url_decoded(text) == Some(bytes) <==> text == base64url_encoded(bytes),
{
    assert forall|i: int| 0 <= i < base64url_encoded(bytes).len() implies is_base64url_char(
        #[trigger] base64url_encoded(bytes)[i],
    ) by {
        lemma_six_bits(bytes, i);
        lemma_base64url_char(six_bits(bytes, i), six_bits(bytes, i));
    }
    if text == base64url_encoded(bytes) {
        let other = choose|other: Seq<u8>| #[trigger] base64url_encoded(other) == text;
        law_base64url_injective(other, bytes);
    }
}

/// So few bytes that their base64 text fits in memory.
pub open spec fn is_encodable(bytes: Seq<u8>) -> bool {
    bytes.len() <= usize::MAX / 4
}

/// `Engine::encode` of `URL_SAFE_NO_PAD` writes bytes in the base64url
/// alphabet, a character for each six bits and no padding. It panics on more
/// bytes than it can allocate the text of.
#[verifier::external_body]
fn base64url_encode(bytes: &[u8]) -> (r: String)
    requires
        is_encodable(bytes@),
    ensures
        r@ == base64url_encoded(bytes@),
{
    URL_SAFE_NO_PAD.encode(bytes)
}

/// `Engine::decode` of `URL_SAFE_NO_PAD` reads base64url text. It accepts no
/// padding, no other character and no stray bits at the end: only what encoding
/// some bytes gives, and it returns these.
#[verifier::external_body]
fn base64url_decode(text: &str) -> (r: Result<Vec<u8>, DecodeError>)
    ensures
        match r {
            Ok(v) => base64url_encoded(v@) == text@,
            Err(_) => base64url_decoded(text@) is None,
        },
{
    URL_SAFE_NO_PAD.decode(text.as_bytes())
}

/// The name under which a path is known to clients.
pub open spec fn path_id(path: Seq<char>) -> Seq<char> {
    base64url_encoded(encode_utf8(path))
}

/// The path that decoded bytes stand for: valid UTF-8 and not empty.
pub open spec fn path_of_bytes(bytes: Option<Seq<u8>>) -> Result<Seq<char>, ErrorView> {
    match opt_utf8_text(bytes) {
        None => Err(plain_error(BAD_REQUEST, "invalid encoded path"@)),
        Some(path) => if path.len() == 0 {
            Err(plain_error(BAD_REQUEST, "empty path"@))
        } else {
            Ok(path)
        },
    }
}

/// The path that a client's name for it stands for.
pub open spec fn path_of_id(id: Seq<char>) -> Result<Seq<char>, ErrorView> {
    path_of_bytes(base64url_decoded(id))
}

/// What a decision with a text as its result says.
pub open spec fn text_outcome(r: Result<String, AppError>) -> Result<Seq<char>, ErrorView> {
    match r {
        Ok(s) => Ok(s@),
        Err(e) => Err(e@),
    }
}

/// Gives the name under which a path is known to clients. Its characters are
/// all of the base64url alphabet, as many as the path's bytes take, and the path
/// is what the name stands for; the name of the empty path is refused.
pub fn encode_path(path: &str) -> (r: String)
    requires
        is_encodable(encode_utf8(path@)),
    ensures
        r@ == path_id(path@),
        forall|i: int| 0 <= i < r@.len() ==> is_base64url_char(#[trigger] r@[i]),
        r@.len() == base64url_len(encode_utf8(path@).len()),
        encode_utf8(r@).len() == r@.len(),
        base64url_decoded(r@) == Some(encode_utf8(path@)),
        path_of_id(r@) == (if path@.len() > 0 {
            Ok::<Seq<char>, ErrorView>(path@)
        } else {
            Err(plain_error(BAD_REQUEST, "empty path"@))
        }),
{
    proof {
        vstd::utf8::encode_utf8_decode_utf8(path@);
        vstd::utf8::encode_utf8_valid_utf8(path@);
    }
    let id = base64url_encode(path.as_bytes());
    proof {
        law_base64url_round_trip(encode_utf8(path@), id@);
        assert forall|i: int| 0 <= i < id@.len() implies (#[trigger] id@[i]) as u32 <= 0x7f by {
            assert(is_base64url_char(id@[i]));
        }
        vstd::utf8::is_ascii_chars_encode_utf8(id@);
    }
    id
}

/// Each path that is not empty has one name, and it is what the name stands for;
/// the name of the empty path is refused.
pub proof fn law_path_has_one_name(path: Seq<char>, id: Seq<char>)
    ensures
        path.len() > 0 ==> (path_of_id(id) == Ok::<Seq<char>, ErrorView>(path) <==> id == path_id(
            path,
        )),
        path.len() == 0 ==> path_of_id(path_id(path)) == Err::<Seq<char>, ErrorView>(
            plain_error(BAD_REQUEST, "empty path"@),
        ),
{
    vstd::utf8::encode_utf8_decode_utf8(path);
    vstd::utf8::encode_utf8_valid_utf8(path);
    law_base64url_round_trip(encode_utf8(path), path_id(path));
    if path_of_id(id) == Ok::<Seq<char>, ErrorView>(path) {
        let bytes = base64url_decoded(id)->0;
        law_base64url_round_trip(bytes, id);
        vstd::utf8::decode_utf8_encode_utf8(bytes);
    }
}

/// Decides which path the decoded bytes stand for. `None` is what could not
/// be decoded.
pub fn path_from_bytes(decoded: Option<Vec<u8>>) -> (r: Result<String, AppError>)
    ensures
        text_outcome(r) == path_of_bytes(
            match decoded {
                Some(v) => Some(v@),
                None => None,
            },
        ),
{
    let bytes = match decoded {
        Some(bytes) => bytes,
        None => {
            return Err(AppError::new(BAD_REQUEST, "invalid encoded path"));
        },
    };
    match String::from_utf8(bytes) {
        Err(_) => Err(AppError::new(BAD_REQUEST, "invalid encoded path")),
        Ok(path) => if path.as_str().is_empty() {
            Err(AppError::new(BAD_REQUEST, "empty path"))
        } else {
            Ok(path)
        },
    }
}

/// Reads a client's name for a path. A path that comes out has that name and
/// no other.
pub fn decode_path(value: &str) -> (r: Result<String, AppError>)
    ensures
        text_outcome(r) == path_of_id(value@),
        r matches Ok(path) ==> path_id(path@) == value@,
{
    match base64url_decode(value) {
        Ok(bytes) => {
            proof {
                law_base64url_round_trip(bytes@, value@);
                if vstd::utf8::valid_utf8(bytes@) {
                    vstd::utf8::decode_utf8_encode_utf8(bytes@);
                }
            }
            path_from_bytes(Some(bytes))
        },
        Err(_) => path_from_bytes(None),
    }
}

/// The path that a client's name stands for, if it is that of a media file.
pub open spec fn media_path_of_id(id: Seq<char>) -> Result<Seq<char>, ErrorView> {
    match path_of_id(id) {
        Ok(path) => if is_media(encode_utf8(path)) {
            Ok(path)
        } else {
            Err(plain_error(BAD_REQUEST, "unsupported media extension"@))
        },
        Err(e) => Err(e),
    }
}

/// Reads a client's name for a media file.
pub fn decode_media_path(value: &str) -> (r: Result<String, AppError>)
    ensures
        text_outcome(r) == media_path_of_id(value@),
{
    match decode_path(value) {
        Ok(path) => if is_media_name(path.as_str().as_bytes()) {
            Ok(path)
        } else {
            Err(AppError::new(BAD_REQUEST, "unsupported media extension"))
        },
        Err(e) => Err(e),
    }
}

/// The media type that is guessed for a file name extension.
pub uninterp spec fn guessed_type(extension: Seq<char>) -> Seq<char>;

/// `mime_guess::from_ext` with `first_or_octet_stream` looks an extension up
/// in a fixed table of media types, all of them in visible ASCII. Nothing is
/// listed for the empty extension, which gives `application/octet-stream`.
#[verifier::external_body]
fn guess_type(extension: &str) -> (r: String)
    ensures
        r@ == guessed_type(extension@),
        is_value_text(r@),
        extension@.len() == 0 ==> r@ == "application/octet-stream"@,
{
    mime_guess::from_ext(extension).first_or_octet_stream().to_string()
}

/// The extension of a path as text; empty if it has none or none that is text.
pub open spec fn extension_text(path: Seq<u8>) -> Seq<char> {
    match opt_utf8_text(extension(path)) {
        Some(e) => e,
        None => Seq::empty(),
    }
}

/// The content type of the file at a path.
pub open spec fn content_type_of(path: Seq<u8>) -> Seq<char> {
    guessed_type(extension_text(path))
}

/// Guesses the content type of the file at a path from its extension.
pub fn content_type(path: &[u8]) -> (r: String)
    ensures
        r@ == content_type_of(path@),
        is_value_text(r@),
        extension_text(path@).len() == 0 ==> r@ == "application/octet-stream"@,
{
    let ext = match path_extension(path) {
        Some(e) => match text_of(e) {
            Some(s) => s,
            None => String::new(),
        },
        None => String::new(),
    };
    guess_type(ext.as_str())
}

/// The text of bytes in which whatever is not UTF-8 is replaced.
pub uninterp spec fn lossy_text(bytes: Seq<u8>) -> Seq<char>;

/// `String::from_utf8_lossy` reads bytes as UTF-8 and puts a replacement
/// character for what is not; bytes that are valid UTF-8 are read as they are.
#[verifier::external_body]
pub(crate) fn read_lossy(bytes: &[u8]) -> (r: String)
    ensures
        r@ == lossy_text(bytes@),
        utf8_text(bytes@) is Some ==> r@ == utf8_text(bytes@)->0,
{
    String::from_utf8_lossy(bytes).into_owned()
}

/// The path of a file: its bytes, and its text, in which what is not UTF-8 is
/// replaced. The text is short enough to be encoded.
pub struct MediaPath {
    bytes: Vec<u8>,
    text: String,
}

impl MediaPath {
    #[verifier::type_invariant]
    spec fn well_formed(self) -> bool {
        &&& self.text@ == lossy_text(self.bytes@)
        &&& utf8_text(self.bytes@) is Some ==> self.text@ == utf8_text(self.bytes@)->0
        &&& is_encodable(encode_utf8(self.text@))
    }

    /// The path's bytes.
    pub closed spec fn bytes(&self) -> Seq<u8> {
        self.bytes@
    }

    /// The path's text.
    pub closed spec fn text(&self) -> Seq<char> {
        self.text@
    }

    /// The path with the given bytes, unless its text is too long to be encoded.
    pub fn new(bytes: Vec<u8>) -> (r: Option<MediaPath>)
        ensures
            match r {
                Some(path) => {
                    &&& is_encodable(encode_utf8(lossy_text(bytes@)))
                    &&& path.bytes() == bytes@
                    &&& path.text() == lossy_text(bytes@)
                },
                None => !is_encodable(encode_utf8(lossy_text(bytes@))),
            },
            utf8_text(bytes@) is Some ==> {
                &&& lossy_text(bytes@) == utf8_text(bytes@)->0
                &&& r is Some <==> is_encodable(bytes@)
            },
    {
        let text = read_lossy(bytes.as_slice());
        proof {
            if vstd::utf8::valid_utf8(bytes@) {
                vstd::utf8::decode_utf8_encode_utf8(bytes@);
            }
        }
        if text.as_str().as_bytes().len() <= usize::MAX / 4 {
            Some(MediaPath { bytes, text })
        } else {
            None
        }
    }

    /// The path's bytes.
    pub fn as_bytes(&self) -> (r: &[u8])
        ensures
            r@ == self.bytes(),
    {
        self.bytes.as_slice()
    }

    /// The path's text.
    pub fn as_text(&self) -> (r: &str)
        ensures
            r@ == self.text(),
            r@ == lossy_text(self.bytes()),
            utf8_text(self.bytes()) is Some ==> r@ == utf8_text(self.bytes())->0,
            is_encodable(encode_utf8(r@)),
    {
        proof {
            use_type_invariant(self);
        }
        self.text.as_str()
    }
}

/// A client's name for a path stands for exactly the path whose bytes it encodes,
/// however long. The empty path is refused, and so is every other name.
pub proof fn law_path_of_id(id: Seq<char>, path: Seq<char>)
    ensures
        path_id(path) == base64url_encoded(encode_utf8(path)),
        path.len() > 0 ==> path_of_id(base64url_encoded(encode_utf8(path))) == Ok::<
            Seq<char>,
            ErrorView,
        >(path),
        match path_of_id(id) {
            Ok(p) => p.len() > 0 && id == base64url_encoded(encode_utf8(p)),
            Err(e) => {
                &&& e.status == 400
                &&& e.headers == no_fields()
                &&& e.detail == (if id.len() == 0 {
                    "empty path"@
                } else {
                    "invalid encoded path"@
                })
            },
        },
{
    law_path_has_one_name(path, path_id(path));
    if path_of_id(id) is Ok {
        law_path_has_one_name(path_of_id(id)->Ok_0, id);
    }
    if id.len() == 0 {
        let none = Seq::<u8>::empty();
        law_base64url_round_trip(none, id);
        assert(base64url_encoded(none) == id);
        assert(vstd::utf8::decode_utf8(none).len() == 0);
    } else if base64url_decoded(id) is Some {
        let bytes = base64url_decoded(id)->0;
        law_base64url_round_trip(bytes, id);
        if vstd::utf8::valid_utf8(bytes) {
            vstd::utf8::decode_utf8_encode_utf8(bytes);
            crate::encoding::lemma_encoded_empty(vstd::utf8::decode_utf8(bytes));
        }
    }
}

/// A client's name for a media file stands for its path whenever that has the
/// extension of one; another path is refused, and what is no name as well.
pub proof fn law_media_path_of_id(id: Seq<char>)
    ensures
        match path_of_id(id) {
            Ok(p) => match media_path_of_id(id) {
                Ok(q) => is_media(encode_utf8(p)) && q == p,
                Err(e) => {
                    &&& !is_media(encode_utf8(p))
                    &&& e.status == 400
                    &&& e.detail == "unsupported media extension"@
                    &&& e.headers == no_fields()
                },
            },
            Err(e) => media_path_of_id(id) == Err::<Seq<char>, ErrorView>(e),
        },
{
}

/// The content type of a file goes by the extension of its path alone.
pub proof fn law_content_type(path: Seq<u8>, ext: Seq<char>)
    ensures
        extension(path) == Some(encode_utf8(ext)) ==> content_type_of(path) == guessed_type(ext),
        extension(path) is None ==> content_type_of(path) == guessed_type(Seq::empty()),
        extension(path) matches Some(e) && utf8_text(e) is None ==> content_type_of(path)
            == guessed_type(Seq::empty()),
{
    crate::path::law_text_of_bytes(encode_utf8(ext), ext);
}

/// A decision with a text as its result says the text, or what the refusal says.
pub proof fn law_text_outcome(s: String, e: AppError)
    ensures
        text_outcome(Ok(s)) == Ok::<Seq<char>, ErrorView>(s@),
        text_outcome(Err(e)) == Err::<Seq<char>, ErrorView>(e@),
{
}

/// Any bytes whose base64 text surely fits in memory can be encoded.
pub proof fn law_encodable(bytes: Seq<u8>)
    ensures
        is_encodable(bytes) <==> 4 * bytes.len() <= usize::MAX,
{
    assert(usize::MAX == u32::MAX || usize::MAX == u64::MAX);
}

} // verus!
