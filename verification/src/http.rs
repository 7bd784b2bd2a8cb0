//! Status codes, header fields and the error that the service answers with.

use crate::encoding::{lemma_encode_ascii, lemma_encode_concat, lemma_encoded_ascii_byte};
use axum::http::header::{InvalidHeaderValue, ToStrError, RANGE};
use axum::http::{HeaderMap, HeaderValue};
use vstd::prelude::*;
use vstd::utf8::{decode_utf8, encode_utf8};

verus! {

/// The whole of what was asked for.
pub const OK: u16 = 200;

/// Part of what was asked for.
pub const PARTIAL_CONTENT: u16 = 206;

/// The request makes no sense.
pub const BAD_REQUEST: u16 = 400;

/// There is no such file.
pub const NOT_FOUND: u16 = 404;

/// The file has no byte in the range.
pub const RANGE_NOT_SATISFIABLE: u16 = 416;

/// The service failed.
pub const INTERNAL_SERVER_ERROR: u16 = 500;

/// A response header field that the service sets.
#[derive(Clone, Copy)]
pub enum HeaderField {
    /// `accept-ranges`
    AcceptRanges,
    /// `cache-control`
    CacheControl,
    /// `content-type`
    ContentType,
    /// `content-length`
    ContentLength,
    /// `content-range`
    ContentRange,
    /// `x-media-path-encoded`
    MediaPathEncoded,
}

impl HeaderField {
    /// The field's name on the wire.
    pub open spec fn name(self) -> Seq<char> {
        match self {
            HeaderField::AcceptRanges => "accept-ranges"@,
            HeaderField::CacheControl => "cache-control"@,
            HeaderField::ContentType => "content-type"@,
            HeaderField::ContentLength => "content-length"@,
            HeaderField::ContentRange => "content-range"@,
            HeaderField::MediaPathEncoded => "x-media-path-encoded"@,
        }
    }

    /// The field's name on the wire.
    pub fn text(self) -> (r: &'static str)
        ensures
            r@ == self.name(),
            is_field_name(r@),
    {
        proof {
            reveal_strlit("accept-ranges");
            reveal_strlit("cache-control");
            reveal_strlit("content-type");
            reveal_strlit("content-length");
            reveal_strlit("content-range");
            reveal_strlit("x-media-path-encoded");
        }
        match self {
            HeaderField::AcceptRanges => "accept-ranges",
            HeaderField::CacheControl => "cache-control",
            HeaderField::ContentType => "content-type",
            HeaderField::ContentLength => "content-length",
            HeaderField::ContentRange => "content-range",
            HeaderField::MediaPathEncoded => "x-media-path-encoded",
        }
    }
}

/// Is the text a header field's name in lower case, of letters and hyphens?
pub open spec fn is_field_name(s: Seq<char>) -> bool {
    &&& 1 <= s.len() <= 64
    &&& forall|i: int| 0 <= i < s.len() ==> 'a' <= #[trigger] s[i] <= 'z' || s[i] == '-'
}

/// `http::HeaderValue`, the value of one header field.
#[verifier::external_type_specification]
#[verifier::external_body]
pub struct ExHeaderValue(axum::http::HeaderValue);

/// `http::HeaderMap`, a multimap from header names to values.
#[verifier::external_type_specification]
#[verifier::external_body]
#[verifier::reject_recursive_types(T)]
pub struct ExHeaderMap<T>(axum::http::HeaderMap<T>);

/// The error of `HeaderValue::from_str`.
#[verifier::external_type_specification]
#[verifier::external_body]
pub struct ExInvalidHeaderValue(axum::http::header::InvalidHeaderValue);

/// The error of `HeaderValue::to_str`.
#[verifier::external_type_specification]
#[verifier::external_body]
pub struct ExToStrError(axum::http::header::ToStrError);

/// The bytes of a header value.
pub uninterp spec fn header_bytes(value: HeaderValue) -> Seq<u8>;

/// The contents of a header map: the values of each field name that it holds,
/// in the order in which they were added.
pub uninterp spec fn header_fields(map: HeaderMap<HeaderValue>) -> Map<Seq<char>, Seq<Seq<u8>>>;

/// The contents of a set of header fields.
pub type Fields = Map<Seq<char>, Seq<Seq<u8>>>;

/// No header field at all.
pub open spec fn no_fields() -> Fields {
    Map::empty()
}

/// May the byte stand in a header value?
pub open spec fn is_value_byte(b: u8) -> bool {
    (b >= 32 && b != 127) || b == 9
}

/// May the text stand in a header value?
pub open spec fn is_value_text(s: Seq<char>) -> bool {
    forall|i: int| 0 <= i < encode_utf8(s).len() ==> is_value_byte(#[trigger] encode_utf8(s)[i])
}

/// Is the byte visible ASCII, a space or a tab?
pub open spec fn is_visible_byte(b: u8) -> bool {
    32 <= b < 127 || b == 9
}

/// The text of a header value whose bytes are all visible.
pub open spec fn visible_text(bytes: Seq<u8>) -> Option<Seq<char>> {
    if forall|i: int| 0 <= i < bytes.len() ==> is_visible_byte(#[trigger] bytes[i]) {
        Some(decode_utf8(bytes))
    } else {
        None
    }
}

/// `HeaderValue::from_str` accepts a text exactly when each of its bytes is a
/// tab or at least 32 and not 127, and keeps the bytes as they are.
pub assume_specification[ HeaderValue::from_str ](src: &str) -> (r: Result<
    HeaderValue,
    InvalidHeaderValue,
>)
    ensures
        match r {
            Ok(v) => is_value_text(src@) && header_bytes(v) == encode_utf8(src@),
            Err(_) => !is_value_text(src@),
        },
;

/// `HeaderValue::to_str` gives the text of a value whose bytes are all a tab
/// or from 32 to 126, and an error for any other value.
pub assume_specification[ HeaderValue::to_str ](value: &HeaderValue) -> (r: Result<
    &str,
    ToStrError,
>)
    ensures
        match r {
            Ok(s) => visible_text(header_bytes(*value)) == Some(s@),
            Err(_) => visible_text(header_bytes(*value)) is None,
        },
;

/// `HeaderMap::new` makes a map without any field.
#[verifier::external_body]
pub(crate) fn new_headers() -> (map: HeaderMap<HeaderValue>)
    ensures
        header_fields(map) == no_fields(),
{
    HeaderMap::new()
}

/// So few fields that a header map surely takes one more.
pub open spec fn has_room(fields: Fields) -> bool {
    fields.dom().finite() && fields.dom().len() <= 6553
}

/// `HeaderMap::insert` puts one value under a field's name and drops the
/// values that were there. It panics on a text that is no name, and cannot run
/// out of room while the map holds at most 6553 names.
#[verifier::external_body]
fn insert_value(map: &mut HeaderMap<HeaderValue>, name: &'static str, value: HeaderValue)
    requires
        is_field_name(name@),
        has_room(header_fields(*old(map))),
    ensures
        header_fields(*final(map)) == header_fields(*old(map)).insert(
            name@,
            seq![header_bytes(value)],
        ),
{
    map.insert(name, value);
}

/// Puts one value under a field's name in place of those that were there.
pub(crate) fn insert_header(map: &mut HeaderMap<HeaderValue>, field: HeaderField, value: HeaderValue)
    requires
        has_room(header_fields(*old(map))),
    ensures
        header_fields(*final(map)) == header_fields(*old(map)).insert(
            field.name(),
            seq![header_bytes(value)],
        ),
{
    insert_value(map, field.text(), value);
}

/// `HeaderMap::get` of the name `range` gives the first value under it, if
/// there is one.
#[verifier::external_body]
pub(crate) fn get_range_header(map: &HeaderMap<HeaderValue>) -> (r: Option<&HeaderValue>)
    ensures
        match r {
            Some(v) => {
                &&& header_fields(*map).contains_key("range"@)
                &&& header_fields(*map)["range"@].len() > 0
                &&& header_bytes(*v) == header_fields(*map)["range"@][0]
            },
            None => !header_fields(*map).contains_key("range"@),
        },
{
    map.get(RANGE)
}

/// The text of the `range` field among a request's header fields: its first
/// value, if there is one and all of it is visible.
pub open spec fn range_text(fields: Fields) -> Option<Seq<char>> {
    if fields.contains_key("range"@) {
        visible_text(fields["range"@][0])
    } else {
        None
    }
}

proof fn lemma_visible_bytes(bytes: Seq<u8>)
    requires
        forall|i: int| 0 <= i < bytes.len() ==> is_visible_byte(#[trigger] bytes[i]),
    ensures
        encode_utf8(decode_utf8(bytes)) == bytes,
{
    let chars = bytes.map_values(|b: u8| b as char);
    assert forall|i: int| 0 <= i < chars.len() implies (#[trigger] chars[i]) as u32 <= 0x7f by {
        assert(is_visible_byte(bytes[i]));
    }
    vstd::utf8::is_ascii_chars_encode_utf8(chars);
    assert forall|i: int| 0 <= i < bytes.len() implies encode_utf8(chars)[i] == bytes[i] by {
        assert(is_visible_byte(bytes[i]));
        assert(chars[i] as u8 == bytes[i]);
    }
    assert(encode_utf8(chars) == bytes);
    vstd::utf8::encode_utf8_decode_utf8(chars);
}

/// Reads the `range` field of a request.
pub fn range_header(map: &HeaderMap<HeaderValue>) -> (r: Option<String>)
    ensures
        match r {
            Some(s) => range_text(header_fields(*map)) == Some(s@),
            None => range_text(header_fields(*map)) is None,
        },
        header_fields(*map).contains_key("range"@) && (forall|i: int|
            0 <= i < header_fields(*map)["range"@][0].len() ==> {
                let b = #[trigger] header_fields(*map)["range"@][0][i];
                32 <= b < 127 || b == 9
            }) ==> (r matches Some(s) && encode_utf8(s@) == header_fields(*map)["range"@][0]),
{
    proof {
        let bytes = header_fields(*map)["range"@][0];
        if forall|i: int| 0 <= i < bytes.len() ==> is_visible_byte(#[trigger] bytes[i]) {
            lemma_visible_bytes(bytes);
        }
    }
    match get_range_header(map) {
        Some(value) => match value.to_str() {
            Ok(s) => Some(s.to_owned()),
            Err(_) => None,
        },
        None => None,
    }
}

/// The error that a request is answered with: a status, a text that says why
/// and additional header fields.
#[derive(Debug)]
pub struct AppError {
    pub status: u16,
    pub detail: String,
    pub headers: HeaderMap<HeaderValue>,
}

/// What an error says.
#[verifier::ext_equal]
pub struct ErrorView {
    pub status: u16,
    pub detail: Seq<char>,
    pub headers: Fields,
}

impl View for AppError {
    type V = ErrorView;

    open spec fn view(&self) -> ErrorView {
        ErrorView {
            status: self.status,
            detail: self.detail@,
            headers: header_fields(self.headers),
        }
    }
}

/// An error without header fields.
pub open spec fn plain_error(status: u16, detail: Seq<char>) -> ErrorView {
    ErrorView { status, detail, headers: no_fields() }
}

/// What a decision that may refuse says.
pub open spec fn outcome<T>(r: Result<T, AppError>) -> Result<T, ErrorView> {
    match r {
        Ok(t) => Ok(t),
        Err(e) => Err(e@),
    }
}

impl AppError {
    /// An error without header fields.
    pub fn new(status: u16, detail: &str) -> (e: AppError)
        ensures
            e@ == plain_error(status, detail@),
    {
        AppError { status, detail: detail.to_owned(), headers: new_headers() }
    }

    /// The error with one more header field. A value that may not stand in a
    /// header leaves the error as it is.
    pub fn with_header(self, field: HeaderField, value: &str) -> (e: AppError)
        requires
            has_room(self@.headers),
        ensures
            e@ == (if is_value_text(value@) {
                ErrorView {
                    headers: self@.headers.insert(field.name(), seq![encode_utf8(value@)]),
                    ..self@
                }
            } else {
                self@
            }),
    {
        let mut e = self;
        match HeaderValue::from_str(value) {
            Ok(v) => insert_header(&mut e.headers, field, v),
            Err(_) => {},
        }
        e
    }
}

/// Text in visible ASCII may stand in a header value.
pub proof fn lemma_visible_value(s: Seq<char>)
    requires
        forall|i: int| 0 <= i < s.len() ==> ' ' <= #[trigger] s[i] <= '~',
    ensures
        is_value_text(s),
{
    vstd::utf8::is_ascii_chars_encode_utf8(s);
    assert forall|i: int| 0 <= i < encode_utf8(s).len() implies is_value_byte(
        #[trigger] encode_utf8(s)[i],
    ) by {
        assert(' ' <= s[i] <= '~');
    }
}

/// Checks a text that is to stand in a response header.
pub fn header_value(value: &str) -> (r: Result<HeaderValue, AppError>)
    ensures
        match r {
            Ok(v) => is_value_text(value@) && header_bytes(v) == encode_utf8(value@),
            Err(e) => !is_value_text(value@) && e@ == plain_error(
                INTERNAL_SERVER_ERROR,
                "invalid response header"@,
            ),
        },
{
    match HeaderValue::from_str(value) {
        Ok(v) => Ok(v),
        Err(_) => Err(AppError::new(INTERNAL_SERVER_ERROR, "invalid response header")),
    }
}

/// An error says what its status, its text and its header fields are; one
/// without header fields has none.
pub proof fn law_error_says(e: AppError, status: u16, detail: Seq<char>, name: Seq<char>)
    ensures
        e@.status == e.status,
        e@.detail == e.detail@,
        e@.headers == header_fields(e.headers),
        plain_error(status, detail).status == status,
        plain_error(status, detail).detail == detail,
        !plain_error(status, detail).headers.contains_key(name),
{
}

/// A decision that may refuse says what it decided, or what the refusal says.
pub proof fn law_outcome<T>(t: T, e: AppError)
    ensures
        outcome(Ok::<T, AppError>(t)) == Ok::<T, ErrorView>(t),
        outcome(Err::<T, AppError>(e)) == Err::<T, ErrorView>(e@),
{
}

proof fn lemma_char_in_encoding(s: Seq<char>, i: int)
    requires
        0 <= i < s.len(),
        s[i] as u32 <= 0x7f,
    ensures
        encode_utf8(s).contains(s[i] as u8),
{
    let a = s.take(i);
    let b = s.skip(i + 1);
    assert(s == a + seq![s[i]] + b);
    lemma_encode_concat(a + seq![s[i]], b);
    lemma_encode_concat(a, seq![s[i]]);
    lemma_encode_ascii(s[i]);
    assert(encode_utf8(s)[encode_utf8(a).len() as int] == s[i] as u8);
}

proof fn lemma_control_character(c: char)
    requires
        !((c >= ' ' && c != '\u{7f}') || c == '\t'),
    ensures
        c as u32 <= 0x7f,
        !is_value_byte(c as u8),
{
}

/// A text may stand in a header value exactly when it has no control character
/// other than a tab, however long it is.
pub proof fn law_value_text(s: Seq<char>)
    ensures
        is_value_text(s) <==> forall|i: int|
            0 <= i < s.len() ==> (#[trigger] s[i] >= ' ' && s[i] != '\u{7f}') || s[i] == '\t',
{
    let clean = forall|i: int|
        0 <= i < s.len() ==> (#[trigger] s[i] >= ' ' && s[i] != '\u{7f}') || s[i] == '\t';
    if clean {
        assert forall|i: int| 0 <= i < encode_utf8(s).len() implies is_value_byte(
            #[trigger] encode_utf8(s)[i],
        ) by {
            if encode_utf8(s)[i] < 0x80 {
                lemma_encoded_ascii_byte(s, i);
                let k = choose|k: int| 0 <= k < s.len() && s[k] == encode_utf8(s)[i] as char;
                assert((s[k] >= ' ' && s[k] != '\u{7f}') || s[k] == '\t');
            }
        }
    } else {
        let i = choose|i: int|
            0 <= i < s.len() && !((#[trigger] s[i] >= ' ' && s[i] != '\u{7f}') || s[i] == '\t');
        lemma_control_character(s[i]);
        lemma_char_in_encoding(s, i);
        let b = s[i] as u8;
        let k = choose|k: int| 0 <= k < encode_utf8(s).len() && encode_utf8(s)[k] == b;
        assert(!is_value_byte(encode_utf8(s)[k]));
    }
}

/// The range that a request asks for is the first value of its `range` field,
/// however long that is, if all of it is visible. A request without such a
/// field, or with a value that is not visible, asks for none.
pub proof fn law_range_text(fields: Fields, text: Seq<char>, i: int)
    ensures
        fields.contains_key("range"@) && fields["range"@][0] == encode_utf8(text) && (forall|j: int|
            0 <= j < text.len() ==> ' ' <= #[trigger] text[j] <= '~' || text[j] == '\t')
            ==> range_text(fields) == Some(text),
        !fields.contains_key("range"@) ==> range_text(fields) is None,
        0 <= i < fields["range"@][0].len() && !(32 <= fields["range"@][0][i] < 127
            || fields["range"@][0][i] == 9) ==> range_text(fields) is None,
{
    if forall|j: int| 0 <= j < text.len() ==> ' ' <= #[trigger] text[j] <= '~' || text[j] == '\t' {
        vstd::utf8::is_ascii_chars_encode_utf8(text);
        vstd::utf8::encode_utf8_decode_utf8(text);
        let bytes = encode_utf8(text);
        assert forall|j: int| 0 <= j < bytes.len() implies is_visible_byte(#[trigger] bytes[j]) by {
            assert(' ' <= text[j] <= '~' || text[j] == '\t');
        }
    }
    if 0 <= i < fields["range"@][0].len() {
        let bytes = fields["range"@][0];
        assert(is_visible_byte(bytes[i]) <==> 32 <= bytes[i] < 127 || bytes[i] == 9);
    }
}

} // verus!
