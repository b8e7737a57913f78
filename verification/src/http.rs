//! The application-layer decoder: what was disclosed of the response, read
//! as HTTP as far as it goes. Decoding never fails; it falls back to a less
//! structured form.

use crate::digest;
use crate::json;
use crate::json::JsonTree;
use crate::transcript::Transcript;
use crate::transcript::TranscriptView;
use vstd::prelude::*;

verus! {

/// What was decoded of the disclosed response.
#[derive(Debug, PartialEq)]
pub enum ApplicationData {
    /// Nothing was disclosed.
    Null,
    /// The body, parsed as JSON.
    Json(serde_json::Value),
    /// The body as text, or the whole of it where no body was found.
    Text(String),
    /// The bytes in hexadecimal, where they are not UTF-8.
    Raw(String),
}

/// What an `ApplicationData` holds, as mathematical values.
pub enum ApplicationDataView {
    Null,
    Json(JsonTree),
    Text(Seq<char>),
    Raw(Seq<char>),
}

impl View for ApplicationData {
    type V = ApplicationDataView;

    open spec fn view(&self) -> ApplicationDataView {
        match self {
            ApplicationData::Null => ApplicationDataView::Null,
            ApplicationData::Json(value) => ApplicationDataView::Json(json::json_tree(*value)),
            ApplicationData::Text(text) => ApplicationDataView::Text(text@),
            ApplicationData::Raw(hex) => ApplicationDataView::Raw(hex@),
        }
    }
}

/// The JSON value that stands for decoded data in a report: null for
/// nothing, the body's own tree, or an object with the one member `text` or
/// `raw`.
pub open spec fn data_tree(data: ApplicationDataView) -> JsonTree {
    match data {
        ApplicationDataView::Null => JsonTree::Null,
        ApplicationDataView::Json(tree) => tree,
        ApplicationDataView::Text(text) => JsonTree::Object(
            Map::empty().insert("text"@, JsonTree::Text(text)),
        ),
        ApplicationDataView::Raw(hex) => JsonTree::Object(
            Map::empty().insert("raw"@, JsonTree::Text(hex)),
        ),
    }
}

impl ApplicationData {
    /// The JSON value that stands for this data in a report.
    pub fn into_json(self) -> (value: serde_json::Value)
        ensures
            json::json_tree(value) == data_tree(self@),
    {
        match self {
            ApplicationData::Null => json::json_null(),
            ApplicationData::Json(value) => value,
            ApplicationData::Text(text) => json::json_text_member("text", text.as_str()),
            ApplicationData::Raw(hex) => json::json_text_member("raw", hex.as_str()),
        }
    }
}

/// Whether the blank line that ends the headers, CR LF CR LF, stands at `i`.
pub open spec fn separator_at(bytes: Seq<u8>, i: int) -> bool {
    &&& 0 <= i
    &&& i + 4 <= bytes.len()
    &&& bytes[i] == 13
    &&& bytes[i + 1] == 10
    &&& bytes[i + 2] == 13
    &&& bytes[i + 3] == 10
}

/// The first position from `from` on at which a separator stands.
pub open spec fn find_separator(bytes: Seq<u8>, from: int) -> Option<int>
    decreases bytes.len() - from,
{
    if from < 0 || from + 4 > bytes.len() {
        None
    } else if separator_at(bytes, from) {
        Some(from)
    } else {
        find_separator(bytes, from + 1)
    }
}

/// A body: its JSON tree where it is a JSON document, else its text.
pub open spec fn decode_body(body: Seq<char>) -> ApplicationDataView {
    match json::json_document(body) {
        Some(tree) => ApplicationDataView::Json(tree),
        None => ApplicationDataView::Text(body),
    }
}

/// A response. Bytes that are not UTF-8 are given in hexadecimal. Else the
/// body is what follows the first separator; without a separator the whole
/// text is given.
pub open spec fn response_data(bytes: Seq<u8>) -> ApplicationDataView {
    if !vstd::utf8::valid_utf8(bytes) {
        ApplicationDataView::Raw(digest::hex_text(bytes))
    } else {
        match find_separator(bytes, 0) {
            Some(i) => decode_body(
                vstd::utf8::decode_utf8(bytes.subrange(i + 4, bytes.len() as int)),
            ),
            None => ApplicationDataView::Text(vstd::utf8::decode_utf8(bytes)),
        }
    }
}

/// What a transcript's disclosed response decodes to.
pub open spec fn decode_transcript(transcript: TranscriptView) -> ApplicationDataView {
    response_data(transcript.received_bytes())
}

/// Where `find_separator` finds a separator, one stands there and none
/// stands before it from `from` on; where it finds none, there is none.
pub proof fn lemma_find_separator(bytes: Seq<u8>, from: int)
    requires
        0 <= from,
    ensures
        match find_separator(bytes, from) {
            Some(i) => {
                &&& from <= i
                &&& separator_at(bytes, i)
                &&& forall|j: int| from <= j < i ==> !separator_at(bytes, j)
            },
            None => forall|j: int| from <= j ==> !separator_at(bytes, j),
        },
    decreases bytes.len() - from,
{
    if from + 4 <= bytes.len() && !separator_at(bytes, from) {
        lemma_find_separator(bytes, from + 1);
    }
}

/// In UTF-8 text a character begins right after a separator: the
/// separator's last byte is a character of its own.
pub proof fn lemma_body_starts_a_character(bytes: Seq<u8>, i: int)
    requires
        vstd::utf8::valid_utf8(bytes),
        separator_at(bytes, i),
    ensures
        vstd::utf8::is_char_boundary(bytes, i + 4),
        vstd::utf8::valid_utf8(bytes.subrange(i + 4, bytes.len() as int)),
{
    let last = i + 3;
    vstd::utf8::is_char_boundary_iff_not_is_continuation_byte(bytes, last);
    vstd::utf8::valid_utf8_split(bytes, last);
    let tail = bytes.subrange(last, bytes.len() as int);
    let body = bytes.subrange(i + 4, bytes.len() as int);
    assert(tail[0] == 10);
    assert(vstd::utf8::pop_first_scalar(tail) =~= body);
    assert(vstd::utf8::valid_utf8(body));
    if i + 4 < bytes.len() {
        assert(vstd::utf8::valid_first_scalar(body));
        assert(body[0] == bytes[i + 4]);
        assert(!vstd::utf8::is_continuation_byte(body[0]));
        vstd::utf8::is_char_boundary_iff_not_is_continuation_byte(bytes, i + 4);
    } else {
        vstd::utf8::is_char_boundary_start_end_of_seq(bytes);
    }
}

/// Trusted: `core::str::from_utf8`. It succeeds exactly on the byte strings
/// that are valid UTF-8, and the text it gives is made of the same bytes.
#[verifier::external_body]
fn utf8_text(bytes: &[u8]) -> (text: Option<&str>)
    ensures
        match text {
            Some(s) => vstd::utf8::valid_utf8(bytes@) && s@ == vstd::utf8::decode_utf8(bytes@),
            None => !vstd::utf8::valid_utf8(bytes@),
        },
{
    core::str::from_utf8(bytes).ok()
}

/// The first position at which a separator stands.
pub fn separator_position(bytes: &[u8]) -> (position: Option<usize>)
    ensures
        match position {
            Some(i) => find_separator(bytes@, 0) == Some(i as int),
            None => find_separator(bytes@, 0) is None,
        },
{
    let n = bytes.len();
    if n < 4 {
        return None;
    }
    let last = n - 4;
    let mut i: usize = 0;
    while i <= last
        invariant
            n == bytes@.len(),
            last == n - 4,
            0 <= i <= last + 1,
            find_separator(bytes@, 0) == find_separator(bytes@, i as int),
        decreases last + 1 - i,
    {
        if bytes[i] == 13 && bytes[i + 1] == 10 && bytes[i + 2] == 13 && bytes[i + 3] == 10 {
            return Some(i);
        }
        i = i + 1;
    }
    None
}

/// The data of a body whose JSON parse is `parsed`.
pub fn body_data(body: &str, parsed: Option<serde_json::Value>) -> (data: ApplicationData)
    ensures
        data@ == match parsed {
            Some(value) => ApplicationDataView::Json(json::json_tree(value)),
            None => ApplicationDataView::Text(body@),
        },
{
    match parsed {
        Some(value) => ApplicationData::Json(value),
        None => ApplicationData::Text(String::from_str(body)),
    }
}

/// Decodes the disclosed bytes of a response.
pub fn decode_response(transcript: &[u8]) -> (data: ApplicationData)
    ensures
        data@ == response_data(transcript@),
{
    let text = match utf8_text(transcript) {
        Some(text) => text,
        None => {
            return ApplicationData::Raw(digest::hex_encode(transcript));
        },
    };
    match separator_position(transcript) {
        Some(i) => {
            proof {
                lemma_find_separator(transcript@, 0);
                lemma_body_starts_a_character(transcript@, i as int);
                vstd::utf8::decode_utf8_encode_utf8(transcript@);
            }
            let n = transcript.len();
            assert(i + 4 <= n);
            let (_, body) = text.split_at(i + 4);
            proof {
                vstd::utf8::encode_utf8_decode_utf8(body@);
            }
            body_data(body, json::parse_json(body))
        },
        None => ApplicationData::Text(String::from_str(text)),
    }
}

/// Decodes what a transcript discloses of the response. Withheld bytes are
/// left out, never read as bytes.
pub fn decode_http(transcript: &Transcript) -> (data: ApplicationData)
    ensures
        data@ == decode_transcript(transcript@),
{
    let bytes = transcript.received_bytes();
    decode_response(bytes.as_slice())
}

/// Decodes the disclosed bytes of a response into the JSON value that a
/// report carries.
pub fn parse_http_response(transcript: &[u8]) -> (data: serde_json::Value)
    ensures
        json::json_tree(data) == data_tree(response_data(transcript@)),
{
    decode_response(transcript).into_json()
}

} // verus!
