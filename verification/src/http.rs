//! What is sent with an HTTP request and what is accepted of a response.

use vstd::prelude::*;
use vstd::utf8::{decode_utf8, valid_utf8};

use crate::error::{AgentError, AgentResult, ErrorView};
use crate::lines::rejoined;
use crate::redact::{scrub_error_body, scrubbed, truncated, MAX_ERROR_BODY_LEN};
use crate::text::{cat2, cat3, cat4, cat5, decimal, decimal_of};

verus! {

/// Maximum number of bytes read from the body of a response: 16 MiB.
pub const DEFAULT_MAX_RESPONSE_BYTES: usize = 16777216;

/// Maximum number of bytes that the state of a stream may take: 32 MiB.
pub const DEFAULT_MAX_STREAM_STATE_BYTES: usize = 33554432;

// ---------------------------------------------------------------------------
// Headers
// ---------------------------------------------------------------------------

/// A header of a request.
#[derive(Debug)]
pub struct Header {
    pub name: String,
    pub value: String,
    /// Whether the value must not be shown.
    pub sensitive: bool,
}

/// What a header holds.
#[verifier::ext_equal]
pub struct HeaderView {
    pub name: Seq<char>,
    pub value: Seq<char>,
    pub sensitive: bool,
}

impl View for Header {
    type V = HeaderView;

    open spec fn view(&self) -> HeaderView {
        HeaderView { name: self.name@, value: self.value@, sensitive: self.sensitive }
    }
}

impl DeepView for Header {
    type V = HeaderView;

    open spec fn deep_view(&self) -> HeaderView {
        self@
    }
}

/// Whether a text can be the value of a header: it holds no control character but the tab.
pub open spec fn is_header_value(value: Seq<char>) -> bool {
    forall|i: int|
        0 <= i < value.len() ==> (#[trigger] value[i]) as u32 >= 32 && value[i] as u32 != 127 || value[i] == '\t'
}

/// `HeaderValue::from_str` accepts a text unless one of its bytes is a control
/// character other than the tab; bytes of characters outside ASCII are accepted.
#[verifier::external_body]
fn header_value_ok(value: &str) -> (ok: bool)
    ensures
        ok == is_header_value(value@),
{
    reqwest::header::HeaderValue::from_str(value).is_ok()
}

/// Whether a text can be the value of a header.
pub fn valid_header_value(value: &str) -> (ok: bool)
    ensures
        ok == is_header_value(value@),
{
    header_value_ok(value)
}

/// The header that states a JSON body.
pub open spec fn json_content_type() -> HeaderView {
    HeaderView { name: "content-type"@, value: "application/json"@, sensitive: false }
}

/// A header whose value may be shown.
pub fn plain_header(name: &str, value: &str) -> (header: Header)
    ensures
        header@ == (HeaderView { name: name@, value: value@, sensitive: false }),
{
    Header { name: name.to_owned(), value: value.to_owned(), sensitive: false }
}

/// A header whose value must not be shown.
pub fn secret_header(name: &str, value: &str) -> (header: Header)
    ensures
        header@ == (HeaderView { name: name@, value: value@, sensitive: true }),
{
    Header { name: name.to_owned(), value: value.to_owned(), sensitive: true }
}

/// The headers of a JSON request with a credential: the content type and the
/// credential, which must be a header value.
pub fn credential_headers(name: &str, value: &str, complaint: &str) -> (result: AgentResult<Vec<Header>>)
    ensures
        match result {
            Ok(headers) => is_header_value(value@) && headers.deep_view() == seq![
                json_content_type(),
                HeaderView { name: name@, value: value@, sensitive: true },
            ],
            Err(error) => !is_header_value(value@) && error@ == ErrorView::InvalidRequest(complaint@),
        },
{
    if !valid_header_value(value) {
        return Err(AgentError::invalid_request(complaint));
    }
    let mut headers: Vec<Header> = Vec::new();
    headers.push(plain_header("content-type", "application/json"));
    headers.push(secret_header(name, value));
    assert(headers.deep_view() =~= seq![
        json_content_type(),
        HeaderView { name: name@, value: value@, sensitive: true },
    ]);
    Ok(headers)
}

// ---------------------------------------------------------------------------
// Bodies
// ---------------------------------------------------------------------------

/// The error for a body that is announced to be too long.
pub open spec fn announced_too_long(len: nat, max_bytes: nat) -> ErrorView {
    ErrorView::HttpError("response Content-Length "@ + decimal(len) + " exceeds limit "@ + decimal(max_bytes))
}

/// The error for a body that turned out to be too long.
pub open spec fn body_too_long(max_bytes: nat) -> ErrorView {
    ErrorView::HttpError("response body exceeded "@ + decimal(max_bytes) + " bytes"@)
}

/// Refuse a body that is announced to be longer than the limit.
pub fn check_content_length(content_length: Option<u64>, max_bytes: usize) -> (result: AgentResult<()>)
    ensures
        match result {
            Ok(_) => content_length is None || content_length->0 <= max_bytes,
            Err(error) => content_length is Some && content_length->0 > max_bytes && error@ == announced_too_long(
                content_length->0 as nat,
                max_bytes as nat,
            ),
        },
{
    match content_length {
        Some(len) => if len > max_bytes as u64 {
            Err(
                AgentError::HttpError(
                    cat4(
                        "response Content-Length ",
                        decimal_of(len).as_str(),
                        " exceeds limit ",
                        decimal_of(max_bytes as u64).as_str(),
                    ),
                ),
            )
        } else {
            Ok(())
        },
        None => Ok(()),
    }
}

/// What is read of a body after one more piece, unless the body exceeds its limit.
pub open spec fn with_piece(bytes: Seq<u8>, piece: Seq<u8>, max_bytes: nat) -> Option<Seq<u8>> {
    if bytes.len() + piece.len() <= max_bytes {
        Some(bytes + piece)
    } else {
        None
    }
}

/// A body that is read piece by piece up to a limit.
#[derive(Debug)]
pub struct BoundedBody {
    pub bytes: Vec<u8>,
    pub max_bytes: usize,
}

impl BoundedBody {
    /// A body of which nothing has been read yet.
    pub fn new(max_bytes: usize) -> (body: Self)
        ensures
            body.bytes@ == Seq::<u8>::empty(),
            body.max_bytes == max_bytes,
    {
        BoundedBody { bytes: Vec::new(), max_bytes }
    }

    /// Take the next piece, unless the body would exceed its limit with it.
    pub fn push(&mut self, chunk: &Vec<u8>) -> (result: AgentResult<()>)
        requires
            old(self).bytes@.len() <= old(self).max_bytes,
        ensures
            final(self).max_bytes == old(self).max_bytes,
            final(self).bytes@.len() <= final(self).max_bytes,
            match with_piece(old(self).bytes@, chunk@, old(self).max_bytes as nat) {
                Some(bytes) => result is Ok && final(self).bytes@ == bytes,
                None => {
                    &&& result is Err
                    &&& final(self).bytes@ == old(self).bytes@
                    &&& result->Err_0@ == body_too_long(old(self).max_bytes as nat)
                },
            },
    {
        if chunk.len() > self.max_bytes - self.bytes.len() {
            return Err(
                AgentError::HttpError(
                    cat3("response body exceeded ", decimal_of(self.max_bytes as u64).as_str(), " bytes"),
                ),
            );
        }
        let ghost before = self.bytes@;
        self.bytes.extend_from_slice(chunk.as_slice());
        assert(self.bytes@ =~= before + chunk@);
        Ok(())
    }
}

/// What is read of a body that comes in pieces, unless it exceeds its limit.
pub open spec fn read_pieces(pieces: Seq<Seq<u8>>, max_bytes: nat) -> Option<Seq<u8>>
    decreases pieces.len(),
{
    if pieces.len() == 0 {
        Some(Seq::empty())
    } else {
        match read_pieces(pieces.drop_last(), max_bytes) {
            Some(bytes) => with_piece(bytes, pieces.last(), max_bytes),
            None => None,
        }
    }
}

/// It does not matter into which pieces a body is cut: it is read whole if it is
/// within its limit, and refused if it is not.
pub proof fn law_bodies_are_bounded(pieces: Seq<Seq<u8>>, max_bytes: nat)
    ensures
        read_pieces(pieces, max_bytes) == if rejoined(pieces).len() <= max_bytes {
            Some(rejoined(pieces))
        } else {
            None
        },
    decreases pieces.len(),
{
    if pieces.len() > 0 {
        law_bodies_are_bounded(pieces.drop_last(), max_bytes);
        lemma_rejoined_last(pieces);
    }
}

proof fn lemma_rejoined_last(pieces: Seq<Seq<u8>>)
    requires
        pieces.len() > 0,
    ensures
        rejoined(pieces) == rejoined(pieces.drop_last()) + pieces.last(),
    decreases pieces.len(),
{
    let rest = pieces.skip(1);
    if pieces.len() > 1 {
        lemma_rejoined_last(rest);
        assert(rest.drop_last() =~= pieces.drop_last().skip(1));
        assert(rest.last() == pieces.last());
        assert(rejoined(pieces.drop_last()) == pieces[0] + rejoined(rest.drop_last()));
    } else {
        assert(rejoined(rest) =~= Seq::empty());
        assert(rejoined(pieces.drop_last()) =~= Seq::empty());
    }
    assert(rejoined(pieces) =~= rejoined(pieces.drop_last()) + pieces.last());
}

/// What `String::from_utf8_lossy` makes of bytes.
pub uninterp spec fn utf8_lossy(bytes: Seq<u8>) -> Seq<char>;

/// `String::from_utf8_lossy` decodes UTF-8 and puts a replacement character where
/// bytes are not valid UTF-8. The result depends on the bytes alone; of valid
/// UTF-8 it is the text that was encoded.
#[verifier::external_body]
fn decode_lossy(bytes: &Vec<u8>) -> (text: String)
    ensures
        text@ == utf8_lossy(bytes@),
        valid_utf8(bytes@) ==> text@ == decode_utf8(bytes@),
{
    String::from_utf8_lossy(bytes).into_owned()
}

/// The text of a body, with replacement characters where it is not UTF-8.
pub fn body_text(bytes: &Vec<u8>) -> (text: String)
    ensures
        text@ == utf8_lossy(bytes@),
        valid_utf8(bytes@) ==> text@ == decode_utf8(bytes@),
{
    decode_lossy(bytes)
}

/// The text of the body of an error response: empty where it could not be read
/// within its limit.
pub open spec fn error_body(body: Option<Seq<u8>>) -> Seq<char> {
    match body {
        Some(bytes) => utf8_lossy(bytes),
        None => Seq::empty(),
    }
}

/// The text of the body of an error response.
pub fn error_body_text(body: Option<&Vec<u8>>) -> (text: String)
    ensures
        text@ == error_body(
            match body {
                Some(bytes) => Some(bytes@),
                None => None,
            },
        ),
{
    match body {
        Some(bytes) => body_text(bytes),
        None => String::new(),
    }
}

/// The error for a response that reports a failure: what failed, the status, and
/// the scrubbed body.
pub open spec fn status_error(what: Seq<char>, status: Seq<char>, status_code: u16, body: Seq<char>) -> ErrorView {
    ErrorView::ProviderError {
        message: what + " ("@ + status + "): "@ + scrubbed(truncated(body, MAX_ERROR_BODY_LEN as nat)),
        status_code: Some(status_code),
    }
}

/// The error for a response that reports a failure.
pub fn error_for_status(what: &str, status: &str, status_code: u16, body: &str) -> (error: AgentError)
    ensures
        error@ == status_error(what@, status@, status_code, body@),
{
    let scrubbed_body = scrub_error_body(body);
    AgentError::ProviderError {
        message: cat5(what, " (", status, "): ", scrubbed_body.as_str()),
        status_code: Some(status_code),
    }
}

/// The error for an environment variable that is not set.
pub open spec fn missing_variable(name: Seq<char>) -> ErrorView {
    ErrorView::InvalidRequest(name + " environment variable is not set"@)
}

/// The value of an environment variable that must be set.
pub fn required_variable(name: &str, value: Option<String>) -> (result: AgentResult<String>)
    ensures
        match result {
            Ok(text) => value.deep_view() == Some(text@),
            Err(error) => value is None && error@ == missing_variable(name@),
        },
{
    match value {
        Some(text) => Ok(text),
        None => Err(AgentError::InvalidRequest(cat2(name, " environment variable is not set"))),
    }
}

/// The value of an environment variable, or a default where it is not set.
pub fn variable_or(value: Option<String>, default: &str) -> (text: String)
    ensures
        text@ == match value.deep_view() {
            Some(text) => text,
            None => default@,
        },
{
    match value {
        Some(text) => text,
        None => default.to_owned(),
    }
}

/// A text may stand in a header exactly if it has no control character but the tab: no
/// header can be made to end early by its value.
pub proof fn law_header_values(value: Seq<char>)
    ensures
        is_header_value(value) ==> forall|i: int|
            0 <= i < value.len() ==> #[trigger] value[i] != '\n' && value[i] != '\r' && value[i] != '\0',
        (forall|i: int|
            0 <= i < value.len() ==> 32 <= (#[trigger] value[i]) as u32 && value[i] as u32 != 127) ==> is_header_value(
            value,
        ),
        json_content_type().name == "content-type"@,
        json_content_type().value == "application/json"@,
        !json_content_type().sensitive,
{
}

/// The error of a failed request says what failed, with which status, and what the
/// service said, cut and scrubbed; a body that could not be read says nothing.
pub proof fn law_failures_are_reported(
    what: Seq<char>,
    status: Seq<char>,
    status_code: u16,
    body: Seq<char>,
    bytes: Seq<u8>,
    len: nat,
    max: nat,
    name: Seq<char>,
)
    ensures
        status_error(what, status, status_code, body) is ProviderError,
        status_error(what, status, status_code, body)->status_code == Some(status_code),
        status_error(what, status, status_code, body)->ProviderError_message == what + " ("@ + status + "): "@
            + scrubbed(truncated(body, 2048)),
        error_body(Some(bytes)) == utf8_lossy(bytes),
        error_body(None) == Seq::<char>::empty(),
        announced_too_long(len, max) == ErrorView::HttpError(
            "response Content-Length "@ + decimal(len) + " exceeds limit "@ + decimal(max),
        ),
        body_too_long(max) == ErrorView::HttpError("response body exceeded "@ + decimal(max) + " bytes"@),
        missing_variable(name) == ErrorView::InvalidRequest(name + " environment variable is not set"@),
{
}

/// The model of a header has its name, its value and whether the value may be shown.
pub proof fn law_header_model_is_complete(header: Header)
    ensures
        header@.name == header.name@,
        header@.value == header.value@,
        header@.sensitive == header.sensitive,
{
}

} // verus!
