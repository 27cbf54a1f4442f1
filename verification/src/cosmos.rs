//! Histories and checkpoints in Azure Cosmos DB: what is sent, how it is signed,
//! and how answers are read.

use hmac::{Hmac, Mac};
use sha2::Sha256;
use vstd::prelude::*;
use vstd::utf8::encode_utf8;

use crate::calendar::{civil_date, clock, format_http_date, http_date, month_name, weekday_name};
use crate::debug::{duration, duration_text, quote, quoted, record, record_text};
use crate::encoding::{base64_bytes, base64_decode, base64_encode, base64_text};
use crate::error::{AgentError, AgentResult, ErrorView};
use crate::http::{
    body_text, is_header_value, json_content_type, missing_variable, plain_header, required_variable, utf8_lossy,
    Header, HeaderView, DEFAULT_MAX_RESPONSE_BYTES,
};
use crate::json::Json;
use crate::redact::{scrub_error_body, scrubbed, truncated, MAX_ERROR_BODY_LEN};
use crate::secret::SecretString;
use crate::text::{
    cat2, cat3, cat4, cat5, decimal, decimal_of, lowercase, padded, to_lowercase, trim_end, trim_end_of, zeros,
};
use crate::time::epoch_seconds;
use crate::types::{extend_messages, Message, MessageView};
use crate::urlencoding::{encode, encoded_bytes, law_encoded_is_header_value};

verus! {

/// Overall request timeout, in milliseconds.
pub const DEFAULT_REQUEST_TIMEOUT: u64 = 30000;

/// TCP connect timeout, in milliseconds.
pub const DEFAULT_CONNECT_TIMEOUT: u64 = 10000;

/// Configuration for connecting to Azure Cosmos DB.
pub struct CosmosConfig {
    /// The account endpoint.
    pub endpoint: String,
    /// The master key.
    pub key: SecretString,
    /// Database name.
    pub database: String,
    /// Container name.
    pub container: String,
    /// Overall request timeout, in milliseconds.
    pub request_timeout: u64,
    /// TCP connect timeout, in milliseconds.
    pub connect_timeout: u64,
}

impl CosmosConfig {
    /// Create a config from the values of the environment variables
    /// `COSMOS_ENDPOINT`, `COSMOS_KEY`, `COSMOS_DATABASE` and `COSMOS_CONTAINER`,
    /// all of which are required.
    pub fn from_env(
        endpoint: Option<String>,
        key: Option<String>,
        database: Option<String>,
        container: Option<String>,
    ) -> (result: AgentResult<Self>)
        ensures
            match result {
                Ok(config) => {
                    &&& endpoint.deep_view() == Some(config.endpoint@)
                    &&& key.deep_view() == Some(config.key@)
                    &&& database.deep_view() == Some(config.database@)
                    &&& container.deep_view() == Some(config.container@)
                    &&& config.request_timeout == DEFAULT_REQUEST_TIMEOUT == 30000
                    &&& config.connect_timeout == DEFAULT_CONNECT_TIMEOUT == 10000
                },
                Err(error) => if endpoint is None {
                    error@ == missing_variable("COSMOS_ENDPOINT"@)
                } else if key is None {
                    error@ == missing_variable("COSMOS_KEY"@)
                } else if database is None {
                    error@ == missing_variable("COSMOS_DATABASE"@)
                } else {
                    container is None && error@ == missing_variable("COSMOS_CONTAINER"@)
                },
            },
    {
        let endpoint = match required_variable("COSMOS_ENDPOINT", endpoint) {
            Ok(value) => value,
            Err(error) => return Err(error),
        };
        let key = match required_variable("COSMOS_KEY", key) {
            Ok(value) => value,
            Err(error) => return Err(error),
        };
        let database = match required_variable("COSMOS_DATABASE", database) {
            Ok(value) => value,
            Err(error) => return Err(error),
        };
        let container = match required_variable("COSMOS_CONTAINER", container) {
            Ok(value) => value,
            Err(error) => return Err(error),
        };
        Ok(
            CosmosConfig {
                endpoint,
                key: SecretString::new(key.as_str()),
                database,
                container,
                request_timeout: DEFAULT_REQUEST_TIMEOUT,
                connect_timeout: DEFAULT_CONNECT_TIMEOUT,
            },
        )
    }

    /// What a log shows of the configuration: everything but the key.
    pub fn debug_text(&self) -> (text: String)
        ensures
            text@ == record(
                "CosmosConfig"@,
                seq![
                    ("endpoint"@, quoted(self.endpoint@)),
                    ("key"@, "SecretString([REDACTED])"@),
                    ("database"@, quoted(self.database@)),
                    ("container"@, quoted(self.container@)),
                    ("request_timeout"@, duration(self.request_timeout as nat)),
                    ("connect_timeout"@, duration(self.connect_timeout as nat)),
                ],
            ),
    {
        let mut fields: Vec<(&str, String)> = Vec::new();
        fields.push(("endpoint", quote(self.endpoint.as_str())));
        fields.push(("key", self.key.debug_text()));
        fields.push(("database", quote(self.database.as_str())));
        fields.push(("container", quote(self.container.as_str())));
        fields.push(("request_timeout", duration_text(self.request_timeout)));
        fields.push(("connect_timeout", duration_text(self.connect_timeout)));
        assert(fields.deep_view() =~= seq![
            ("endpoint"@, quoted(self.endpoint@)),
            ("key"@, "SecretString([REDACTED])"@),
            ("database"@, quoted(self.database@)),
            ("container"@, quoted(self.container@)),
            ("request_timeout"@, duration(self.request_timeout as nat)),
            ("connect_timeout"@, duration(self.connect_timeout as nat)),
        ]);
        record_text("CosmosConfig", &fields)
    }

    /// Resource link of the collection.
    pub fn colls_resource_link(&self) -> (link: String)
        ensures
            link@ == collection_link(self.database@, self.container@),
    {
        cat4("dbs/", self.database.as_str(), "/colls/", self.container.as_str())
    }

    /// Resource link of a document.
    pub fn doc_resource_link(&self, doc_id: &str) -> (link: String)
        ensures
            link@ == collection_link(self.database@, self.container@) + "/docs/"@ + doc_id@,
    {
        cat3(self.colls_resource_link().as_str(), "/docs/", doc_id)
    }

    /// URL of the documents of the collection.
    pub fn docs_url(&self) -> (url: String)
        ensures
            url@ == trim_end(self.endpoint@, '/') + "/"@ + collection_link(self.database@, self.container@) + "/docs"@,
    {
        let base = trim_end_of(self.endpoint.as_str(), '/');
        cat4(base.as_str(), "/", self.colls_resource_link().as_str(), "/docs")
    }

    /// URL of a document.
    pub fn doc_url(&self, doc_id: &str) -> (url: String)
        ensures
            url@ == trim_end(self.endpoint@, '/') + "/"@ + collection_link(self.database@, self.container@) + "/docs"@
                + "/"@ + doc_id@,
    {
        cat3(self.docs_url().as_str(), "/", doc_id)
    }
}

/// The link of a collection.
pub open spec fn collection_link(database: Seq<char>, container: Seq<char>) -> Seq<char> {
    "dbs/"@ + database + "/colls/"@ + container
}

// ---------------------------------------------------------------------------
// Authorization
// ---------------------------------------------------------------------------

/// The HMAC-SHA256 of data under a key.
pub uninterp spec fn hmac_sha256(key: Seq<u8>, data: Seq<u8>) -> Seq<u8>;

/// `Hmac::<Sha256>`: `new_from_slice`, which takes a key of any length, `update`
/// and `finalize`. The 32 bytes that come out depend on the key and the data
/// alone and are named [`hmac_sha256`].
#[verifier::external_body]
fn sign(key: &Vec<u8>, data: &[u8]) -> (result: Result<Vec<u8>, String>)
    ensures
        result is Ok,
        result->Ok_0@ == hmac_sha256(key@, data@),
        result->Ok_0@.len() == 32,
{
    match <Hmac<Sha256> as Mac>::new_from_slice(key) {
        Ok(mac) => Ok(mac.chain_update(data).finalize().into_bytes().to_vec()),
        Err(e) => Err(e.to_string()),
    }
}

/// What is signed: all lower case except the date.
pub open spec fn auth_payload(
    verb: Seq<char>,
    resource_type: Seq<char>,
    resource_link: Seq<char>,
    date: Seq<char>,
) -> Seq<char> {
    lowercase(verb) + "\n"@ + lowercase(resource_type) + "\n"@ + lowercase(resource_link) + "\n"@ + date + "\n\n"@
}

/// The token for a signature.
pub open spec fn token_for(signature: Seq<u8>) -> Seq<char> {
    encoded_bytes(encode_utf8("type=master&ver=1.0&sig="@ + base64_text(signature)))
}

/// What is signed.
pub fn auth_payload_of(verb: &str, resource_type: &str, resource_link: &str, date: &str) -> (payload: String)
    ensures
        payload@ == auth_payload(verb@, resource_type@, resource_link@, date@),
{
    let verb = to_lowercase(verb);
    let kind = to_lowercase(resource_type);
    let link = to_lowercase(resource_link);
    let head = cat5(verb.as_str(), "\n", kind.as_str(), "\n", link.as_str());
    let payload = cat4(head.as_str(), "\n", date, "\n\n");
    payload
}

/// The token for a signature.
pub fn token_for_signature(signature: &Vec<u8>) -> (token: String)
    ensures
        token@ == token_for(signature@),
{
    encode(cat2("type=master&ver=1.0&sig=", base64_encode(signature).as_str()).as_str())
}

/// Generate a master-key authorization token. The key must be Base64.
pub fn generate_auth_token(
    key: &SecretString,
    verb: &str,
    resource_type: &str,
    resource_link: &str,
    date: &str,
) -> (result: AgentResult<String>)
    ensures
        match base64_bytes(key@) {
            Ok(bytes) => {
                &&& result is Ok
                &&& result->Ok_0@ == token_for(
                    hmac_sha256(bytes, encode_utf8(auth_payload(verb@, resource_type@, resource_link@, date@))),
                )
            },
            Err(message) => {
                &&& result is Err
                &&& result->Err_0@ == ErrorView::InvalidRequest("Invalid Cosmos master key (base64): "@ + message)
            },
        },
{
    let key_bytes = match base64_decode(key.expose()) {
        Ok(bytes) => bytes,
        Err(message) => {
            return Err(
                AgentError::invalid_request(cat2("Invalid Cosmos master key (base64): ", message.as_str()).as_str()),
            );
        },
    };
    let payload = auth_payload_of(verb, resource_type, resource_link, date);
    match sign(&key_bytes, payload.as_str().as_bytes()) {
        Ok(signature) => Ok(token_for_signature(&signature)),
        Err(message) => Err(
            AgentError::invalid_request(cat2("Invalid HMAC key length: ", message.as_str()).as_str()),
        ),
    }
}

/// The current time in the form that HTTP prefers.
pub fn rfc7231_date() -> (date: String)
    ensures
        exists|seconds: nat| date@ == #[trigger] http_date(seconds),
{
    let seconds: u64 = epoch_seconds();
    format_http_date(seconds)
}

/// A text made of two that can be header values can be one.
proof fn lemma_joined_header_value(a: Seq<char>, b: Seq<char>)
    requires
        is_header_value(a),
        is_header_value(b),
    ensures
        is_header_value(a + b),
{
    let all = a + b;
    assert forall|i: int| 0 <= i < all.len() implies (#[trigger] all[i]) as u32 >= 32 && all[i] as u32 != 127
        || all[i] == '\t' by {
        if i < a.len() {
            assert(all[i] == a[i]);
        } else {
            assert(all[i] == b[i - a.len()]);
        }
    }
}

/// A number can be a header value.
proof fn lemma_decimal_header_value(n: nat)
    ensures
        is_header_value(decimal(n)),
    decreases n,
{
    if n >= 10 {
        lemma_decimal_header_value(n / 10);
        let before = decimal(n / 10);
        let all = decimal(n);
        assert forall|i: int| 0 <= i < all.len() implies (#[trigger] all[i]) as u32 >= 32 && all[i] as u32 != 127
            || all[i] == '\t' by {
            if i < before.len() {
                assert(all[i] == before[i]);
            }
        }
    }
}

/// A padded number can be a header value.
proof fn lemma_padded_header_value(n: nat, width: nat)
    ensures
        is_header_value(padded(n, width)),
{
    lemma_decimal_header_value(n);
    if decimal(n).len() < width {
        lemma_joined_header_value(zeros((width - decimal(n).len()) as nat), decimal(n));
    }
}

/// A date can be the value of a header.
pub proof fn law_dates_are_header_values(seconds: nat)
    ensures
        is_header_value(http_date(seconds)),
{
    let days = seconds as int / 86400;
    let (year, month, day) = civil_date(days);
    let rest = seconds as int % 86400;
    reveal_strlit("Thu");
    reveal_strlit("Fri");
    reveal_strlit("Sat");
    reveal_strlit("Sun");
    reveal_strlit("Mon");
    reveal_strlit("Tue");
    reveal_strlit("Wed");
    reveal_strlit("Jan");
    reveal_strlit("Feb");
    reveal_strlit("Mar");
    reveal_strlit("Apr");
    reveal_strlit("May");
    reveal_strlit("Jun");
    reveal_strlit("Jul");
    reveal_strlit("Aug");
    reveal_strlit("Sep");
    reveal_strlit("Oct");
    reveal_strlit("Nov");
    reveal_strlit("Dec");
    reveal_strlit(", ");
    reveal_strlit(" ");
    reveal_strlit(":");
    reveal_strlit(" GMT");
    let hours = padded((rest / 3600) as nat, 2);
    let minutes = padded((rest % 3600 / 60) as nat, 2);
    let secs = padded((rest % 60) as nat, 2);
    lemma_padded_header_value((rest / 3600) as nat, 2);
    lemma_padded_header_value((rest % 3600 / 60) as nat, 2);
    lemma_padded_header_value((rest % 60) as nat, 2);
    lemma_padded_header_value(day as nat, 2);
    lemma_padded_header_value(year as nat, 4);
    lemma_joined_header_value(hours, ":"@);
    lemma_joined_header_value(hours + ":"@, minutes);
    lemma_joined_header_value(hours + ":"@ + minutes, ":"@);
    lemma_joined_header_value(hours + ":"@ + minutes + ":"@, secs);
    lemma_joined_header_value(clock(rest), " GMT"@);
    let m = month_name(month);
    let y = padded(year as nat, 4);
    lemma_joined_header_value(m, " "@);
    lemma_joined_header_value(m + " "@, y);
    lemma_joined_header_value(m + " "@ + y, " "@);
    lemma_joined_header_value(m + " "@ + y + " "@, clock(rest) + " GMT"@);
    let w = weekday_name(days);
    let d = padded(day as nat, 2);
    lemma_joined_header_value(w, ", "@);
    lemma_joined_header_value(w + ", "@, d);
    lemma_joined_header_value(w + ", "@ + d, " "@);
    lemma_joined_header_value(
        w + ", "@ + d + " "@,
        m + " "@ + y + " "@ + (clock(rest) + " GMT"@),
    );
}

// ---------------------------------------------------------------------------
// Requests
// ---------------------------------------------------------------------------

/// The headers of a request that was signed at a time.
pub open spec fn signed_headers(date: Seq<char>, token: Seq<char>) -> Seq<HeaderView> {
    seq![
        json_content_type(),
        HeaderView { name: "x-ms-date"@, value: date, sensitive: false },
        HeaderView { name: "x-ms-version"@, value: "2018-12-31"@, sensitive: false },
        HeaderView { name: "authorization"@, value: token, sensitive: false },
    ]
}

/// The header that lets a write replace what is there.
pub open spec fn upsert_header() -> HeaderView {
    HeaderView { name: "x-ms-documentdb-is-upsert"@, value: "true"@, sensitive: false }
}

impl CosmosConfig {
    /// Build the headers of a request that is signed at the given time, in seconds
    /// from the beginning of 1970. Each of their values can be one; only a key that
    /// is not Base64 is refused.
    pub fn build_headers(&self, verb: &str, resource_type: &str, resource_link: &str, now: u64) -> (result: AgentResult<
        Vec<Header>,
    >)
        ensures
            match base64_bytes(self.key@) {
                Ok(bytes) => {
                    &&& result is Ok
                    &&& result->Ok_0.deep_view() == signed_headers(
                        http_date(now as nat),
                        token_for(
                            hmac_sha256(
                                bytes,
                                encode_utf8(
                                    auth_payload(verb@, resource_type@, resource_link@, http_date(now as nat)),
                                ),
                            ),
                        ),
                    )
                    &&& forall|i: int|
                        0 <= i < result->Ok_0@.len() ==> is_header_value(
                            (#[trigger] result->Ok_0.deep_view()[i]).value,
                        )
                },
                Err(message) => {
                    &&& result is Err
                    &&& result->Err_0@ == ErrorView::InvalidRequest("Invalid Cosmos master key (base64): "@ + message)
                },
            },
    {
        let date = format_http_date(now);
        let token = match generate_auth_token(&self.key, verb, resource_type, resource_link, date.as_str()) {
            Ok(token) => token,
            Err(error) => return Err(error),
        };
        let mut headers: Vec<Header> = Vec::new();
        headers.push(plain_header("content-type", "application/json"));
        headers.push(plain_header("x-ms-date", date.as_str()));
        headers.push(plain_header("x-ms-version", "2018-12-31"));
        headers.push(plain_header("authorization", token.as_str()));
        assert(headers.deep_view() =~= signed_headers(date@, token@));
        proof {
            reveal_strlit("application/json");
            reveal_strlit("2018-12-31");
            law_dates_are_header_values(now as nat);
            let bytes = base64_bytes(self.key@)->Ok_0;
            let signature = hmac_sha256(
                bytes,
                encode_utf8(auth_payload(verb@, resource_type@, resource_link@, date@)),
            );
            law_encoded_is_header_value(encode_utf8("type=master&ver=1.0&sig="@ + base64_text(signature)));
        }
        Ok(headers)
    }

    /// Build the headers of a request that writes a document, whether or not it is
    /// there already.
    pub fn build_upsert_headers(&self, now: u64) -> (result: AgentResult<Vec<Header>>)
        ensures
            match base64_bytes(self.key@) {
                Ok(bytes) => {
                    &&& result is Ok
                    &&& result->Ok_0.deep_view() == signed_headers(
                        http_date(now as nat),
                        token_for(
                            hmac_sha256(
                                bytes,
                                encode_utf8(
                                    auth_payload(
                                        "post"@,
                                        "docs"@,
                                        collection_link(self.database@, self.container@),
                                        http_date(now as nat),
                                    ),
                                ),
                            ),
                        ),
                    ).push(upsert_header())
                },
                Err(message) => {
                    &&& result is Err
                    &&& result->Err_0@ == ErrorView::InvalidRequest("Invalid Cosmos master key (base64): "@ + message)
                },
            },
    {
        let link = self.colls_resource_link();
        match self.build_headers("post", "docs", link.as_str(), now) {
            Ok(headers) => {
                let mut headers = headers;
                let ghost before = headers.deep_view();
                headers.push(plain_header("x-ms-documentdb-is-upsert", "true"));
                assert(headers.deep_view() =~= before.push(upsert_header()));
                Ok(headers)
            },
            Err(error) => Err(error),
        }
    }
}

// ---------------------------------------------------------------------------
// Answers
// ---------------------------------------------------------------------------

/// The error for an answer that is too long.
pub open spec fn answer_too_long() -> ErrorView {
    ErrorView::HttpError("Response body exceeds "@ + decimal(DEFAULT_MAX_RESPONSE_BYTES as nat) + " bytes"@)
}

/// The error for an answer that reports a failure.
pub open spec fn answer_refused(status: Seq<char>, code: u16, body: Seq<char>) -> ErrorView {
    ErrorView::ProviderError {
        message: "Cosmos DB returned "@ + status + ": "@ + scrubbed(truncated(body, MAX_ERROR_BODY_LEN as nat)),
        status_code: Some(code),
    }
}

/// The text of an answer, given its status and its bytes.
pub fn read_answer(status: &str, code: u16, bytes: &Vec<u8>) -> (result: AgentResult<String>)
    ensures
        match result {
            Ok(body) => {
                &&& bytes@.len() <= DEFAULT_MAX_RESPONSE_BYTES
                &&& 200 <= code < 300
                &&& body@ == utf8_lossy(bytes@)
            },
            Err(error) => if bytes@.len() > DEFAULT_MAX_RESPONSE_BYTES {
                error@ == answer_too_long()
            } else {
                !(200 <= code < 300) && error@ == answer_refused(status@, code, utf8_lossy(bytes@))
            },
        },
{
    if bytes.len() > DEFAULT_MAX_RESPONSE_BYTES {
        let limit = decimal_of(DEFAULT_MAX_RESPONSE_BYTES as u64);
        return Err(AgentError::HttpError(cat3("Response body exceeds ", limit.as_str(), " bytes")));
    }
    let body = body_text(bytes);
    if code < 200 || code >= 300 {
        let shown = scrub_error_body(body.as_str());
        return Err(
            AgentError::provider(cat4("Cosmos DB returned ", status, ": ", shown.as_str()).as_str(), Some(code)),
        );
    }
    Ok(body)
}

/// The text of a document, given the answer to a request for it: `None` where
/// there is no such document.
pub fn read_document(status: &str, code: u16, bytes: &Vec<u8>) -> (result: AgentResult<Option<String>>)
    ensures
        match result {
            Ok(None) => code == 404,
            Ok(Some(body)) => {
                &&& bytes@.len() <= DEFAULT_MAX_RESPONSE_BYTES
                &&& 200 <= code < 300
                &&& body@ == utf8_lossy(bytes@)
            },
            Err(error) => code != 404 && if bytes@.len() > DEFAULT_MAX_RESPONSE_BYTES {
                error@ == answer_too_long()
            } else {
                !(200 <= code < 300) && error@ == answer_refused(status@, code, utf8_lossy(bytes@))
            },
        },
{
    if code == 404 {
        return Ok(None);
    }
    match read_answer(status, code, bytes) {
        Ok(body) => Ok(Some(body)),
        Err(error) => Err(error),
    }
}

// ---------------------------------------------------------------------------
// Documents
// ---------------------------------------------------------------------------

/// A history in Cosmos DB.
#[derive(Debug)]
pub struct HistoryDocument {
    pub id: String,
    pub messages: Vec<Message>,
}

/// A checkpoint in Cosmos DB.
#[derive(Debug)]
pub struct CheckpointDocument {
    pub id: String,
    pub data: Json,
}

/// A history provider backed by Cosmos DB: one document for each session.
pub struct CosmosHistoryProvider {
    pub config: CosmosConfig,
}

/// The history that is there, none if it could not be read.
pub open spec fn known_history(existing: AgentResult<Vec<Message>>) -> Seq<MessageView> {
    match existing {
        Ok(messages) => messages.deep_view(),
        Err(_) => Seq::empty(),
    }
}

impl CosmosHistoryProvider {
    /// A provider with the given configuration.
    pub fn new(config: CosmosConfig) -> (provider: Self)
        ensures
            provider.config == config,
    {
        CosmosHistoryProvider { config }
    }

    /// URL of the documents of the collection.
    pub fn docs_url(&self) -> (url: String)
        ensures
            url@ == trim_end(self.config.endpoint@, '/') + "/"@ + collection_link(
                self.config.database@,
                self.config.container@,
            ) + "/docs"@,
    {
        self.config.docs_url()
    }

    /// Resource link of a document.
    pub fn doc_resource_link(&self, doc_id: &str) -> (link: String)
        ensures
            link@ == collection_link(self.config.database@, self.config.container@) + "/docs/"@ + doc_id@,
    {
        self.config.doc_resource_link(doc_id)
    }

    /// The document that holds what was read of a session's history and the new
    /// messages after it.
    pub fn history_to_save(
        session_id: &str,
        existing: AgentResult<Vec<Message>>,
        messages: &Vec<Message>,
    ) -> (document: HistoryDocument)
        ensures
            document.id@ == session_id@,
            document.messages.deep_view() == known_history(existing) + messages.deep_view(),
    {
        let mut all = match existing {
            Ok(known) => known,
            Err(_) => {
                let none: Vec<Message> = Vec::new();
                assert(none.deep_view() =~= Seq::<MessageView>::empty());
                none
            },
        };
        extend_messages(&mut all, messages);
        HistoryDocument { id: session_id.to_owned(), messages: all }
    }
}

/// A checkpoint storage backed by Cosmos DB.
pub struct CosmosCheckpointStorage {
    pub config: CosmosConfig,
}

impl CosmosCheckpointStorage {
    /// A storage with the given configuration.
    pub fn new(config: CosmosConfig) -> (storage: Self)
        ensures
            storage.config == config,
    {
        CosmosCheckpointStorage { config }
    }

    /// The document that holds a checkpoint.
    pub fn checkpoint_to_save(checkpoint_id: &str, data: Json) -> (document: CheckpointDocument)
        ensures
            document.id@ == checkpoint_id@,
            document.data == data,
    {
        CheckpointDocument { id: checkpoint_id.to_owned(), data }
    }
}

/// What is signed is the verb, the kind of resource and its link in lower case and the
/// date as it is, one to a line, and then an empty line. The token names the kind of key
/// and the version and holds the signature in Base64.
pub proof fn law_requests_are_signed(
    verb: Seq<char>,
    resource_type: Seq<char>,
    resource_link: Seq<char>,
    date: Seq<char>,
    signature: Seq<u8>,
)
    ensures
        auth_payload(verb, resource_type, resource_link, date) == lowercase(verb) + "\n"@ + lowercase(resource_type)
            + "\n"@ + lowercase(resource_link) + "\n"@ + date + "\n\n"@,
        token_for(signature) == encoded_bytes(
            encode_utf8("type=master&ver=1.0&sig="@ + base64_text(signature)),
        ),
{
}

/// A request carries the date that was signed, the version of the API and the token;
/// the link of a collection names its database and the collection.
pub proof fn law_headers_carry_date_and_token(
    date: Seq<char>,
    token: Seq<char>,
    database: Seq<char>,
    container: Seq<char>,
)
    ensures
        ({
            let headers = signed_headers(date, token);
            &&& headers.len() == 4
            &&& headers[0].name == "content-type"@ && headers[0].value == "application/json"@
            &&& headers[1].name == "x-ms-date"@ && headers[1].value == date
            &&& headers[2].name == "x-ms-version"@ && headers[2].value == "2018-12-31"@
            &&& headers[3].name == "authorization"@ && headers[3].value == token
        }),
        upsert_header().name == "x-ms-documentdb-is-upsert"@,
        upsert_header().value == "true"@,
        collection_link(database, container) == "dbs/"@ + database + "/colls/"@ + container,
{
}

/// A failure is reported with its status and what the service said, cut and scrubbed; an
/// answer that is too long with the limit.
pub proof fn law_answers_are_reported(status: Seq<char>, code: u16, body: Seq<char>)
    ensures
        answer_refused(status, code, body) is ProviderError,
        answer_refused(status, code, body)->status_code == Some(code),
        answer_refused(status, code, body)->ProviderError_message == "Cosmos DB returned "@ + status + ": "@
            + scrubbed(truncated(body, 2048)),
        answer_too_long() == ErrorView::HttpError("Response body exceeds "@ + decimal(16777216) + " bytes"@),
{
}

/// What was read of a history is kept before what is saved now; where it could not be
/// read, there is none.
pub proof fn law_known_history(messages: Vec<Message>, error: AgentError)
    ensures
        known_history(Ok(messages)) == messages.deep_view(),
        known_history(Err(error)).len() == 0,
{
}

} // verus!
