use vstd::prelude::*;

use crate::text::{push_str, same_text, string_from};

verus! {

/// The JSON-RPC version every envelope carries.
pub const JSONRPC_VERSION: &'static str = "2.0";

/// The name of the newline-delimited JSON-RPC transport over stdio.
pub const TRANSPORT_STDIO_JSONRPC_NDJSON: &'static str = "stdio-jsonrpc-ndjson";

/// An arbitrary JSON document, carried through unread.
#[verifier::external_type_specification]
#[verifier::external_body]
pub struct ExJsonValue(serde_json::Value);

/// A JSON encoding or decoding failure.
#[verifier::external_type_specification]
#[verifier::external_body]
pub struct ExJsonError(serde_json::Error);

/// An input or output failure.
#[verifier::external_type_specification]
#[verifier::external_body]
pub struct ExIoError(std::io::Error);

/// Which game, which version of it, and which ruleset.
#[derive(Debug, Clone, PartialEq, Eq)]
pub struct GameMetadata {
    pub game_id: String,
    pub game_version: String,
    pub ruleset_version: String,
}

/// A JSON-RPC request or notification.
#[derive(Debug, Clone, PartialEq, Eq)]
pub struct Request {
    pub jsonrpc: String,
    pub id: Option<String>,
    pub method: String,
    pub params: Option<serde_json::Value>,
}

/// A JSON-RPC response.
#[derive(Debug, Clone, PartialEq, Eq)]
pub struct Response {
    pub jsonrpc: String,
    pub id: String,
    pub result: Option<serde_json::Value>,
    pub error: Option<ErrorObject>,
}

/// The error member of a JSON-RPC response.
#[derive(Debug, Clone, PartialEq, Eq)]
pub struct ErrorObject {
    pub code: i32,
    pub message: String,
}

/// The transports a player may speak.
#[derive(Debug, Clone, Copy, PartialEq, Eq, Structural)]
pub enum Transport {
    StdioJsonrpcNdjson,
}

impl Transport {
    /// The transport's name on the wire.
    pub fn as_str(self) -> (s: &'static str)
        ensures
            s == TRANSPORT_STDIO_JSONRPC_NDJSON,
    {
        match self {
            Transport::StdioJsonrpcNdjson => TRANSPORT_STDIO_JSONRPC_NDJSON,
        }
    }
}

/// Why a line of the transport could not be taken as a message.
#[derive(Debug)]
pub enum DecodeError {
    Io(std::io::Error),
    MalformedJson(serde_json::Error),
    InvalidEnvelope(&'static str),
    MismatchedId { expected: String, actual: String },
    InvalidVersion(String),
    InvalidMetadata(&'static str),
    MalformedPayload(serde_json::Error),
}

/// The text `{:?}` gives for a string: the string quoted, with std's escapes.
pub uninterp spec fn debug_text(s: Seq<char>) -> Seq<char>;

/// `format!("{:?}", s)` on a string slice: its debug text, a function of
/// its characters alone.
#[verifier::external_body]
fn debug_str(s: &str) -> (r: String)
    ensures
        r@ == debug_text(s@),
{
    format!("{s:?}")
}

/// The `Display` text of a `std::io::Error`. Nothing is stated of it: the
/// text can come from the operating system.
#[verifier::external_body]
fn io_error_text(e: &std::io::Error) -> String {
    e.to_string()
}

/// The `Display` text of a `serde_json::Error`. Nothing is stated of it: it
/// is serde_json's message, with a line and column.
#[verifier::external_body]
fn json_error_text(e: &serde_json::Error) -> String {
    e.to_string()
}

impl DecodeError {
    /// The message of a decoding failure: a prefix naming the kind, then the
    /// detail; ids and versions are quoted as `{:?}` quotes them.
    pub fn describe(&self) -> (r: String)
        ensures
            match self {
                DecodeError::Io(_) => true,
                DecodeError::MalformedJson(_) => "malformed json: "@.is_prefix_of(r@),
                DecodeError::InvalidEnvelope(m) => r@ == "invalid envelope: "@ + m@,
                DecodeError::MismatchedId { expected, actual } => r@ == mismatch_text(
                    "mismatched id: "@,
                    expected@,
                    actual@,
                ),
                DecodeError::InvalidVersion(v) => r@ == "invalid version: "@ + debug_text(v@),
                DecodeError::InvalidMetadata(m) => r@ == "invalid metadata: "@ + m@,
                DecodeError::MalformedPayload(_) => "malformed payload: "@.is_prefix_of(r@),
            },
    {
        match self {
            DecodeError::Io(err) => io_error_text(err),
            DecodeError::MalformedJson(err) => {
                let mut r = string_from("malformed json: ");
                let detail = json_error_text(err);
                push_str(&mut r, detail.as_str());
                r
            },
            DecodeError::InvalidEnvelope(m) => {
                let mut r = string_from("invalid envelope: ");
                push_str(&mut r, m);
                r
            },
            DecodeError::MismatchedId { expected, actual } => mismatch_message(
                "mismatched id: ",
                expected,
                actual,
            ),
            DecodeError::InvalidVersion(v) => {
                let mut r = string_from("invalid version: ");
                let q = debug_str(v.as_str());
                push_str(&mut r, q.as_str());
                r
            },
            DecodeError::InvalidMetadata(m) => {
                let mut r = string_from("invalid metadata: ");
                push_str(&mut r, m);
                r
            },
            DecodeError::MalformedPayload(err) => {
                let mut r = string_from("malformed payload: ");
                let detail = json_error_text(err);
                push_str(&mut r, detail.as_str());
                r
            },
        }
    }
}

/// The envelope check of a request: version 2.0 and a method name.
pub open spec fn request_envelope_error(r: Request) -> Option<&'static str> {
    if r.jsonrpc@ != JSONRPC_VERSION@ {
        Some("jsonrpc must be 2.0")
    } else if r.method@.len() == 0 {
        Some("method is required")
    } else {
        None
    }
}

/// The envelope check of a response: version 2.0, an id, exactly one of
/// result and error, and a message in an error.
pub open spec fn response_envelope_error(r: Response) -> Option<&'static str> {
    if r.jsonrpc@ != JSONRPC_VERSION@ {
        Some("jsonrpc must be 2.0")
    } else if r.id@.len() == 0 {
        Some("id is required")
    } else if (r.result is Some) == (r.error is Some) {
        Some("exactly one of result or error is required")
    } else if r.error matches Some(e) && e.message@.len() == 0 {
        Some("error.message is required")
    } else {
        None
    }
}

fn is_jsonrpc_version(s: &String) -> (b: bool)
    ensures
        b == (s@ == JSONRPC_VERSION@),
{
    let v = string_from(JSONRPC_VERSION);
    *s == v
}

/// Checks the envelope of a decoded request.
pub fn validate_request(request: &Request) -> (r: Result<(), DecodeError>)
    ensures
        match request_envelope_error(*request) {
            Some(m) => r matches Err(DecodeError::InvalidEnvelope(e)) && e == m,
            None => r is Ok,
        },
{
    if !is_jsonrpc_version(&request.jsonrpc) {
        return Err(DecodeError::InvalidEnvelope("jsonrpc must be 2.0"));
    }
    if request.method.as_str().is_empty() {
        return Err(DecodeError::InvalidEnvelope("method is required"));
    }
    Ok(())
}

/// Checks the envelope of a decoded response.
pub fn validate_response(response: &Response) -> (r: Result<(), DecodeError>)
    ensures
        match response_envelope_error(*response) {
            Some(m) => r matches Err(DecodeError::InvalidEnvelope(e)) && e == m,
            None => r is Ok,
        },
{
    if !is_jsonrpc_version(&response.jsonrpc) {
        return Err(DecodeError::InvalidEnvelope("jsonrpc must be 2.0"));
    }
    if response.id.as_str().is_empty() {
        return Err(DecodeError::InvalidEnvelope("id is required"));
    }
    let has_result = response.result.is_some();
    let has_error = response.error.is_some();
    if has_result == has_error {
        return Err(DecodeError::InvalidEnvelope("exactly one of result or error is required"));
    }
    match &response.error {
        Some(error) => {
            if error.message.as_str().is_empty() {
                return Err(DecodeError::InvalidEnvelope("error.message is required"));
            }
        },
        None => {},
    }
    Ok(())
}

/// The successful answer to request `id`, carrying `result`; it passes the
/// envelope check exactly when the id is not empty.
pub fn success_response(id: &str, result: serde_json::Value) -> (r: Response)
    ensures
        r.jsonrpc@ == JSONRPC_VERSION@,
        r.id@ == id@,
        r.result == Some(result),
        r.error is None,
        response_envelope_error(r) is None <==> id@.len() > 0,
{
    Response { jsonrpc: string_from(JSONRPC_VERSION), id: string_from(id), result: Some(result), error: None }
}

/// Accepts a response only when it answers the request with id `expected`.
pub fn match_response_id(expected: &str, response: &Response) -> (r: Result<(), DecodeError>)
    ensures
        response.id@ == expected@ ==> r is Ok,
        response.id@ != expected@ ==> (r matches Err(DecodeError::MismatchedId { expected: e, actual: a })
            && e@ == expected@ && a@ == response.id@),
{
    let wanted = string_from(expected);
    if response.id == wanted {
        Ok(())
    } else {
        Err(DecodeError::MismatchedId { expected: wanted, actual: response.id.clone() })
    }
}

/// Why two metadata tuples are not compatible.
#[derive(Debug, Clone, PartialEq, Eq)]
pub enum MetadataCompatibilityError {
    GameIdMismatch { expected: String, actual: String },
    GameVersionMajorMismatch { expected: String, actual: String },
    RulesetMismatch { expected: String, actual: String },
}

/// `prefix`, the quoted expected value, `, got `, the quoted actual value.
pub open spec fn mismatch_text(prefix: Seq<char>, expected: Seq<char>, actual: Seq<char>) -> Seq<char> {
    prefix + "expected "@ + debug_text(expected) + ", got "@ + debug_text(actual)
}

fn mismatch_message(prefix: &str, expected: &String, actual: &String) -> (r: String)
    ensures
        r@ == mismatch_text(prefix@, expected@, actual@),
{
    let mut r = string_from(prefix);
    push_str(&mut r, "expected ");
    let e = debug_str(expected.as_str());
    push_str(&mut r, e.as_str());
    push_str(&mut r, ", got ");
    let a = debug_str(actual.as_str());
    push_str(&mut r, a.as_str());
    r
}

impl MetadataCompatibilityError {
    /// The message of a metadata mismatch: the field, then both values
    /// quoted as `{:?}` quotes them.
    pub fn describe(&self) -> (r: String)
        ensures
            r@ == match self {
                MetadataCompatibilityError::GameIdMismatch { expected, actual } => mismatch_text(
                    "game_id mismatch: "@,
                    expected@,
                    actual@,
                ),
                MetadataCompatibilityError::GameVersionMajorMismatch { expected, actual } =>
                    mismatch_text("game_version major mismatch: "@, expected@, actual@),
                MetadataCompatibilityError::RulesetMismatch { expected, actual } => mismatch_text(
                    "ruleset_version mismatch: "@,
                    expected@,
                    actual@,
                ),
            },
    {
        match self {
            MetadataCompatibilityError::GameIdMismatch { expected, actual } => mismatch_message(
                "game_id mismatch: ",
                expected,
                actual,
            ),
            MetadataCompatibilityError::GameVersionMajorMismatch { expected, actual } =>
                mismatch_message("game_version major mismatch: ", expected, actual),
            MetadataCompatibilityError::RulesetMismatch { expected, actual } => mismatch_message(
                "ruleset_version mismatch: ",
                expected,
                actual,
            ),
        }
    }
}

/// Index of the first `.` in `s` at or after `i`, or the length of `s`.
pub open spec fn first_dot_from(s: Seq<char>, i: int) -> int
    decreases s.len() - i,
{
    if i >= s.len() {
        s.len() as int
    } else if s[i] == '.' {
        i
    } else {
        first_dot_from(s, i + 1)
    }
}

/// The major component of a version: everything before the first `.`.
pub open spec fn major_of(s: Seq<char>) -> Seq<char> {
    s.subrange(0, first_dot_from(s, 0))
}

proof fn lemma_first_dot_from(s: Seq<char>, i: int)
    requires
        0 <= i <= s.len(),
    ensures
        i <= first_dot_from(s, i) <= s.len(),
    decreases s.len() - i,
{
    if i < s.len() && s[i] != '.' {
        lemma_first_dot_from(s, i + 1);
    }
}

/// The major component of a version string: the text before its first `.`,
/// or the whole string when it has none.
pub fn major_version(version: &str) -> (m: &str)
    ensures
        m@ == major_of(version@),
{
    let n = version.unicode_len();
    let mut i: usize = 0;
    while i < n
        invariant
            0 <= i <= n,
            n == version@.len(),
            first_dot_from(version@, 0) == first_dot_from(version@, i as int),
        ensures
            first_dot_from(version@, 0) == i,
            i <= n,
        decreases n - i,
    {
        if version.get_char(i) == '.' {
            break;
        }
        i = i + 1;
    }
    proof {
        lemma_first_dot_from(version@, i as int);
    }
    version.substring_char(0, i)
}

/// Whether a player built for `actual` can take part in a match of
/// `expected`: same game, same major version, same ruleset; the first
/// difference in that order is reported.
pub open spec fn spec_metadata_compatible(expected: GameMetadata, actual: GameMetadata) -> Option<
    int,
> {
    if expected.game_id@ != actual.game_id@ {
        Some(0)
    } else if major_of(expected.game_version@) != major_of(actual.game_version@) {
        Some(1)
    } else if expected.ruleset_version@ != actual.ruleset_version@ {
        Some(2)
    } else {
        None
    }
}

/// Checks that `actual` fits `expected`: same game id, same major version,
/// same ruleset; the error names the first field that differs and both values.
pub fn metadata_compatible(expected: &GameMetadata, actual: &GameMetadata) -> (r: Result<
    (),
    MetadataCompatibilityError,
>)
    ensures
        spec_metadata_compatible(*expected, *actual) is None <==> r is Ok,
        spec_metadata_compatible(*expected, *actual) == Some(0int) ==> (r matches Err(
            MetadataCompatibilityError::GameIdMismatch { expected: e, actual: a },
        ) && e@ == expected.game_id@ && a@ == actual.game_id@),
        spec_metadata_compatible(*expected, *actual) == Some(1int) ==> (r matches Err(
            MetadataCompatibilityError::GameVersionMajorMismatch { expected: e, actual: a },
        ) && e@ == expected.game_version@ && a@ == actual.game_version@),
        spec_metadata_compatible(*expected, *actual) == Some(2int) ==> (r matches Err(
            MetadataCompatibilityError::RulesetMismatch { expected: e, actual: a },
        ) && e@ == expected.ruleset_version@ && a@ == actual.ruleset_version@),
{
    if expected.game_id != actual.game_id {
        return Err(
            MetadataCompatibilityError::GameIdMismatch {
                expected: expected.game_id.clone(),
                actual: actual.game_id.clone(),
            },
        );
    }
    if !same_text(
        major_version(expected.game_version.as_str()),
        major_version(actual.game_version.as_str()),
    ) {
        return Err(
            MetadataCompatibilityError::GameVersionMajorMismatch {
                expected: expected.game_version.clone(),
                actual: actual.game_version.clone(),
            },
        );
    }
    if expected.ruleset_version != actual.ruleset_version {
        return Err(
            MetadataCompatibilityError::RulesetMismatch {
                expected: expected.ruleset_version.clone(),
                actual: actual.ruleset_version.clone(),
            },
        );
    }
    Ok(())
}


/// Every metadata tuple is compatible with itself, and compatibility does
/// not depend on which side is the expected one.
pub proof fn law_metadata_compatibility_is_an_equivalence(a: GameMetadata, b: GameMetadata, c: GameMetadata)
    ensures
        spec_metadata_compatible(a, a) is None,
        spec_metadata_compatible(a, b) is None <==> spec_metadata_compatible(b, a) is None,
        spec_metadata_compatible(a, b) is None && spec_metadata_compatible(b, c) is None
            ==> spec_metadata_compatible(a, c) is None,
{
}

/// A response passes the envelope check only with version 2.0, an id, and
/// exactly one of a result and an error.
pub proof fn law_valid_response_has_one_outcome(r: Response)
    requires
        response_envelope_error(r) is None,
    ensures
        r.jsonrpc@ == JSONRPC_VERSION@,
        r.id@.len() > 0,
        (r.result is Some) != (r.error is Some),
{
}

} // verus!
