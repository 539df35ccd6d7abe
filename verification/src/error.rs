//! The error type shared by every layer, and the mapping from HTTP status codes.
use vstd::prelude::*;

verus! {

/// What can go wrong while talking to a CalDAV server or reading its data.
#[derive(Debug)]
pub enum CalDavError {
    AuthFailure(String),
    ResourceNotFound(String),
    ServerOverloaded,
    XmlParseError(String),
    IcsParseError(String),
    PartialFailure { errors: Vec<String> },
    /// A transport failure, carried as the HTTP client's description of it.
    Http(String),
    Config(String),
}

/// The mathematical value of a `CalDavError`.
pub enum CalDavErrorView {
    AuthFailure(Seq<char>),
    ResourceNotFound(Seq<char>),
    ServerOverloaded,
    XmlParseError(Seq<char>),
    IcsParseError(Seq<char>),
    PartialFailure { errors: Seq<Seq<char>> },
    Http(Seq<char>),
    Config(Seq<char>),
}

impl View for CalDavError {
    type V = CalDavErrorView;

    open spec fn view(&self) -> CalDavErrorView {
        match self {
            CalDavError::AuthFailure(s) => CalDavErrorView::AuthFailure(s@),
            CalDavError::ResourceNotFound(s) => CalDavErrorView::ResourceNotFound(s@),
            CalDavError::ServerOverloaded => CalDavErrorView::ServerOverloaded,
            CalDavError::XmlParseError(s) => CalDavErrorView::XmlParseError(s@),
            CalDavError::IcsParseError(s) => CalDavErrorView::IcsParseError(s@),
            CalDavError::PartialFailure { errors } => CalDavErrorView::PartialFailure {
                errors: errors@.map_values(|e: String| e@),
            },
            CalDavError::Http(s) => CalDavErrorView::Http(s@),
            CalDavError::Config(s) => CalDavErrorView::Config(s@),
        }
    }
}

/// The view of a result whose error is a `CalDavError`, with the success
/// value mapped by `f`.
pub open spec fn result_view<T, V>(r: Result<T, CalDavError>, f: spec_fn(T) -> V) -> Result<
    V,
    CalDavErrorView,
> {
    match r {
        Ok(t) => Ok(f(t)),
        Err(e) => Err(e@),
    }
}

/// The text of an HTTP status line for a code, as `StatusCode`'s `Display`
/// writes it (the code and its canonical reason).
pub uninterp spec fn spec_status_text(code: u16) -> Seq<char>;

/// Calls `reqwest::StatusCode::from_u16` and formats the code with its
/// `Display`; the text is named `spec_status_text`.
#[verifier::external_body]
fn status_text(code: u16) -> (r: String)
    requires
        100 <= code <= 999,
    ensures
        r@ == spec_status_text(code),
{
    match reqwest::StatusCode::from_u16(code) {
        Ok(status) => format!("{status}"),
        Err(_) => String::new(),
    }
}

/// The text that `{:?}` writes for a list of strings.
pub uninterp spec fn spec_debug_strings(v: Seq<Seq<char>>) -> Seq<char>;

/// Calls `Debug::fmt` of `Vec<String>`; the text is named `spec_debug_strings`.
#[verifier::external_body]
fn debug_strings(v: &Vec<String>) -> (r: String)
    ensures
        r@ == spec_debug_strings(v@.map_values(|e: String| e@)),
{
    format!("{:?}", v)
}

/// The error for an HTTP status that has a meaning of its own, if any.
pub open spec fn status_error(status: u16, url: Seq<char>) -> Option<CalDavErrorView> {
    if status == 401 || status == 403 {
        Some(CalDavErrorView::AuthFailure(spec_status_text(status) + " for "@ + url))
    } else if status == 404 {
        Some(CalDavErrorView::ResourceNotFound(url))
    } else if status == 429 || status == 503 {
        Some(CalDavErrorView::ServerOverloaded)
    } else {
        None
    }
}

/// Whether a status code counts as a success of a WebDAV request
/// (any 2xx, 207 Multi-Status among them).
pub open spec fn status_ok(status: u16) -> bool {
    200 <= status <= 299
}

/// The outcome of a WebDAV request with this status.
pub open spec fn status_outcome(status: u16, url: Seq<char>) -> Result<(), CalDavErrorView> {
    if status_ok(status) {
        Ok(())
    } else {
        match status_error(status, url) {
            Some(e) => Err(e),
            None => Err(
                CalDavErrorView::XmlParseError(
                    "unexpected HTTP "@ + spec_status_text(status) + " for "@ + url,
                ),
            ),
        }
    }
}

/// The message that a `CalDavError` displays.
pub open spec fn error_message(e: CalDavErrorView) -> Seq<char> {
    match e {
        CalDavErrorView::AuthFailure(s) => "authentication failure: "@ + s,
        CalDavErrorView::ResourceNotFound(s) => "resource not found: "@ + s,
        CalDavErrorView::ServerOverloaded => "server overloaded (retry later)"@,
        CalDavErrorView::XmlParseError(s) => "XML parse error: "@ + s,
        CalDavErrorView::IcsParseError(s) => "ICS parse error: "@ + s,
        CalDavErrorView::PartialFailure { errors } => "partial failure: "@ + spec_debug_strings(
            errors,
        ),
        CalDavErrorView::Http(s) => "HTTP error: "@ + s,
        CalDavErrorView::Config(s) => "configuration error: "@ + s,
    }
}

/// The JSON-RPC error code under which an MCP client receives an error.
pub open spec fn error_code(e: CalDavErrorView) -> int {
    match e {
        CalDavErrorView::AuthFailure(_) => -32001,
        CalDavErrorView::ResourceNotFound(_) => -32002,
        CalDavErrorView::ServerOverloaded => -32003,
        CalDavErrorView::XmlParseError(_) => -32004,
        CalDavErrorView::IcsParseError(_) => -32005,
        CalDavErrorView::PartialFailure { .. } => -32006,
        CalDavErrorView::Http(_) => -32007,
        CalDavErrorView::Config(_) => -32008,
    }
}

/// `a` followed by `b`.
pub fn concat2(a: &str, b: &str) -> (r: String)
    ensures
        r@ == a@ + b@,
{
    let mut s = String::from_str(a);
    s.append(b);
    s
}

/// `a`, `b` and `c` in a row.
pub fn concat3(a: &str, b: &str, c: &str) -> (r: String)
    ensures
        r@ == a@ + b@ + c@,
{
    let mut s = String::from_str(a);
    s.append(b);
    s.append(c);
    s
}

/// `a`, `b`, `c` and `d` in a row.
pub fn concat4(a: &str, b: &str, c: &str, d: &str) -> (r: String)
    ensures
        r@ == a@ + b@ + c@ + d@,
{
    let mut s = String::from_str(a);
    s.append(b);
    s.append(c);
    s.append(d);
    s
}

impl CalDavError {
    /// The error for an HTTP status that has a meaning of its own:
    /// 401/403 are authentication failures, 404 a missing resource,
    /// 429/503 an overloaded server; any other status gives `None`.
    pub fn from_http_status(status: u16, url: &str) -> (r: Option<CalDavError>)
        requires
            100 <= status <= 999,
        ensures
            match r {
                Some(e) => status_error(status, url@) == Some(e@),
                None => status_error(status, url@) is None,
            },
    {
        if status == 401 || status == 403 {
            let text = status_text(status);
            Some(CalDavError::AuthFailure(concat3(text.as_str(), " for ", url)))
        } else if status == 404 {
            Some(CalDavError::ResourceNotFound(String::from_str(url)))
        } else if status == 429 || status == 503 {
            Some(CalDavError::ServerOverloaded)
        } else {
            None
        }
    }

    /// The message this error displays.
    pub fn message(&self) -> (r: String)
        ensures
            r@ == error_message(self@),
    {
        match self {
            CalDavError::AuthFailure(s) => concat2("authentication failure: ", s.as_str()),
            CalDavError::ResourceNotFound(s) => concat2("resource not found: ", s.as_str()),
            CalDavError::ServerOverloaded => String::from_str("server overloaded (retry later)"),
            CalDavError::XmlParseError(s) => concat2("XML parse error: ", s.as_str()),
            CalDavError::IcsParseError(s) => concat2("ICS parse error: ", s.as_str()),
            CalDavError::PartialFailure { errors } => {
                let d = debug_strings(errors);
                concat2("partial failure: ", d.as_str())
            },
            CalDavError::Http(s) => concat2("HTTP error: ", s.as_str()),
            CalDavError::Config(s) => concat2("configuration error: ", s.as_str()),
        }
    }

    /// The JSON-RPC error code of this error.
    pub fn mcp_error_code(&self) -> (r: i32)
        ensures
            r == error_code(self@),
    {
        match self {
            CalDavError::AuthFailure(_) => -32001,
            CalDavError::ResourceNotFound(_) => -32002,
            CalDavError::ServerOverloaded => -32003,
            CalDavError::XmlParseError(_) => -32004,
            CalDavError::IcsParseError(_) => -32005,
            CalDavError::PartialFailure { .. } => -32006,
            CalDavError::Http(_) => -32007,
            CalDavError::Config(_) => -32008,
        }
    }
}

/// Whether a WebDAV response with this status is usable: any 2xx status
/// (207 Multi-Status included) is; a status with a meaning of its own gives
/// that error; any other gives an "unexpected HTTP" error.
pub fn check_status(status: u16, url: &str) -> (r: Result<(), CalDavError>)
    requires
        100 <= status <= 999,
    ensures
        result_view(r, |u: ()| u) == status_outcome(status, url@),
{
    if 200 <= status && status <= 299 {
        return Ok(());
    }
    if let Some(err) = CalDavError::from_http_status(status, url) {
        return Err(err);
    }
    let text = status_text(status);
    Err(CalDavError::XmlParseError(concat4("unexpected HTTP ", text.as_str(), " for ", url)))
}

} // verus!

verus! {

/// Law: the JSON-RPC code of an error tells its kind: two errors with the
/// same code are of the same kind.
pub proof fn law_error_code_tells_kind(a: CalDavErrorView, b: CalDavErrorView)
    requires
        error_code(a) == error_code(b),
    ensures
        a is AuthFailure <==> b is AuthFailure,
        a is ResourceNotFound <==> b is ResourceNotFound,
        a is ServerOverloaded <==> b is ServerOverloaded,
        a is XmlParseError <==> b is XmlParseError,
        a is IcsParseError <==> b is IcsParseError,
        a is PartialFailure <==> b is PartialFailure,
        a is Http <==> b is Http,
        a is Config <==> b is Config,
{
}

/// Law: a request is worth retrying later (the server is overloaded)
/// exactly when it was answered 429 or 503.
pub proof fn law_overloaded_iff_429_or_503(status: u16, url: Seq<char>)
    ensures
        status_outcome(status, url) == Err::<(), CalDavErrorView>(CalDavErrorView::ServerOverloaded)
            <==> (status == 429 || status == 503),
{
}

} // verus!
