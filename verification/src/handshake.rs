//! Opening a session: the request, its headers and the first message.

use crate::config::{AsrConfig, ConfigView};
use crate::error;
use crate::error::{AsrError, ErrorView, NetworkStep};
use crate::json;
use crate::json::write_value;
use crate::message;
use crate::provider::SonioxAsrProvider;
use crate::session::OpeningView;
use crate::text;
use crate::text::joined;
use vstd::prelude::*;
use vstd::string::*;

verus! {

/// The characters of a header name: letters, digits and the marks of an HTTP token.
pub open spec fn header_name_char(c: char) -> bool {
    ||| 'a' <= c <= 'z'
    ||| 'A' <= c <= 'Z'
    ||| '0' <= c <= '9'
    ||| c == '!' || c == '#' || c == '$' || c == '%' || c == '&' || c == '\'' || c == '*' || c
        == '+' || c == '-' || c == '.' || c == '^' || c == '_' || c == '`' || c == '|' || c == '~'
}

/// Whether a text is a header name.
pub open spec fn valid_header_name(name: Seq<char>) -> bool {
    &&& 0 < name.len() <= 65535
    &&& forall|i: int| 0 <= i < name.len() ==> header_name_char(#[trigger] name[i])
}

/// Whether a text is a header value: it has no ASCII control characters but the tab.
pub open spec fn valid_header_value(value: Seq<char>) -> bool {
    forall|i: int|
        0 <= i < value.len() ==> (#[trigger] value[i] == '\t' || (value[i] >= ' ' && value[i]
            != '\u{7f}'))
}

/// Parsing a `HeaderName` of the `http` crate takes 1 to 65535 token characters, and gives the
/// name in lower case.
#[verifier::external_body]
fn header_name(name: &str) -> (r: Option<String>)
    ensures
        match r {
            Some(parsed) => valid_header_name(name@) && parsed@ == text::lowered(name@),
            None => !valid_header_name(name@),
        },
{
    let parsed = name.parse::<tokio_tungstenite::tungstenite::http::HeaderName>();
    parsed.ok().map(|parsed| parsed.as_str().to_owned())
}

/// Parsing a `HeaderValue` of the `http` crate takes every text without ASCII control characters,
/// the tab excepted.
#[verifier::external_body]
fn is_header_value(value: &str) -> (r: bool)
    ensures
        r == valid_header_value(value@),
{
    value.parse::<tokio_tungstenite::tungstenite::http::HeaderValue>().is_ok()
}

/// Why no request can be made for a URL: the message of the error that `tungstenite`'s
/// `into_client_request` gives, if it gives one.
pub uninterp spec fn url_refusal(url: Seq<char>) -> Option<Seq<char>>;

/// `into_client_request` of `tungstenite` takes a URL or refuses it; which of the two, and the
/// message of the error, depends on the URL alone. The request itself, which carries a random
/// key, is left aside.
#[verifier::external_body]
fn refuse_url(url: &str) -> (r: Option<String>)
    ensures
        match r {
            Some(detail) => url_refusal(url@) == Some(detail@),
            None => url_refusal(url@) is None,
        },
{
    let request = tokio_tungstenite::tungstenite::client::IntoClientRequest::into_client_request(url);
    request.err().map(|e| e.to_string())
}

/// What is wrong with a header, if anything is.
pub open spec fn header_fault(header: (Seq<char>, Seq<char>)) -> Option<ErrorView> {
    if !valid_header_name(header.0) {
        Some(ErrorView::Connection("invalid header name: "@ + header.0))
    } else if !valid_header_value(header.1) {
        Some(ErrorView::Connection("invalid header value for "@ + header.0))
    } else {
        None
    }
}

/// The headers as they are set, their names in lower case, or the first fault among them.
pub open spec fn checked_headers(headers: Seq<(Seq<char>, Seq<char>)>) -> Result<
    Seq<(Seq<char>, Seq<char>)>,
    ErrorView,
>
    decreases headers.len(),
{
    if headers.len() == 0 {
        Ok(Seq::empty())
    } else {
        match checked_headers(headers.drop_last()) {
            Err(error) => Err(error),
            Ok(before) => match header_fault(headers.last()) {
                Some(error) => Err(error),
                None => Ok(before.push((text::lowered(headers.last().0), headers.last().1))),
            },
        }
    }
}

/// The value of the header that carries the API key.
pub open spec fn bearer(api_key: Seq<char>) -> Seq<char> {
    "Bearer "@ + api_key
}

/// The headers to set in the request: those of the settings, or else one that carries the API
/// key.
pub open spec fn headers_for(config: ConfigView, api_key: Seq<char>) -> Result<
    Seq<(Seq<char>, Seq<char>)>,
    ErrorView,
> {
    if config.custom_headers.len() > 0 {
        checked_headers(config.custom_headers)
    } else if valid_header_value(bearer(api_key)) {
        Ok(seq![("authorization"@, bearer(api_key))])
    } else {
        Err(ErrorView::Connection("invalid api_key"@))
    }
}

/// What a list of headers says.
pub open spec fn header_views(headers: Seq<(String, String)>) -> Seq<(Seq<char>, Seq<char>)> {
    headers.map_values(|header: (String, String)| (header.0@, header.1@))
}

/// The headers that a list of headers comes to when they are set one after another: of two with
/// the same name, the later one counts.
pub open spec fn header_map(headers: Seq<(Seq<char>, Seq<char>)>) -> Map<Seq<char>, Seq<char>>
    decreases headers.len(),
{
    if headers.len() == 0 {
        Map::empty()
    } else {
        header_map(headers.drop_last()).insert(headers.last().0, headers.last().1)
    }
}

/// How the attempt to open a connection came out.
#[derive(Debug, PartialEq, Eq)]
pub enum Opening {
    /// The connection is open.
    Open,
    /// It took longer than it may.
    TimedOut,
    /// It failed, with a message.
    Failed(String),
}

impl View for Opening {
    type V = OpeningView;

    open spec fn view(&self) -> OpeningView {
        match self {
            Opening::Open => OpeningView::Open,
            Opening::TimedOut => OpeningView::TimedOut,
            Opening::Failed(detail) => OpeningView::Failed(detail@),
        }
    }
}

/// The first message on a connection, or why there is none.
pub open spec fn first_message(
    config: ConfigView,
    api_key: Seq<char>,
    opening: OpeningView,
) -> Result<Seq<char>, ErrorView> {
    match opening {
        OpeningView::TimedOut => Err(ErrorView::Connection("connection timed out"@)),
        OpeningView::Failed(detail) => Err(error::step_error(NetworkStep::Connect, detail)),
        OpeningView::Open => match json::json_writing(message::config_message(config, api_key)) {
            Ok(written) => Ok(written),
            Err(detail) => Err(ErrorView::Protocol("serialize config: "@ + detail)),
        },
    }
}

/// What it takes to open the connection.
#[derive(Debug, PartialEq, Eq)]
pub struct ConnectPlan {
    /// The API key.
    pub api_key: String,
    /// The endpoint.
    pub url: String,
    /// The headers to set in the request, in this order, a later one in place of an earlier one
    /// of the same name.
    pub headers: Vec<(String, String)>,
    /// How long opening the connection may take.
    pub timeout_ms: u64,
}

/// What a `ConnectPlan` says.
pub struct PlanView {
    pub api_key: Seq<char>,
    pub url: Seq<char>,
    pub headers: Seq<(Seq<char>, Seq<char>)>,
    pub timeout_ms: u64,
}

impl PlanView {
    /// What setting the headers of the plan in order comes to, each name with its value.
    pub open spec fn headers_once_set(self) -> Map<Seq<char>, Seq<char>> {
        header_map(self.headers)
    }
}

impl View for ConnectPlan {
    type V = PlanView;

    open spec fn view(&self) -> PlanView {
        PlanView {
            api_key: self.api_key@,
            url: self.url@,
            headers: header_views(self.headers@),
            timeout_ms: self.timeout_ms,
        }
    }
}

/// The plan for settings, where `refusal` is why no request can be made for the endpoint. The
/// API key is looked at first, then the endpoint, then the headers.
pub open spec fn plan_given(config: ConfigView, refusal: Option<Seq<char>>) -> Result<
    PlanView,
    ErrorView,
> {
    match message::resolved_api_key(config) {
        Err(error) => Err(error),
        Ok(api_key) => match refusal {
            Some(detail) => Err(ErrorView::Connection("invalid URL: "@ + detail)),
            None => match headers_for(config, api_key) {
                Err(error) => Err(error),
                Ok(headers) => Ok(
                    PlanView {
                        api_key,
                        url: message::resolved_url(config),
                        headers,
                        timeout_ms: config.connect_timeout_ms,
                    },
                ),
            },
        },
    }
}

/// Whether an exec result says what a spec result says.
pub open spec fn same_plan(
    exec: Result<ConnectPlan, AsrError>,
    stated: Result<PlanView, ErrorView>,
) -> bool {
    match exec {
        Ok(plan) => stated == Ok::<PlanView, ErrorView>(plan@),
        Err(error) => stated == Err::<PlanView, ErrorView>(error@),
    }
}

impl SonioxAsrProvider {
    /// The headers to set in the request: those of the settings, or else one that carries the
    /// API key.
    pub fn request_headers(config: &AsrConfig, api_key: &str) -> (r: Result<
        Vec<(String, String)>,
        AsrError,
    >)
        ensures
            match r {
                Ok(headers) => headers_for(config@, api_key@) == Ok::<
                    Seq<(Seq<char>, Seq<char>)>,
                    ErrorView,
                >(header_views(headers@)),
                Err(error) => headers_for(config@, api_key@) == Err::<
                    Seq<(Seq<char>, Seq<char>)>,
                    ErrorView,
                >(error@),
            },
    {
        let mut headers: Vec<(String, String)> = Vec::new();
        if config.custom_headers.len() == 0 {
            let value = joined("Bearer ", api_key);
            if !is_header_value(value.as_str()) {
                return Err(AsrError::Connection("invalid api_key".to_owned()));
            }
            headers.push(("authorization".to_owned(), value));
            assert(header_views(headers@) =~= seq![("authorization"@, bearer(api_key@))]);
            return Ok(headers);
        }
        let ghost given = config@.custom_headers;
        assert(given.take(0) =~= Seq::empty());
        assert(header_views(headers@) =~= Seq::empty());
        let mut i: usize = 0;
        while i < config.custom_headers.len()
            invariant
                i <= config.custom_headers.len(),
                given == config@.custom_headers,
                given.len() > 0,
                checked_headers(given.take(i as int)) == Ok::<
                    Seq<(Seq<char>, Seq<char>)>,
                    ErrorView,
                >(header_views(headers@)),
            decreases config.custom_headers.len() - i,
        {
            let (key, value) = (&config.custom_headers[i].0, &config.custom_headers[i].1);
            let ghost before = header_views(headers@);
            proof {
                assert(given.take(i + 1).drop_last() =~= given.take(i as int));
                assert(given.take(i + 1).last() == (key@, value@));
                lemma_first_fault(given, i + 1);
            }
            match header_name(key.as_str()) {
                None => {
                    return Err(
                        AsrError::Connection(joined("invalid header name: ", key.as_str())),
                    );
                },
                Some(name) => {
                    if !is_header_value(value.as_str()) {
                        return Err(
                            AsrError::Connection(joined("invalid header value for ", key.as_str())),
                        );
                    }
                    headers.push((name, value.clone()));
                    assert(header_views(headers@) =~= before.push(
                        (text::lowered(key@), value@),
                    ));
                },
            }
            i = i + 1;
        }
        assert(given.take(given.len() as int) =~= given);
        Ok(headers)
    }

    /// What it takes to open the connection.
    pub fn connect(&self, config: &AsrConfig) -> (r: Result<ConnectPlan, AsrError>)
        ensures
            same_plan(r, plan_given(config@, url_refusal(message::resolved_url(config@)))),
    {
        let url = Self::resolve_url(config);
        Self::plan(config, refuse_url(url.as_str()))
    }

    /// What it takes to open the connection, given why no request can be made for the endpoint.
    pub fn plan(config: &AsrConfig, refusal: Option<String>) -> (r: Result<ConnectPlan, AsrError>)
        ensures
            same_plan(
                r,
                plan_given(
                    config@,
                    match refusal {
                        Some(detail) => Some(detail@),
                        None => None,
                    },
                ),
            ),
    {
        let api_key = match Self::resolve_api_key(config) {
            Ok(api_key) => api_key,
            Err(error) => {
                return Err(error);
            },
        };
        if let Some(detail) = refusal {
            return Err(AsrError::Connection(joined("invalid URL: ", detail.as_str())));
        }
        let headers = match Self::request_headers(config, api_key.as_str()) {
            Ok(headers) => headers,
            Err(error) => {
                return Err(error);
            },
        };
        let url = Self::resolve_url(config);
        Ok(ConnectPlan { api_key, url, headers, timeout_ms: config.connect_timeout_ms })
    }

    /// Takes note of the attempt to open the connection. Gives the configuration message to send
    /// if it is open, and the error if it is not.
    pub fn on_open(&mut self, config: &AsrConfig, api_key: &str, opening: Opening) -> (r: Result<
        String,
        AsrError,
    >)
        ensures
            final(self)@ == old(self)@.after_opening(opening@),
            match first_message(config@, api_key@, opening@) {
                Ok(message) => r matches Ok(text) && text@ == message,
                Err(error) => r matches Err(given) && given@ == error,
            },
    {
        match opening {
            Opening::TimedOut => {
                return Err(AsrError::timed_out());
            },
            Opening::Failed(detail) => {
                return Err(AsrError::in_step(NetworkStep::Connect, detail.as_str()));
            },
            Opening::Open => {},
        }
        self.connected = true;
        let body = Self::build_config_message(config, api_key);
        match write_value(&body) {
            Ok(text) => Ok(text),
            Err(detail) => Err(AsrError::Protocol(joined("serialize config: ", detail.as_str()))),
        }
    }
}

/// A fault among the first headers is the first fault among all of them.
proof fn lemma_first_fault(headers: Seq<(Seq<char>, Seq<char>)>, n: int)
    requires
        0 <= n <= headers.len(),
    ensures
        checked_headers(headers.take(n)) is Err ==> checked_headers(headers) == checked_headers(
            headers.take(n),
        ),
    decreases headers.len() - n,
{
    if n < headers.len() {
        assert(headers.take(n + 1).drop_last() =~= headers.take(n));
        lemma_first_fault(headers, n + 1);
    } else {
        assert(headers.take(n) =~= headers);
    }
}

} // verus!
