//! Carrying out a tool call: what is sent for each kind of handler, and what
//! the reply is reported as.
//!
//! HTTP requests and MQTT round trips are outside work; `plan_execution`
//! says what to send, and `http_outcome` / `mqtt_outcome` read what came
//! back. Builtin tools run here.
use vstd::prelude::*;
use vstd::utf8::{decode_utf8, valid_utf8};

use crate::json::{json_as_str, json_field, json_get, json_str, Json};
use crate::memory::InsertOutcome;
use crate::text::{
    append_chars, chars_eq, chars_of, decimal, decimal_exec, is_digit, last_index_of,
    lemma_decimal_digits, lemma_last_index_of, lemma_parse_u16_decimal, parse_u16, parse_u16_exec,
    slice_chars, string_of,
};
use crate::tools::{
    clone_opt_string, opt_view, pairs_view, substitute, substituted, ToolDefinition, ToolHandler,
};

verus! {

// ── Errors ───────────────────────────────────────────────────────────────────

/// Why a tool call failed.
pub enum ToolError {
    /// The broker is not `host:port` with a valid port.
    InvalidBroker(String),
    /// No builtin tool has this name.
    UnknownBuiltin(String),
    /// The server answered with a status outside 200–299: the status as
    /// shown (`404 Not Found`) and the response body.
    HttpStatus { status: String, body: String },
    /// The MQTT connection failed while waiting for the reply.
    Mqtt(String),
    /// No reply arrived within the timeout, in milliseconds.
    MqttTimeout(u64),
    /// The request could not be made or sent; the transport's own message.
    Transport(String),
    /// A required argument of the call is missing or not a string.
    MissingArgument(String),
    /// Long-term memory is off, so nothing can be remembered.
    MemoryDisabled,
}

impl ToolError {
    /// The error's message.
    pub open spec fn text(&self) -> Seq<char> {
        match self {
            ToolError::InvalidBroker(b) => "Invalid broker address: "@ + b@,
            ToolError::UnknownBuiltin(n) => "Unknown builtin tool: "@ + n@,
            ToolError::HttpStatus { status, body } => "HTTP "@ + status@ + ": "@ + body@,
            ToolError::Mqtt(m) => "MQTT error: "@ + m@,
            ToolError::MqttTimeout(ms) => "MQTT response timed out after "@ + decimal(*ms as nat)
                + "ms"@,
            ToolError::Transport(m) => m@,
            ToolError::MissingArgument(a) => "Missing argument: "@ + a@,
            ToolError::MemoryDisabled => "memory is disabled"@,
        }
    }

    /// The error's message, as reported back to the model.
    pub fn message(&self) -> (r: String)
        ensures
            r@ == self.text(),
    {
        let (head, tail) = match self {
            ToolError::InvalidBroker(b) => (chars_of("Invalid broker address: "), chars_of(b.as_str())),
            ToolError::UnknownBuiltin(n) => (chars_of("Unknown builtin tool: "), chars_of(n.as_str())),
            ToolError::HttpStatus { status, body } => {
                let mut h = chars_of("HTTP ");
                let s = chars_of(status.as_str());
                append_chars(&mut h, &s);
                let sep = chars_of(": ");
                append_chars(&mut h, &sep);
                (h, chars_of(body.as_str()))
            },
            ToolError::Mqtt(m) => (chars_of("MQTT error: "), chars_of(m.as_str())),
            ToolError::MqttTimeout(ms) => {
                let mut h = chars_of("MQTT response timed out after ");
                let d = decimal_exec(*ms as u128);
                append_chars(&mut h, &d);
                (h, chars_of("ms"))
            },
            ToolError::Transport(m) => (Vec::new(), chars_of(m.as_str())),
            ToolError::MissingArgument(a) => (chars_of("Missing argument: "), chars_of(a.as_str())),
            ToolError::MemoryDisabled => (chars_of("memory is disabled"), Vec::new()),
        };
        let mut out = head;
        append_chars(&mut out, &tail);
        proof {
            match self {
                ToolError::Transport(m) => assert(out@ =~= m@),
                ToolError::MemoryDisabled => assert(out@ =~= "memory is disabled"@),
                _ => {},
            }
        }
        string_of(&out)
    }
}

// ── Brokers ──────────────────────────────────────────────────────────────────

/// A broker address `host:port`: the host is what precedes the last `:`, the
/// port what follows it, read as a `u16`.
pub open spec fn broker_address(b: Seq<char>) -> Option<(Seq<char>, u16)> {
    match last_index_of(b, ':') {
        Some(k) => match parse_u16(b.subrange(k + 1, b.len() as int)) {
            Some(port) => Some((b.subrange(0, k), port)),
            None => None,
        },
        None => None,
    }
}

/// Formatting a host and port as `host:port` and splitting it again gives
/// back the same host and port, whatever the host holds (colons included).
pub proof fn law_broker_round_trip(host: Seq<char>, port: u16)
    ensures
        broker_address(host + ":"@ + decimal(port as nat)) == Some((host, port)),
{
    reveal_strlit(":");
    let d = decimal(port as nat);
    let b = host + ":"@ + d;
    let k = host.len() as int;
    lemma_decimal_digits(port as nat);
    assert forall|j: int| k + 1 <= j < b.len() implies b[j] != ':' by {
        assert(b[j] == d[j - k - 1]);
        assert(is_digit(d[j - k - 1]));
    }
    lemma_last_index_of(b, ':', k + 1);
    assert(b.take(k + 1).last() == ':');
    assert(last_index_of(b, ':') == Some(k));
    assert(b.subrange(k + 1, b.len() as int) =~= d);
    assert(b.subrange(0, k) =~= host);
    lemma_parse_u16_decimal(port);
}

/// Splits a broker address into host and port.
pub fn parse_broker(broker: &str) -> (r: Result<(String, u16), ToolError>)
    ensures
        match broker_address(broker@) {
            Some((host, port)) => r matches Ok((h, p)) && h@ == host && p == port,
            None => r matches Err(ToolError::InvalidBroker(b)) && b@ == broker@,
        },
{
    let s = chars_of(broker);
    let mut i: usize = s.len();
    while i > 0 && s[i - 1] != ':'
        invariant
            i <= s.len(),
            forall|j: int| i <= j < s.len() ==> s@[j] != ':',
        decreases i,
    {
        i -= 1;
    }
    proof {
        lemma_last_index_of(s@, ':', i as int);
        if i > 0 {
            assert(s@.take(i as int).last() == ':');
            assert(last_index_of(s@.take(i as int), ':') == Some(i - 1));
        } else {
            assert(last_index_of(s@.take(0), ':') is None);
        }
    }
    if i == 0 {
        return Err(ToolError::InvalidBroker(broker.to_owned()));
    }
    let port_chars = slice_chars(&s, i, s.len());
    match parse_u16_exec(&port_chars) {
        Some(port) => {
            let host = slice_chars(&s, 0, i - 1);
            Ok((string_of(&host), port))
        },
        None => Err(ToolError::InvalidBroker(broker.to_owned())),
    }
}

// ── Builtin tools ────────────────────────────────────────────────────────────

/// The local date and time, as three texts.
pub struct LocalTime {
    /// Weekday, month, day and year (`Monday, March 4, 2024`).
    pub date: String,
    /// Hours and minutes on the 24-hour clock (`14:05`).
    pub clock: String,
    /// The time zone (`CET` or an offset).
    pub zone: String,
}

/// The names chrono writes for `%A`, Sunday first.
pub open spec fn weekday_names() -> Seq<Seq<char>> {
    seq![
        "Sunday"@,
        "Monday"@,
        "Tuesday"@,
        "Wednesday"@,
        "Thursday"@,
        "Friday"@,
        "Saturday"@,
    ]
}

/// The names chrono writes for `%B`, January first.
pub open spec fn month_names() -> Seq<Seq<char>> {
    seq![
        "January"@,
        "February"@,
        "March"@,
        "April"@,
        "May"@,
        "June"@,
        "July"@,
        "August"@,
        "September"@,
        "October"@,
        "November"@,
        "December"@,
    ]
}

/// A date as `%A, %B %-d, %Y` writes it.
pub open spec fn date_text(weekday: Seq<char>, month: Seq<char>, day: nat, year: Seq<char>) -> Seq<
    char,
> {
    weekday + ", "@ + month + " "@ + decimal(day) + ", "@ + year
}

/// `d` is a date as `%A, %B %-d, %Y` writes it: a weekday name, a month
/// name, a day of the month without padding, and a year.
pub open spec fn date_form(d: Seq<char>) -> bool {
    exists|weekday: Seq<char>, month: Seq<char>, day: nat, year: Seq<char>|
        #![trigger date_text(weekday, month, day, year)]
        weekday_names().contains(weekday) && month_names().contains(month) && 1 <= day <= 31
            && year.len() > 0 && d == date_text(weekday, month, day, year)
}

/// `c` is a time as `%H:%M` writes it: two digits, a colon, two digits.
pub open spec fn clock_form(c: Seq<char>) -> bool {
    &&& c.len() == 5
    &&& is_digit(c[0]) && is_digit(c[1]) && c[2] == ':' && is_digit(c[3]) && is_digit(c[4])
}

/// The current local time from chrono (`Local::now`), formatted with
/// `%A, %B %-d, %Y`, `%H:%M` and `%Z`. It depends on the clock and the
/// machine's time zone: only what every outcome has is stated. chrono
/// writes literal text as it is, English weekday and month names (no locale
/// is enabled), the day without padding, a year, and `%H` and `%M` as two
/// zero-padded digits each. chrono panics only when the system clock or the
/// time zone data is unusable, which no argument brings about.
#[verifier::external_body]
pub(crate) fn local_now() -> (t: LocalTime)
    ensures
        date_form(t.date@),
        clock_form(t.clock@),
{
    let now = chrono::Local::now();
    LocalTime {
        date: now.format("%A, %B %-d, %Y").to_string(),
        clock: now.format("%H:%M").to_string(),
        zone: now.format("%Z").to_string(),
    }
}

/// The answer of the `datetime` builtin: date, time and zone
/// (`Monday, March 4, 2024, 14:05 CET`).
pub open spec fn datetime_text(date: Seq<char>, clock: Seq<char>, zone: Seq<char>) -> Seq<char> {
    date + ", "@ + clock + " "@ + zone
}

/// `s` is the answer of the `datetime` builtin for some time.
pub open spec fn is_datetime_text(s: Seq<char>) -> bool {
    exists|date: Seq<char>, clock: Seq<char>, zone: Seq<char>|
        #![trigger datetime_text(date, clock, zone)]
        date_form(date) && clock_form(clock) && s == datetime_text(date, clock, zone)
}

/// What a builtin tool answers at the given time: `datetime` gives the date
/// and time; any other name is an error.
pub fn builtin_answer(name: &str, now: &LocalTime) -> (r: Result<String, ToolError>)
    ensures
        name@ == "datetime"@ ==> (r matches Ok(s) && s@ == datetime_text(
            now.date@,
            now.clock@,
            now.zone@,
        )),
        name@ != "datetime"@ ==> (r matches Err(ToolError::UnknownBuiltin(n)) && n@ == name@),
{
    let n = chars_of(name);
    let d = chars_of("datetime");
    if chars_eq(&n, &d) {
        let mut t = chars_of(now.date.as_str());
        let a = chars_of(", ");
        append_chars(&mut t, &a);
        let c = chars_of(now.clock.as_str());
        append_chars(&mut t, &c);
        let b = chars_of(" ");
        append_chars(&mut t, &b);
        let z = chars_of(now.zone.as_str());
        append_chars(&mut t, &z);
        Ok(string_of(&t))
    } else {
        Err(ToolError::UnknownBuiltin(name.to_owned()))
    }
}

/// Runs a builtin tool: `datetime` answers the current local date and time;
/// any other name is an error.
pub fn execute_builtin(name: &str) -> (r: Result<String, ToolError>)
    ensures
        name@ == "datetime"@ ==> (r matches Ok(s) && is_datetime_text(s@)),
        name@ != "datetime"@ ==> (r matches Err(ToolError::UnknownBuiltin(n)) && n@ == name@),
{
    let n = chars_of(name);
    let d = chars_of("datetime");
    if chars_eq(&n, &d) {
        let now = local_now();
        let r = builtin_answer(name, &now);
        proof {
            let s = datetime_text(now.date@, now.clock@, now.zone@);
            assert(s == datetime_text(now.date@, now.clock@, now.zone@));
        }
        r
    } else {
        Err(ToolError::UnknownBuiltin(name.to_owned()))
    }
}

// ── HTTP ─────────────────────────────────────────────────────────────────────

/// An HTTP request to send.
pub struct HttpRequestPlan {
    pub method: String,
    pub url: String,
    pub headers: Vec<(String, String)>,
    pub body: Option<String>,
}

/// Each name and value rendered with the arguments.
pub open spec fn substituted_pairs(ps: Seq<(Seq<char>, Seq<char>)>, args: Json) -> Seq<
    (Seq<char>, Seq<char>),
> {
    Seq::new(ps.len(), |i: int| (substituted(ps[i].0, args), substituted(ps[i].1, args)))
}

/// The header that announces a JSON body.
pub open spec fn json_content_type() -> (Seq<char>, Seq<char>) {
    ("content-type"@, "application/json"@)
}

/// `p` is the request an HTTP handler with this method, URL template, headers
/// and body template sends for `args`.
pub open spec fn http_plan_for(
    p: HttpRequestPlan,
    method: Seq<char>,
    url: Seq<char>,
    headers: Seq<(Seq<char>, Seq<char>)>,
    body: Option<Seq<char>>,
    args: Json,
) -> bool {
    &&& p.method@ == method
    &&& p.url@ == substituted(url, args)
    &&& pairs_view(p.headers@) == substituted_pairs(headers, args) + (if body is Some {
        seq![json_content_type()]
    } else {
        Seq::empty()
    })
    &&& opt_view(p.body) == (match body {
        Some(b) => Some(substituted(b, args)),
        None => None,
    })
}

/// The request an HTTP handler sends: the URL, each header name and value,
/// and the body rendered with the arguments; a body comes with a JSON
/// content type header.
pub fn prepare_http(
    method: &String,
    url: &String,
    headers: &Vec<(String, String)>,
    body: &Option<String>,
    args: &Json,
) -> (r: HttpRequestPlan)
    ensures
        http_plan_for(r, method@, url@, pairs_view(headers@), opt_view(*body), *args),
{
    let u = substitute(url.as_str(), args);
    let mut hs: Vec<(String, String)> = Vec::new();
    let mut i: usize = 0;
    while i < headers.len()
        invariant
            i <= headers.len(),
            pairs_view(hs@) == substituted_pairs(pairs_view(headers@), *args).take(i as int),
        decreases headers.len() - i,
    {
        let k = substitute(headers[i].0.as_str(), args);
        let v = substitute(headers[i].1.as_str(), args);
        let ghost before = pairs_view(hs@);
        hs.push((k, v));
        proof {
            assert(pairs_view(hs@) =~= before.push((k@, v@)));
            assert(substituted_pairs(pairs_view(headers@), *args).take(i + 1) =~= substituted_pairs(
                pairs_view(headers@),
                *args,
            ).take(i as int).push((k@, v@)));
        }
        i += 1;
    }
    proof {
        assert(substituted_pairs(pairs_view(headers@), *args).take(headers.len() as int)
            =~= substituted_pairs(pairs_view(headers@), *args));
    }
    let b = match body {
        Some(t) => {
            let ghost before = pairs_view(hs@);
            hs.push(("content-type".to_owned(), "application/json".to_owned()));
            proof {
                assert(pairs_view(hs@) =~= before + seq![json_content_type()]);
            }
            Some(substitute(t.as_str(), args))
        },
        None => {
            assert(pairs_view(hs@) =~= pairs_view(hs@) + Seq::<(Seq<char>, Seq<char>)>::empty());
            None
        },
    };
    HttpRequestPlan { method: method.clone(), url: u, headers: hs, body: b }
}

/// What an HTTP reply is reported as: the body when the status is a success
/// (200–299), else an error with the status as shown and the body.
pub fn http_outcome(status: u16, status_text: String, body: String) -> (r: Result<
    String,
    ToolError,
>)
    ensures
        200 <= status <= 299 ==> (r matches Ok(t) && t@ == body@),
        !(200 <= status <= 299) ==> (r matches Err(ToolError::HttpStatus { status: s, body: b })
            && s@ == status_text@ && b@ == body@),
{
    if 200 <= status && status <= 299 {
        Ok(body)
    } else {
        Err(ToolError::HttpStatus { status: status_text, body })
    }
}

// ── MQTT ─────────────────────────────────────────────────────────────────────

/// Keep-alive interval of the MQTT connection, in seconds.
pub const MQTT_KEEP_ALIVE_SECS: u64 = 10;

/// Capacity of the MQTT client's request channel.
pub const MQTT_CHANNEL_CAPACITY: usize = 16;

/// A UUID in the hyphenated lower-case form: 32 hex digits in groups of
/// 8, 4, 4, 4 and 12, joined by `-`.
pub open spec fn hyphenated_uuid(s: Seq<char>) -> bool {
    &&& s.len() == 36
    &&& forall|i: int|
        0 <= i < 36 ==> if i == 8 || i == 13 || i == 18 || i == 23 {
            #[trigger] s[i] == '-'
        } else {
            ('0' <= s[i] <= '9') || ('a' <= s[i] <= 'f')
        }
}

/// A fresh v4 UUID from the uuid crate, shown (`Display`, which writes the
/// hyphenated lower-case form). It is random: only its form is stated. uuid
/// panics only when the system's random source fails.
#[verifier::external_body]
fn new_uuid_text() -> (s: String)
    ensures
        hyphenated_uuid(s@),
{
    uuid::Uuid::new_v4().to_string()
}

/// An MQTT round trip to make.
pub struct MqttPlan {
    pub host: String,
    pub port: u16,
    pub client_id: String,
    pub command_topic: String,
    pub payload: String,
    /// Where the reply comes; `None` to publish without waiting for one.
    pub response_topic: Option<String>,
    pub timeout_ms: u64,
}

/// The prefix of every MQTT client id.
pub open spec fn client_id_prefix() -> Seq<char> {
    "lite-llm-"@
}

/// `plan` is the round trip to `host:port` that an MQTT handler with these
/// templates and timeout makes for `args`.
pub open spec fn mqtt_plan_for(
    plan: MqttPlan,
    host: Seq<char>,
    port: u16,
    command_topic: Seq<char>,
    payload: Seq<char>,
    response_topic: Option<Seq<char>>,
    timeout_ms: u64,
    args: Json,
) -> bool {
    &&& plan.host@ == host
    &&& plan.port == port
    &&& plan.command_topic@ == substituted(command_topic, args)
    &&& plan.payload@ == substituted(payload, args)
    &&& opt_view(plan.response_topic) == (match response_topic {
        Some(t) => Some(substituted(t, args)),
        None => None,
    })
    &&& plan.timeout_ms == timeout_ms
    &&& plan.client_id@.len() == client_id_prefix().len() + 36
    &&& plan.client_id@.subrange(0, client_id_prefix().len() as int) == client_id_prefix()
    &&& hyphenated_uuid(
        plan.client_id@.subrange(client_id_prefix().len() as int, plan.client_id@.len() as int),
    )
}

/// The round trip an MQTT handler makes: topics and payload rendered with
/// the arguments, the broker split into host and port, and a fresh client id.
pub fn prepare_mqtt(
    broker: &String,
    command_topic: &String,
    payload: &String,
    response_topic: &Option<String>,
    timeout_ms: u64,
    args: &Json,
) -> (r: Result<MqttPlan, ToolError>)
    ensures
        match broker_address(broker@) {
            Some((host, port)) => r matches Ok(plan) && mqtt_plan_for(
                plan,
                host,
                port,
                command_topic@,
                payload@,
                opt_view(*response_topic),
                timeout_ms,
                *args,
            ),
            None => r matches Err(ToolError::InvalidBroker(b)) && b@ == broker@,
        },
{
    let topic = substitute(command_topic.as_str(), args);
    let body = substitute(payload.as_str(), args);
    let (host, port) = match parse_broker(broker.as_str()) {
        Ok(hp) => hp,
        Err(e) => return Err(e),
    };
    let mut id = chars_of("lite-llm-");
    let suffix = new_uuid_text();
    let sc = chars_of(suffix.as_str());
    let ghost prefix = id@;
    append_chars(&mut id, &sc);
    proof {
        reveal_strlit("lite-llm-");
        assert(id@.subrange(0, prefix.len() as int) =~= prefix);
        assert(id@.subrange(prefix.len() as int, id@.len() as int) =~= sc@);
    }
    let response = match response_topic {
        Some(t) => Some(substitute(t.as_str(), args)),
        None => None,
    };
    Ok(
        MqttPlan {
            host,
            port,
            client_id: string_of(&id),
            command_topic: topic,
            payload: body,
            response_topic: response,
            timeout_ms,
        },
    )
}

/// What the text of an MQTT payload decodes to with `String::from_utf8_lossy`
/// (invalid sequences become U+FFFD).
pub uninterp spec fn utf8_lossy(bytes: Seq<u8>) -> Seq<char>;

/// Decodes bytes with `String::from_utf8_lossy`; valid UTF-8 is decoded as
/// is, and the result is named `utf8_lossy`.
#[verifier::external_body]
fn decode_lossy(bytes: &Vec<u8>) -> (s: String)
    ensures
        s@ == utf8_lossy(bytes@),
        valid_utf8(bytes@) ==> s@ == decode_utf8(bytes@),
{
    String::from_utf8_lossy(bytes).into_owned()
}

/// How the wait after publishing ended.
pub enum MqttReply {
    /// The publish went out (or the wait for it ended) and no reply was awaited.
    Published,
    /// A message arrived on the response topic, with this payload.
    Message(Vec<u8>),
    /// The connection failed while waiting, with this message.
    Failed(String),
    /// The timeout passed first.
    TimedOut,
}

/// An event of the MQTT connection while waiting after a publish.
pub enum MqttEvent {
    /// A message arrived on a subscribed topic, with this payload.
    IncomingPublish(Vec<u8>),
    /// The publish went out.
    OutgoingPublish,
    /// Polling the connection failed, with this message.
    Error(String),
    /// Anything else (acknowledgements, pings).
    Other,
}

/// What an event means for the wait after publishing: the way it ends, or
/// `None` to keep waiting. Without a response topic the wait ends when the
/// publish goes out (failures are waited out); with one, it ends at the
/// first incoming message or at a failure.
pub fn mqtt_wait_step(plan: &MqttPlan, event: MqttEvent) -> (r: Option<MqttReply>)
    ensures
        plan.response_topic is None ==> match event {
            MqttEvent::OutgoingPublish => r matches Some(MqttReply::Published),
            _ => r is None,
        },
        plan.response_topic is Some ==> match event {
            MqttEvent::IncomingPublish(b) => r matches Some(MqttReply::Message(m)) && m@ == b@,
            MqttEvent::Error(e) => r matches Some(MqttReply::Failed(m)) && m@ == e@,
            _ => r is None,
        },
{
    if plan.response_topic.is_none() {
        match event {
            MqttEvent::OutgoingPublish => Some(MqttReply::Published),
            _ => None,
        }
    } else {
        match event {
            MqttEvent::IncomingPublish(b) => Some(MqttReply::Message(b)),
            MqttEvent::Error(e) => Some(MqttReply::Failed(e)),
            _ => None,
        }
    }
}

/// What an MQTT round trip is reported as: `ok` when no reply is awaited;
/// else the reply's payload as text, or an error when the connection failed
/// or no reply came in time.
pub fn mqtt_outcome(plan: &MqttPlan, reply: MqttReply) -> (r: Result<String, ToolError>)
    ensures
        plan.response_topic is None ==> (r matches Ok(t) && t@ == "ok"@),
        plan.response_topic is Some ==> match reply {
            MqttReply::Message(b) => r matches Ok(t) && t@ == utf8_lossy(b@),
            MqttReply::Failed(m) => r matches Err(ToolError::Mqtt(e)) && e@ == m@,
            _ => r matches Err(ToolError::MqttTimeout(ms)) && ms == plan.timeout_ms,
        },
{
    if plan.response_topic.is_none() {
        return Ok("ok".to_owned());
    }
    match reply {
        MqttReply::Message(b) => Ok(decode_lossy(&b)),
        MqttReply::Failed(m) => Err(ToolError::Mqtt(m)),
        _ => Err(ToolError::MqttTimeout(plan.timeout_ms)),
    }
}

// ── Dispatch ─────────────────────────────────────────────────────────────────

/// What carrying out a tool call takes.
pub enum ToolAction {
    /// Send this HTTP request, then report it with `http_outcome`.
    Http(HttpRequestPlan),
    /// Make this MQTT round trip, then report it with `mqtt_outcome`.
    Mqtt(MqttPlan),
    /// Nothing more: the call is already answered.
    /// Store this fact in long-term memory, then report it with
    /// `remember_outcome`.
    Remember(String),
    Done(Result<String, ToolError>),
}

/// What a tool call with these arguments takes, by the tool's handler.
pub fn plan_execution(tool: &ToolDefinition, args: &Json) -> (r: ToolAction)
    ensures
        match tool.handler {
            ToolHandler::Http { method, url, headers, body } => r matches ToolAction::Http(p)
                && http_plan_for(p, method@, url@, pairs_view(headers@), opt_view(body), *args),
            ToolHandler::Mqtt { broker, command_topic, payload, response_topic, timeout_ms } =>
            match broker_address(broker@) {
                Some((host, port)) => r matches ToolAction::Mqtt(p) && mqtt_plan_for(
                    p,
                    host,
                    port,
                    command_topic@,
                    payload@,
                    opt_view(response_topic),
                    timeout_ms,
                    *args,
                ),
                None => r matches ToolAction::Done(Err(ToolError::InvalidBroker(b))) && b@
                    == broker@,
            },
            ToolHandler::Builtin { name } => if name@ == "remember"@ {
                match fact_argument(*args) {
                    Some(f) => r matches ToolAction::Remember(x) && x@ == f,
                    None => r matches ToolAction::Done(Err(ToolError::MissingArgument(a))) && a@
                        == "fact"@,
                }
            } else {
                r matches ToolAction::Done(res) && (name@ == "datetime"@ <==> res is Ok)
            },
        },
{
    match &tool.handler {
        ToolHandler::Http { method, url, headers, body } => ToolAction::Http(
            prepare_http(method, url, headers, body, args),
        ),
        ToolHandler::Mqtt { broker, command_topic, payload, response_topic, timeout_ms } => {
            match prepare_mqtt(broker, command_topic, payload, response_topic, *timeout_ms, args) {
                Ok(p) => ToolAction::Mqtt(p),
                Err(e) => ToolAction::Done(Err(e)),
            }
        },
        ToolHandler::Builtin { name } => {
            let n = chars_of(name.as_str());
            let rem = chars_of("remember");
            if chars_eq(&n, &rem) {
                let fact = match json_get(args, "fact") {
                    Some(v) => json_as_str(&v),
                    None => None,
                };
                match fact {
                    Some(f) => ToolAction::Remember(f),
                    None => ToolAction::Done(Err(ToolError::MissingArgument("fact".to_owned()))),
                }
            } else {
                ToolAction::Done(execute_builtin(name.as_str()))
            }
        },
    }
}

/// The `fact` argument of a `remember` call, when it is a string.
pub open spec fn fact_argument(args: Json) -> Option<Seq<char>> {
    match json_field(args, "fact"@) {
        Some(v) => json_str(v),
        None => None,
    }
}

/// What a `remember` call is reported as: the store's word (`stored` or
/// `already known`), or an error when memory is off or the store failed.
pub fn remember_outcome(outcome: Option<Result<InsertOutcome, String>>) -> (r: Result<
    String,
    ToolError,
>)
    ensures
        match outcome {
            None => r matches Err(ToolError::MemoryDisabled),
            Some(Err(e)) => r matches Err(ToolError::Transport(m)) && m@ == e@,
            Some(Ok(InsertOutcome::Stored)) => r matches Ok(t) && t@ == "stored"@,
            Some(Ok(InsertOutcome::AlreadyKnown)) => r matches Ok(t) && t@ == "already known"@,
        },
{
    match outcome {
        None => Err(ToolError::MemoryDisabled),
        Some(Err(e)) => Err(ToolError::Transport(e)),
        Some(Ok(o)) => Ok(o.as_str().to_owned()),
    }
}

} // verus!
