//! The television: requests to its IRCC and app control services over one kept connection.
//!
//! Both services time out on concurrent requests, so there is one slot for the connection, and
//! whoever makes a request holds it. The functions here decide; the caller holds the connection
//! `S`, does what a `TvStep` asks for and reports back through the value that comes with it.
use vstd::prelude::*;
use vstd::string::*;
use vstd::utf8::*;

use crate::http::Response;
use crate::json::{
    comma_separated, is_plain, json_array, json_object, json_string, names_ascend,
    plain_text_is_verbatim, read_string, string_reads_back, text_before,
};
use crate::outside::{
    debug_form, debug_text, json_from_members, json_from_str, json_from_u64, json_from_vec,
    json_text, json_to_string,
};
use crate::text::{
    chars_of, decimal, join3, number, push_decimal, read_number, second_word, word_two,
};

verus! {

/// How long one exchange with the television may take, in nanoseconds.
pub const TV_TIMEOUT: u64 = 6_000_000_000;

/// The port on which the television listens.
pub const TV_PORT: u16 = 80;

/// A request to the television.
pub struct TvRequest {
    pub path: String,
    /// The names and values of the header lines that the service asks for.
    pub headers: Vec<(String, String)>,
    pub body: String,
}

impl TvRequest {
    /// The header lines as text.
    pub open spec fn header_texts(self) -> Seq<(Seq<char>, Seq<char>)> {
        self.headers@.map_values(|h: (String, String)| (h.0@, h.1@))
    }
}

// What the keys make the television do.

/// The SOAP envelope that presses the key with the IRCC code `code`.
pub open spec fn ircc_envelope(code: Seq<char>) -> Seq<char> {
    "<s:Envelope xmlns:s=\"http://schemas.xmlsoap.org/soap/envelope/\" s:encodingStyle=\"http://schemas.xmlsoap.org/soap/encoding/\"><s:Body><u:X_SendIRCC xmlns:u=\"urn:schemas-sony-com:service:IRCC:1\"><IRCCCode>"@
        + code + "</IRCCCode></u:X_SendIRCC></s:Body></s:Envelope>"@
}

/// The request that presses the key with the IRCC code `code`.
pub fn handle_ircc(code: &str) -> (request: TvRequest)
    ensures
        request.path@ == "/sony/ircc"@,
        request.header_texts() == seq![
            ("SOAPACTION"@, "\"urn:schemas-sony-com:service:IRCC:1#X_SendIRCC\""@),
            ("Content-Type"@, "text/xml; charset=UTF-8"@),
        ],
        request.body@ == ircc_envelope(code@),
{
    let headers: Vec<(String, String)> = vec![
        (
            "SOAPACTION".to_string(),
            "\"urn:schemas-sony-com:service:IRCC:1#X_SendIRCC\"".to_string(),
        ),
        ("Content-Type".to_string(), "text/xml; charset=UTF-8".to_string()),
    ];
    let body = join3(
        "<s:Envelope xmlns:s=\"http://schemas.xmlsoap.org/soap/envelope/\" s:encodingStyle=\"http://schemas.xmlsoap.org/soap/encoding/\"><s:Body><u:X_SendIRCC xmlns:u=\"urn:schemas-sony-com:service:IRCC:1\"><IRCCCode>",
        code,
        "</IRCCCode></u:X_SendIRCC></s:Body></s:Envelope>",
    );
    let request = TvRequest { path: "/sony/ircc".to_string(), headers, body };
    assert(request.header_texts() =~= seq![
        ("SOAPACTION"@, "\"urn:schemas-sony-com:service:IRCC:1#X_SendIRCC\""@),
        ("Content-Type"@, "text/xml; charset=UTF-8"@),
    ]);
    request
}

/// The call that brings the app to the front whose URI is written as `quoted`.
pub open spec fn app_call_for(quoted: Seq<char>) -> Seq<char> {
    json_object(
        seq![
            ("id"@, decimal(1)),
            ("method"@, json_string("setActiveApp"@)),
            ("params"@, json_array(seq![json_object(seq![("uri"@, quoted)])])),
            ("version"@, json_string("1.0"@)),
        ],
    )
}

/// The call that brings the app with the URI `uri` to the front.
pub open spec fn app_call(uri: Seq<char>) -> Seq<char> {
    app_call_for(json_string(uri))
}

proof fn app_call_layout(quoted: Seq<char>)
    ensures
        app_call_for(quoted) == "{\"id\":1,\"method\":\"setActiveApp\",\"params\":[{\"uri\":"@ + quoted
            + "}],\"version\":\"1.0\"}"@,
{
    reveal_strlit("{\"id\":1,\"method\":\"setActiveApp\",\"params\":[{\"uri\":");
    reveal_strlit("}],\"version\":\"1.0\"}");
    reveal_strlit("id");
    reveal_strlit("method");
    reveal_strlit("params");
    reveal_strlit("version");
    reveal_strlit("uri");
    reveal_strlit("setActiveApp");
    reveal_strlit("1.0");
    plain_text_is_verbatim("id"@);
    plain_text_is_verbatim("method"@);
    plain_text_is_verbatim("params"@);
    plain_text_is_verbatim("version"@);
    plain_text_is_verbatim("uri"@);
    plain_text_is_verbatim("setActiveApp"@);
    plain_text_is_verbatim("1.0"@);
    let param = json_string("uri"@) + seq![':'] + quoted;
    assert(seq![("uri"@, quoted)].map_values(
        |m: (Seq<char>, Seq<char>)| json_string(m.0) + seq![':'] + m.1,
    ) =~= seq![param]);
    let params = json_array(seq![json_object(seq![("uri"@, quoted)])]);
    assert(params =~= seq!['[', '{'] + param + seq!['}', ']']);
    let m0 = json_string("id"@) + seq![':'] + decimal(1);
    let m1 = json_string("method"@) + seq![':'] + json_string("setActiveApp"@);
    let m2 = json_string("params"@) + seq![':'] + params;
    let m3 = json_string("version"@) + seq![':'] + json_string("1.0"@);
    let members = seq![
        ("id"@, decimal(1)),
        ("method"@, json_string("setActiveApp"@)),
        ("params"@, params),
        ("version"@, json_string("1.0"@)),
    ];
    let items = members.map_values(
        |m: (Seq<char>, Seq<char>)| json_string(m.0) + seq![':'] + m.1,
    );
    assert(items =~= seq![m0, m1, m2, m3]);
    assert(items.drop_last() =~= seq![m0, m1, m2]);
    assert(seq![m0, m1, m2].drop_last() =~= seq![m0, m1]);
    assert(seq![m0, m1].drop_last() =~= seq![m0]);
    assert(comma_separated(seq![m0]) == m0);
    assert(comma_separated(seq![m0, m1]) == m0 + seq![','] + m1);
    assert(comma_separated(seq![m0, m1, m2]) == m0 + seq![','] + m1 + seq![','] + m2);
    assert(comma_separated(items) == m0 + seq![','] + m1 + seq![','] + m2 + seq![','] + m3);
    assert(m0 =~= seq!['"', 'i', 'd', '"', ':', '1']);
    assert(app_call_for(quoted) =~= "{\"id\":1,\"method\":\"setActiveApp\",\"params\":[{\"uri\":"@
        + quoted + "}],\"version\":\"1.0\"}"@);
}

/// The call as it stands on the wire. What a reader of JSON strings finds in it is the URI,
/// whatever characters that holds; one without characters that JSON escapes stands there as it is.
pub proof fn app_call_on_the_wire(uri: Seq<char>)
    ensures
        ({
            let front = "{\"id\":1,\"method\":\"setActiveApp\",\"params\":[{\"uri\":"@;
            let back = "}],\"version\":\"1.0\"}"@;
            &&& app_call(uri) == front + json_string(uri) + back
            &&& read_string(app_call(uri).skip(front.len() as int)) == Some((uri, back))
            &&& is_plain(uri) ==> json_string(uri) == seq!['"'] + uri + seq!['"']
        }),
{
    let front = "{\"id\":1,\"method\":\"setActiveApp\",\"params\":[{\"uri\":"@;
    let back = "}],\"version\":\"1.0\"}"@;
    app_call_layout(json_string(uri));
    string_reads_back(uri, back);
    assert(app_call(uri).skip(front.len() as int) =~= json_string(uri) + back);
    if is_plain(uri) {
        plain_text_is_verbatim(uri);
    }
}

proof fn member_names()
    ensures
        text_before("id"@, "method"@),
        text_before("id"@, "params"@),
        text_before("id"@, "version"@),
        text_before("method"@, "params"@),
        text_before("method"@, "version"@),
        text_before("params"@, "version"@),
{
    reveal_strlit("id");
    reveal_strlit("method");
    reveal_strlit("params");
    reveal_strlit("version");
    let names = seq!["id"@, "method"@, "params"@, "version"@];
    assert forall|i: int, j: int| 0 <= i < j < 4 implies text_before(names[i], names[j]) by {
        assert(names[i].take(0) =~= names[j].take(0));
        assert(names[i][0] < names[j][0]);
    }
    assert(text_before(names[0], names[1]));
    assert(text_before(names[0], names[2]));
    assert(text_before(names[0], names[3]));
    assert(text_before(names[1], names[2]));
    assert(text_before(names[1], names[3]));
    assert(text_before(names[2], names[3]));
}

/// The request that brings the app with the URI `uri` to the front.
pub fn handle_app(uri: &str) -> (request: TvRequest)
    ensures
        request.path@ == "/sony/appControl"@,
        request.header_texts() == seq![("Content-Type"@, "application/json"@)],
        request.body@ == app_call(uri@),
{
    let param: Vec<(String, serde_json::Value)> = vec![("uri".to_string(), json_from_str(uri))];
    let ghost param_texts = param@.map_values(
        |m: (String, serde_json::Value)| (m.0@, json_text(m.1)),
    );
    assert(param_texts =~= seq![("uri"@, json_string(uri@))]);
    let params: Vec<serde_json::Value> = vec![json_from_members(param)];
    assert(params@.map_values(|v: serde_json::Value| json_text(v)) =~= seq![
        json_object(seq![("uri"@, json_string(uri@))]),
    ]);
    let call: Vec<(String, serde_json::Value)> = vec![
        ("id".to_string(), json_from_u64(1)),
        ("method".to_string(), json_from_str("setActiveApp")),
        ("params".to_string(), json_from_vec(params)),
        ("version".to_string(), json_from_str("1.0")),
    ];
    proof {
        member_names();
    }
    assert(call@.map_values(|m: (String, serde_json::Value)| (m.0@, json_text(m.1))) =~= seq![
        ("id"@, decimal(1)),
        ("method"@, json_string("setActiveApp"@)),
        ("params"@, json_array(seq![json_object(seq![("uri"@, json_string(uri@))])])),
        ("version"@, json_string("1.0"@)),
    ]);
    assert(names_ascend(call@));
    let body = json_to_string(&json_from_members(call));
    let headers: Vec<(String, String)> = vec![
        ("Content-Type".to_string(), "application/json".to_string()),
    ];
    let request = TvRequest { path: "/sony/appControl".to_string(), headers, body };
    assert(request.header_texts() =~= seq![("Content-Type"@, "application/json"@)]);
    request
}

// Requests on the wire.

/// The header lines `headers`.
pub open spec fn header_lines(headers: Seq<(Seq<char>, Seq<char>)>) -> Seq<char>
    decreases headers.len(),
{
    if headers.len() == 0 {
        seq![]
    } else {
        header_lines(headers.drop_last()) + headers.last().0 + ": "@ + headers.last().1 + "\r\n"@
    }
}

/// The head of a request with a body of `length` bytes.
pub open spec fn request_head(
    path: Seq<char>,
    host: Seq<char>,
    psk: Seq<char>,
    length: nat,
    headers: Seq<(Seq<char>, Seq<char>)>,
) -> Seq<char> {
    "POST "@ + path + " HTTP/1.1\r\nHost: "@ + host + "\r\nX-Auth-PSK: "@ + psk
        + "\r\nContent-Length: "@ + decimal(length) + "\r\n"@ + header_lines(headers) + "\r\n"@
}

/// The bytes of a request to the television at `host`, authenticated with the key `psk`.
pub open spec fn wire_bytes(host: Seq<char>, psk: Seq<char>, request: TvRequest) -> Seq<u8> {
    encode_utf8(
        request_head(
            request.path@,
            host,
            psk,
            encode_utf8(request.body@).len(),
            request.header_texts(),
        ),
    ) + encode_utf8(request.body@)
}

/// The bytes of a request to the television at `host`, authenticated with the key `psk`.
pub fn request_bytes(host: &str, psk: &str, request: &TvRequest) -> (bytes: Vec<u8>)
    ensures
        bytes@ == wire_bytes(host@, psk@, *request),
{
    let body: &[u8] = request.body.as_str().as_bytes();
    let mut head = "POST ".to_string();
    head.append(request.path.as_str());
    head.append(" HTTP/1.1\r\nHost: ");
    head.append(host);
    head.append("\r\nX-Auth-PSK: ");
    head.append(psk);
    head.append("\r\nContent-Length: ");
    push_decimal(&mut head, body.len() as u128);
    head.append("\r\n");
    let ghost start = head@;
    let ghost texts = request.header_texts();
    let mut i: usize = 0;
    assert(texts.take(0) =~= seq![]);
    while i < request.headers.len()
        invariant
            i <= request.headers@.len(),
            texts == request.header_texts(),
            head@ == start + header_lines(texts.take(i as int)),
        decreases request.headers@.len() - i,
    {
        head.append(request.headers[i].0.as_str());
        head.append(": ");
        head.append(request.headers[i].1.as_str());
        head.append("\r\n");
        proof {
            let upto = texts.take(i + 1);
            assert(upto.drop_last() =~= texts.take(i as int));
            assert(head@ =~= start + header_lines(upto));
        }
        i += 1;
    }
    assert(texts.take(i as int) =~= texts);
    head.append("\r\n");
    let mut bytes: Vec<u8> = Vec::new();
    bytes.extend_from_slice(head.as_str().as_bytes());
    bytes.extend_from_slice(body);
    assert(bytes@ =~= encode_utf8(head@) + encode_utf8(request.body@));
    bytes
}

// Responses.

/// The status code of a status line; zero where there is none.
pub open spec fn status_of(line: Seq<char>) -> int {
    match number(second_word(line), 10, u16::MAX as int) {
        Some(n) => n,
        None => 0,
    }
}

/// Reads the status code out of a status line.
pub fn status_code(line: &str) -> (status: u16)
    ensures
        status == status_of(line@),
{
    let chars = chars_of(line);
    match read_number(word_two(&chars), 10, u16::MAX as u64) {
        Some(n) => n as u16,
        None => 0,
    }
}

/// Whether a response with this status means that the request has succeeded.
pub open spec fn is_success(status: int) -> bool {
    200 <= status < 300
}

// Exchanges.

/// Where the connection to the television is kept between two requests.
pub struct TvSlot<S> {
    pub stream: Option<S>,
}

/// What is to be done next for a request, and the value that takes the result.
pub enum TvStep<S> {
    /// Discard what the connection has buffered.
    Drain(S, TvDraining),
    /// Send the bytes of the request and read the response, on this connection or else on a new
    /// one.
    Exchange(Option<S>, Exchanging),
    /// Nothing more: the request has succeeded or failed.
    Finished(Result<(), String>),
}

/// A request as it is sent: the path that its errors name, and its bytes.
pub struct TvCall {
    pub path: String,
    pub bytes: Vec<u8>,
}

/// A request whose connection is being drained.
pub struct TvDraining {
    pub call: TvCall,
    /// Whether this is the second attempt.
    pub second: bool,
}

/// A request whose bytes are being exchanged for its response.
pub struct Exchanging {
    pub call: TvCall,
    /// Whether the connection has served a request before.
    pub reused: bool,
    /// Whether this is the second attempt.
    pub second: bool,
}

impl<S> TvSlot<S> {
    /// A slot without a connection.
    pub fn new() -> (slot: TvSlot<S>)
        ensures
            slot.stream is None,
    {
        TvSlot { stream: None }
    }
}

impl<S> TvStep<S> {
    /// The request has failed with `msg`.
    pub open spec fn fails(self, msg: Seq<char>) -> bool {
        self matches TvStep::Finished(Err(e)) && e@ == msg
    }

    /// The request that is under way.
    pub open spec fn call(self) -> Option<TvCall> {
        match self {
            TvStep::Drain(_, draining) => Some(draining.call),
            TvStep::Exchange(_, exchanging) => Some(exchanging.call),
            TvStep::Finished(_) => None,
        }
    }
}

/// What the error `msg` of a request to `path` is reported as.
pub open spec fn http_error(path: Seq<char>, msg: Seq<char>) -> Seq<char> {
    "HTTP "@ + path + ": "@ + msg
}

/// What the error `msg` of a request to `path` is reported as.
pub fn http_failure(path: &str, msg: &str) -> (error: String)
    ensures
        error@ == http_error(path@, msg@),
{
    let mut error = join3("HTTP ", path, ": ");
    error.append(msg);
    error
}

/// How an attempt begins that finds `held` in the slot.
pub open spec fn attempt<S>(held: Option<S>, call: TvCall, second: bool) -> TvStep<S> {
    match held {
        Some(stream) => TvStep::Drain(stream, TvDraining { call, second }),
        None => TvStep::Exchange(None, Exchanging { call, reused: false, second }),
    }
}

fn begin_attempt<S>(slot: &mut TvSlot<S>, call: TvCall, second: bool) -> (step: TvStep<S>)
    ensures
        final(slot).stream is None,
        step == attempt(old(slot).stream, call, second),
{
    match slot.stream.take() {
        Some(stream) => TvStep::Drain(stream, TvDraining { call, second }),
        None => TvStep::Exchange(None, Exchanging { call, reused: false, second }),
    }
}

/// Begins a request to the television at `host`, authenticated with the key `psk`. The connection
/// leaves its slot until a whole response has been read, so that none is used again that still
/// holds part of one.
pub fn tv_post<S>(slot: &mut TvSlot<S>, host: &str, psk: &str, request: TvRequest) -> (step: TvStep<
    S,
>)
    ensures
        final(slot).stream is None,
        step.call() matches Some(call) && call.path@ == request.path@ && call.bytes@ == wire_bytes(
            host@,
            psk@,
            request,
        ) && step == attempt(old(slot).stream, call, false),
{
    let bytes = request_bytes(host, psk, &request);
    begin_attempt(slot, TvCall { path: request.path, bytes }, false)
}

/// A request is made at most twice. Where the exchange of the first attempt may be followed by a
/// second one, that sends the same bytes: as the slot is empty while a request is under way, it
/// sends them on a new connection, and if it fails the request has failed.
pub proof fn second_attempt_is_fresh_and_last<S>(first: Exchanging)
    requires
        first.may_retry(),
    ensures
        attempt::<S>(None, first.call, true) matches TvStep::Exchange(None, second)
            && second.call == first.call && !second.reused && !second.may_retry(),
{
}

/// How an attempt goes on whose connection has been drained.
pub open spec fn after_drain<S>(draining: TvDraining, stream: S, closed: bool) -> TvStep<S> {
    TvStep::Exchange(
        if closed {
            None
        } else {
            Some(stream)
        },
        Exchanging { call: draining.call, reused: !closed, second: draining.second },
    )
}

impl TvDraining {
    /// Goes on with the drained connection, or with a new one where its peer has closed it.
    pub fn drained<S>(self, stream: S, closed: bool) -> (step: TvStep<S>)
        ensures
            step == after_drain(self, stream, closed),
            step == TvStep::Exchange(
                if closed {
                    None
                } else {
                    Some(stream)
                },
                (Exchanging { call: self.call, reused: !closed, second: self.second }),
            ),
    {
        if closed {
            TvStep::Exchange(
                None,
                Exchanging { call: self.call, reused: false, second: self.second },
            )
        } else {
            TvStep::Exchange(
                Some(stream),
                Exchanging { call: self.call, reused: true, second: self.second },
            )
        }
    }
}

impl Exchanging {
    /// Whether the request is made once more if the exchange fails.
    pub open spec fn may_retry(self) -> bool {
        self.reused && !self.second
    }

    /// Gives up after the time for an exchange.
    pub fn timed_out<S>(self) -> (step: TvStep<S>)
        ensures
            step.fails(http_error(self.call.path@, "timed out"@)),
    {
        TvStep::Finished(Err(http_failure(self.call.path.as_str(), "timed out")))
    }

    /// Goes on after an exchange that has failed. The television may have closed an idle
    /// connection just as it was used again: the request is then made once more.
    pub fn failed<S>(self, slot: &mut TvSlot<S>, error: &str) -> (step: TvStep<S>)
        ensures
            self.may_retry() ==> final(slot).stream is None && step == attempt(
                old(slot).stream,
                self.call,
                true,
            ),
            !self.may_retry() ==> *final(slot) == *old(slot) && step.fails(
                http_error(self.call.path@, error@),
            ),
    {
        if self.reused && !self.second {
            begin_attempt(slot, self.call, true)
        } else {
            TvStep::Finished(Err(http_failure(self.call.path.as_str(), error)))
        }
    }

    /// Judges the response, and keeps the connection where that allows it.
    pub fn answered<S>(self, slot: &mut TvSlot<S>, stream: S, response: Response) -> (step: TvStep<
        S,
    >)
        ensures
            final(slot).stream == (if response.keep_alive {
                Some(stream)
            } else {
                old(slot).stream
            }),
            is_success(status_of(response.status_line@)) <==> (step matches TvStep::Finished(
                Ok(_),
            )),
            200 <= status_of(response.status_line@) < 300 ==> step == TvStep::<S>::Finished(Ok(())),
            !(200 <= status_of(response.status_line@) < 300) ==> step.fails(
                http_error(self.call.path@, debug_form(response.status_line@)),
            ),
    {
        if response.keep_alive {
            slot.stream = Some(stream);
        }
        let status: u16 = status_code(response.status_line.as_str());
        if 200 <= status && status < 300 {
            TvStep::Finished(Ok(()))
        } else {
            let shown = debug_text(response.status_line.as_str());
            TvStep::Finished(Err(http_failure(self.call.path.as_str(), shown.as_str())))
        }
    }
}

} // verus!
