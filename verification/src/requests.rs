//! Requests to the television and what becomes of them, told by what a television reads and by
//! what it answers.
use vstd::prelude::*;
use vstd::string::*;
use vstd::utf8::*;

use crate::nad::SECOND;
use crate::text::{
    decimal, decimal_digits, decimal_is_the_notation, is_white, notation, notation_reads_back,
    numbers_are_made_of_digits, second_word_is_found, white_text_has_no_words,
};
use crate::tv::{
    after_drain, attempt, http_error, ircc_envelope, is_success, request_head, status_of,
    wire_bytes, Exchanging, TvCall, TvDraining, TvRequest, TvStep, TV_PORT, TV_TIMEOUT,
};

verus! {

// What is sent.

/// The tag that opens the XML element `name` with the attributes `attributes`, each written with a
/// space in front.
pub open spec fn open_tag(name: Seq<char>, attributes: Seq<char>) -> Seq<char> {
    "<"@ + name + attributes + ">"@
}

/// The tag that closes the XML element `name`.
pub open spec fn close_tag(name: Seq<char>) -> Seq<char> {
    "</"@ + name + ">"@
}

/// The XML element `name` with the attributes `attributes` and with `content` in it.
pub open spec fn element(name: Seq<char>, attributes: Seq<char>, content: Seq<char>) -> Seq<char> {
    open_tag(name, attributes) + content + close_tag(name)
}

/// The XML attribute `name` with the value `value`, with a space in front.
pub open spec fn attribute(name: Seq<char>, value: Seq<char>) -> Seq<char> {
    " "@ + name + "=\""@ + value + "\""@
}

/// A key press is a SOAP call of `X_SendIRCC` with the code of the key, as it stands, as its only
/// argument.
#[verifier::spinoff_prover]
pub proof fn key_press_is_a_call_with_the_code(code: Seq<char>)
    ensures
        ircc_envelope(code) == element(
            "s:Envelope"@,
            attribute("xmlns:s"@, "http://schemas.xmlsoap.org/soap/envelope/"@) + attribute(
                "s:encodingStyle"@,
                "http://schemas.xmlsoap.org/soap/encoding/"@,
            ),
            element(
                "s:Body"@,
                seq![],
                element(
                    "u:X_SendIRCC"@,
                    attribute("xmlns:u"@, "urn:schemas-sony-com:service:IRCC:1"@),
                    element("IRCCCode"@, seq![], code),
                ),
            ),
        ),
{
    reveal_strlit("<");
    reveal_strlit(">");
    reveal_strlit("</");
    reveal_strlit(" ");
    reveal_strlit("=\"");
    reveal_strlit("\"");
    reveal_strlit("s:Envelope");
    reveal_strlit("s:Body");
    reveal_strlit("u:X_SendIRCC");
    reveal_strlit("IRCCCode");
    reveal_strlit("xmlns:s");
    reveal_strlit("xmlns:u");
    reveal_strlit("s:encodingStyle");
    reveal_strlit("http://schemas.xmlsoap.org/soap/envelope/");
    reveal_strlit("http://schemas.xmlsoap.org/soap/encoding/");
    reveal_strlit("urn:schemas-sony-com:service:IRCC:1");
    reveal_strlit(
        "<s:Envelope xmlns:s=\"http://schemas.xmlsoap.org/soap/envelope/\" s:encodingStyle=\"http://schemas.xmlsoap.org/soap/encoding/\"><s:Body><u:X_SendIRCC xmlns:u=\"urn:schemas-sony-com:service:IRCC:1\"><IRCCCode>",
    );
    reveal_strlit("</IRCCCode></u:X_SendIRCC></s:Body></s:Envelope>");
    let o4 = open_tag(
        "s:Envelope"@,
        attribute("xmlns:s"@, "http://schemas.xmlsoap.org/soap/envelope/"@) + attribute(
            "s:encodingStyle"@,
            "http://schemas.xmlsoap.org/soap/encoding/"@,
        ),
    );
    let o3 = open_tag("s:Body"@, seq![]);
    let o2 = open_tag(
        "u:X_SendIRCC"@,
        attribute("xmlns:u"@, "urn:schemas-sony-com:service:IRCC:1"@),
    );
    let o1 = open_tag("IRCCCode"@, seq![]);
    let c1 = close_tag("IRCCCode"@);
    let c2 = close_tag("u:X_SendIRCC"@);
    let c3 = close_tag("s:Body"@);
    let c4 = close_tag("s:Envelope"@);
    assert(o4 + o3 + o2 + o1
        =~= "<s:Envelope xmlns:s=\"http://schemas.xmlsoap.org/soap/envelope/\" s:encodingStyle=\"http://schemas.xmlsoap.org/soap/encoding/\"><s:Body><u:X_SendIRCC xmlns:u=\"urn:schemas-sony-com:service:IRCC:1\"><IRCCCode>"@);
    assert(c1 + c2 + c3 + c4 =~= "</IRCCCode></u:X_SendIRCC></s:Body></s:Envelope>"@);
    nest(o4, o3, o2, o1, code, c1, c2, c3, c4);
}

#[verifier::spinoff_prover]
proof fn nest(
    o4: Seq<char>,
    o3: Seq<char>,
    o2: Seq<char>,
    o1: Seq<char>,
    code: Seq<char>,
    c1: Seq<char>,
    c2: Seq<char>,
    c3: Seq<char>,
    c4: Seq<char>,
)
    ensures
        o4 + (o3 + (o2 + (o1 + code + c1) + c2) + c3) + c4 == (o4 + o3 + o2 + o1) + code + (c1 + c2
            + c3 + c4),
{
    assert(o4 + (o3 + (o2 + (o1 + code + c1) + c2) + c3) + c4 =~= (o4 + o3 + o2 + o1) + code + (c1
        + c2 + c3 + c4));
}

/// Whatever they hold, the path, the host and the key stand in a request as they were given, in
/// this order, before anything else, and the body stands at its end.
pub proof fn request_begins_and_ends_as_given(host: Seq<char>, psk: Seq<char>, request: TvRequest)
    ensures
        ({
            let start = "POST "@ + request.path@ + " HTTP/1.1\r\nHost: "@ + host
                + "\r\nX-Auth-PSK: "@ + psk + "\r\nContent-Length: "@;
            let bytes = wire_bytes(host, psk, request);
            let body = encode_utf8(request.body@);
            let head = request_head(
                request.path@,
                host,
                psk,
                body.len(),
                request.header_texts(),
            );
            &&& head.len() >= start.len() && head.take(start.len() as int) == start
            &&& bytes == encode_utf8(head) + body
        }),
{
    let start = "POST "@ + request.path@ + " HTTP/1.1\r\nHost: "@ + host + "\r\nX-Auth-PSK: "@ + psk
        + "\r\nContent-Length: "@;
    let head = request_head(
        request.path@,
        host,
        psk,
        encode_utf8(request.body@).len(),
        request.header_texts(),
    );
    assert(head.take(start.len() as int) =~= start);
}

/// The header lines of a request are the ones that it holds.
pub proof fn header_texts_are_the_headers(request: TvRequest, i: int)
    requires
        0 <= i < request.headers@.len(),
    ensures
        request.header_texts().len() == request.headers@.len(),
        request.header_texts()[i].0 == request.headers@[i].0@,
        request.header_texts()[i].1 == request.headers@[i].1@,
{
}

// What is answered.

/// The status of a response is the number that its status line gives after the version, whatever
/// is said after that.
pub proof fn status_reads_back(version: Seq<char>, gap: Seq<char>, n: nat, reason: Seq<char>)
    requires
        version.len() > 0,
        forall|i: int| 0 <= i < version.len() ==> !is_white(#[trigger] version[i]),
        gap.len() > 0,
        forall|i: int| 0 <= i < gap.len() ==> is_white(#[trigger] gap[i]),
        reason.len() > 0 ==> is_white(reason[0]),
    ensures
        n <= u16::MAX ==> status_of(version + gap + decimal(n) + reason) == n,
        n > u16::MAX ==> status_of(version + gap + decimal(n) + reason) == 0,
{
    let none = Seq::<char>::empty();
    decimal_is_the_notation(n);
    decimal_digits(n);
    notation_reads_back(n, 10, u16::MAX as int, false, 0);
    assert(Seq::new(0, |i: int| '0') + notation(n, 10) =~= notation(n, 10));
    let digits = decimal(n);
    assert forall|k: int| 0 <= k < digits.len() implies !is_white(#[trigger] digits[k]) by {}
    second_word_is_found(none, version, gap, digits, reason);
    assert(none + version + gap + digits + reason =~= version + gap + digits + reason);
}

/// Where the status line gives nothing after the version, or something that is no number, the
/// status is zero.
pub proof fn no_number_is_no_status(
    version: Seq<char>,
    gap: Seq<char>,
    other: Seq<char>,
    i: int,
    reason: Seq<char>,
)
    requires
        version.len() > 0,
        forall|i: int| 0 <= i < version.len() ==> !is_white(#[trigger] version[i]),
        gap.len() > 0,
        forall|i: int| 0 <= i < gap.len() ==> is_white(#[trigger] gap[i]),
        reason.len() > 0 ==> is_white(reason[0]),
        forall|i: int| 0 <= i < other.len() ==> !is_white(#[trigger] other[i]),
        0 <= i < other.len(),
        !"0123456789"@.contains(other[i]),
        i == 0 ==> other[0] != '+',
    ensures
        status_of(version + gap + other + reason) == 0,
        status_of(version + gap) == 0,
        status_of(version) == 0,
        status_of(gap) == 0,
{
    let none = Seq::<char>::empty();
    second_word_is_found(none, version, gap, other, reason);
    assert(none + version + gap + other + reason =~= version + gap + other + reason);
    numbers_are_made_of_digits(other, u16::MAX as int, i);
    second_word_is_found(none, version, none, none, none);
    assert(none + version + none + none + none =~= version);
    second_word_is_found(none, version, gap, none, none);
    assert(none + version + gap + none + none =~= version + gap);
    white_text_has_no_words(gap);
}

/// A connection that is kept is used: whatever the request, it is that connection which is drained
/// for it, and a new one is used only where none is kept. The request is handed on as it is.
pub proof fn kept_connection_is_used_again<S>(stream: S, call: TvCall, second: bool)
    ensures
        attempt(Some(stream), call, second) == TvStep::Drain(stream, TvDraining { call, second }),
        attempt::<S>(None, call, second) == TvStep::<S>::Exchange(
            None,
            Exchanging { call, reused: false, second },
        ),
{
}

/// Whatever the request, it is made once more exactly if its first attempt has failed on a
/// connection that had served before.
pub proof fn which_failures_are_tried_again(call: TvCall)
    ensures
        (Exchanging { call, reused: true, second: false }).may_retry(),
        !(Exchanging { call, reused: true, second: true }).may_retry(),
        !(Exchanging { call, reused: false, second: false }).may_retry(),
        !(Exchanging { call, reused: false, second: true }).may_retry(),
{
}

/// What a step fails with is its own message, and no other one, and the request that is under way
/// is the one that the step holds.
pub proof fn steps_mean_their_words<S>(step: TvStep<S>, msg: Seq<char>)
    ensures
        step.fails(msg) ==> step is Finished,
        step matches TvStep::Finished(Err(e)) ==> (step.fails(msg) <==> e@ == msg),
        step matches TvStep::Finished(Ok(_)) ==> !step.fails(msg),
        step matches TvStep::Drain(_, draining) ==> step.call() == Some(draining.call),
        step matches TvStep::Exchange(_, exchanging) ==> step.call() == Some(exchanging.call),
        step is Finished ==> step.call() is None,
{
}

/// An error of a request is reported with the path in front and the error as it is at the end.
pub proof fn errors_name_the_path(path: Seq<char>, msg: Seq<char>)
    ensures
        ({
            let error = http_error(path, msg);
            let n = path.len() as int;
            &&& error.len() == 7 + n + msg.len()
            &&& error.take(5) == "HTTP "@
            &&& error.subrange(5, 5 + n) == path
            &&& error.subrange(5 + n, 7 + n) == ": "@
            &&& error.skip(7 + n) == msg
        }),
{
    reveal_strlit("HTTP ");
    reveal_strlit(": ");
    let error = http_error(path, msg);
    let n = path.len() as int;
    assert(error.take(5) =~= "HTTP "@);
    assert(error.subrange(5, 5 + n) =~= path);
    assert(error.subrange(5 + n, 7 + n) =~= ": "@);
    assert(error.skip(7 + n) =~= msg);
}

/// The television has six seconds for an exchange, and it listens where web servers do.
pub proof fn times_of_the_television()
    ensures
        TV_TIMEOUT == 6 * SECOND,
        TV_PORT == 80,
{
}

/// A request has succeeded exactly if its status is one of the two hundreds.
pub proof fn two_hundreds_are_success(hundreds: int, rest: int)
    requires
        0 <= rest < 100,
    ensures
        is_success(100 * hundreds + rest) <==> hundreds == 2,
{
}

/// A kept connection serves unless its peer has closed it, and then a new one does. Whatever the
/// request, it is handed on as it is.
pub proof fn open_connection_serves<S>(draining: TvDraining, stream: S)
    ensures
        after_drain(draining, stream, false) matches TvStep::Exchange(Some(s), exchanging) && s
            == stream && exchanging.reused && exchanging.call == draining.call && exchanging.second
            == draining.second,
        after_drain(draining, stream, true) matches TvStep::Exchange(None, exchanging)
            && !exchanging.reused && exchanging.call == draining.call && exchanging.second
            == draining.second,
{
}

} // verus!
