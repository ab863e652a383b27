use nadbridge::http::{parse_head, Response};
use nadbridge::tv::{
    handle_app, handle_ircc, http_failure, request_bytes, status_code, tv_post, TvRequest, TvSlot,
    TvStep,
};

/// Stands for a connection.
#[derive(Clone, Copy, Debug, PartialEq)]
struct Wire(u32);

fn text(bytes: Vec<u8>) -> String {
    String::from_utf8(bytes).unwrap()
}

#[test]
fn a_key_is_pressed_with_an_envelope() {
    let request = handle_ircc("AAAAAQAAAAEAAABgAw==");
    assert_eq!(request.path, "/sony/ircc");
    assert_eq!(
        request.body,
        "<s:Envelope xmlns:s=\"http://schemas.xmlsoap.org/soap/envelope/\" \
         s:encodingStyle=\"http://schemas.xmlsoap.org/soap/encoding/\">\
         <s:Body>\
         <u:X_SendIRCC xmlns:u=\"urn:schemas-sony-com:service:IRCC:1\">\
         <IRCCCode>AAAAAQAAAAEAAABgAw==</IRCCCode>\
         </u:X_SendIRCC></s:Body></s:Envelope>"
    );
    assert_eq!(
        request.headers,
        vec![
            (
                "SOAPACTION".to_string(),
                "\"urn:schemas-sony-com:service:IRCC:1#X_SendIRCC\"".to_string()
            ),
            ("Content-Type".to_string(), "text/xml; charset=UTF-8".to_string()),
        ]
    );
}

#[test]
fn an_app_is_launched_with_a_call() {
    let request = handle_app("com.sony.dtv");
    assert_eq!(request.path, "/sony/appControl");
    assert_eq!(
        request.headers,
        vec![("Content-Type".to_string(), "application/json".to_string())]
    );
    assert_eq!(
        request.body,
        "{\"id\":1,\"method\":\"setActiveApp\",\"params\":[{\"uri\":\"com.sony.dtv\"}],\"version\":\"1.0\"}"
    );
}

#[test]
fn a_uri_is_escaped_as_json_has_it() {
    let mut uri = String::new();
    for n in 0..0x90_u32 {
        uri.push(char::from_u32(n).unwrap());
    }
    uri.push_str("é\u{2028}\u{1f600}");
    let body = handle_app(&uri).body;
    let value: serde_json::Value = serde_json::from_str(&body).unwrap();
    assert_eq!(value["params"][0]["uri"], serde_json::Value::from(uri.as_str()));
    assert_eq!(value["id"], serde_json::Value::from(1u64));
    assert!(body.contains(
        "\"uri\":\"\\u0000\\u0001\\u0002\\u0003\\u0004\\u0005\\u0006\\u0007\\b\\t\\n\\u000b\\f\\r\\u000e\\u000f"
    ));
    assert!(body.contains("\\u001f !\\\"#"));
    assert!(body.contains("[\\\\]"));
    assert!(body.contains("~\u{7f}\u{80}"));
    assert!(body.contains("é\u{2028}\u{1f600}\"}]"));
}

#[test]
fn a_request_is_written_out() {
    let request = TvRequest {
        path: "/p".to_string(),
        headers: vec![("A".to_string(), "b".to_string()), ("C".to_string(), "d".to_string())],
        body: "é!".to_string(),
    };
    assert_eq!(
        text(request_bytes("tv", "key", &request)),
        "POST /p HTTP/1.1\r\nHost: tv\r\nX-Auth-PSK: key\r\nContent-Length: 3\r\nA: b\r\nC: d\r\n\r\né!"
    );
}

#[test]
fn the_length_that_is_written_is_the_length_of_the_body() {
    for request in [handle_ircc("x"), handle_app("ü"), handle_app("")] {
        let bytes = request_bytes("192.168.0.2", "secret", &request);
        let all = text(bytes);
        let (head, body) = all.split_once("\r\n\r\n").unwrap();
        assert_eq!(body, request.body);
        assert_eq!(parse_head(head).length, Some(body.len()));
    }
}

#[test]
fn the_status_is_the_second_word() {
    assert_eq!(status_code("HTTP/1.1 200 OK"), 200);
    assert_eq!(status_code("HTTP/1.1\t 404"), 404);
    assert_eq!(status_code("HTTP/1.1 +204 x"), 204);
    assert_eq!(status_code("HTTP/1.1"), 0);
    assert_eq!(status_code(""), 0);
    assert_eq!(status_code("HTTP/1.1 OK"), 0);
    assert_eq!(status_code("HTTP/1.1 65535"), 65535);
    assert_eq!(status_code("HTTP/1.1 65536"), 0);
}

#[test]
fn errors_name_the_path() {
    assert_eq!(http_failure("/sony/ircc", "refused"), "HTTP /sony/ircc: refused");
}

fn request() -> TvRequest {
    TvRequest { path: "/p".to_string(), headers: vec![], body: "b".to_string() }
}

/// Begins the request above.
fn post(slot: &mut TvSlot<Wire>) -> TvStep<Wire> {
    tv_post(slot, "tv", "key", request())
}

fn failure(step: TvStep<Wire>) -> String {
    match step {
        TvStep::Finished(Err(e)) => e,
        _ => panic!("no failure"),
    }
}

fn response(status_line: &str, keep_alive: bool) -> Response {
    Response { status_line: status_line.to_string(), keep_alive }
}

#[test]
fn a_fresh_exchange_is_not_repeated() {
    let mut slot: TvSlot<Wire> = TvSlot::new();
    match post(&mut slot) {
        TvStep::Exchange(None, exchanging) => {
            assert!(!exchanging.reused);
            assert_eq!(failure(exchanging.failed(&mut slot, "refused")), "HTTP /p: refused");
        }
        _ => panic!("no exchange"),
    }
}

#[test]
fn a_failure_on_a_used_connection_is_tried_again_once() {
    let mut slot = TvSlot { stream: Some(Wire(1)) };
    let exchanging = match post(&mut slot) {
        TvStep::Drain(stream, draining) => match draining.drained(stream, false) {
            TvStep::Exchange(Some(Wire(1)), exchanging) => exchanging,
            _ => panic!("the connection is not used"),
        },
        _ => panic!("the connection is not drained"),
    };
    assert!(exchanging.reused);
    assert!(slot.stream.is_none());
    let bytes = request_bytes("tv", "key", &request());
    assert_eq!(exchanging.call.bytes, bytes);
    match exchanging.failed(&mut slot, "reset") {
        TvStep::Exchange(None, exchanging) => {
            assert!(exchanging.second);
            assert_eq!(exchanging.call.bytes, bytes);
            assert_eq!(failure(exchanging.failed(&mut slot, "reset")), "HTTP /p: reset");
        }
        _ => panic!("no second attempt"),
    }
}

#[test]
fn a_connection_that_is_closed_is_not_used() {
    let mut slot = TvSlot { stream: Some(Wire(1)) };
    match post(&mut slot) {
        TvStep::Drain(stream, draining) => match draining.drained(stream, true) {
            TvStep::Exchange(None, exchanging) => assert!(!exchanging.reused),
            _ => panic!("the closed connection is used"),
        },
        _ => panic!("the connection is not drained"),
    }
}

#[test]
fn an_exchange_can_time_out() {
    let mut slot: TvSlot<Wire> = TvSlot::new();
    match post(&mut slot) {
        TvStep::Exchange(_, exchanging) => {
            assert_eq!(failure(exchanging.timed_out()), "HTTP /p: timed out");
        }
        _ => panic!("no exchange"),
    }
}

fn answer(slot: &mut TvSlot<Wire>, response: Response) -> Result<(), String> {
    match post(slot) {
        TvStep::Exchange(_, exchanging) => match exchanging.answered(slot, Wire(9), response) {
            TvStep::Finished(result) => result,
            _ => panic!("the request has not ended"),
        },
        _ => panic!("no exchange"),
    }
}

#[test]
fn a_good_status_ends_the_request_well() {
    for status in [200, 204, 299] {
        let mut slot = TvSlot::new();
        assert_eq!(answer(&mut slot, response(&format!("HTTP/1.1 {} x", status), true)), Ok(()));
        assert_eq!(slot.stream, Some(Wire(9)));
    }
}

#[test]
fn any_other_status_is_an_error_that_shows_the_line() {
    for status in [199, 300, 500] {
        let mut slot = TvSlot::new();
        assert_eq!(
            answer(&mut slot, response(&format!("HTTP/1.1 {} \"x\"", status), true)),
            Err(format!("HTTP /p: \"HTTP/1.1 {} \\\"x\\\"\"", status))
        );
        assert_eq!(slot.stream, Some(Wire(9)));
    }
}

#[test]
fn a_connection_is_kept_only_where_the_response_allows_it() {
    let mut slot = TvSlot::new();
    assert_eq!(answer(&mut slot, response("HTTP/1.1 200 OK", false)), Ok(()));
    assert_eq!(slot.stream, None);
}
