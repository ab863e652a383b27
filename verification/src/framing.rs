//! What a server reads out of a request: where its head ends, and how long it says its body is.
use vstd::prelude::*;
use vstd::utf8::*;

use crate::http::{
    bare_head, head_mark, head_of, with_field, with_fields, HeadModel,
};
use crate::text::{
    crlf, decimal, decimal_digits, decimal_reads_back, find, find_from_is_first, is_white,
    lines_of, lowercase, trimmed,
};
use crate::tv::{header_lines, request_head, wire_bytes, TvRequest};

verus! {

/// `s` holds no carriage return.
pub open spec fn one_line(s: Seq<char>) -> bool {
    forall|i: int| 0 <= i < s.len() ==> #[trigger] s[i] != '\r'
}

/// No name and no value of `headers` holds a carriage return.
pub open spec fn one_line_each(headers: Seq<(Seq<char>, Seq<char>)>) -> bool {
    forall|i: int|
        0 <= i < headers.len() ==> one_line((#[trigger] headers[i]).0) && one_line(headers[i].1)
}

// Encoding.

proof fn encoding_of_sum(a: Seq<char>, b: Seq<char>)
    ensures
        encode_utf8(a + b) == encode_utf8(a) + encode_utf8(b),
    decreases a.len(),
{
    if a.len() == 0 {
        assert(a + b =~= b);
        assert(encode_utf8(a) + encode_utf8(b) =~= encode_utf8(b));
    } else {
        encoding_of_sum(a.drop_first(), b);
        assert((a + b).drop_first() =~= a.drop_first() + b);
        assert((a + b)[0] == a[0]);
        assert(encode_utf8(a + b) =~= encode_utf8(a) + encode_utf8(b));
    }
}

proof fn scalar_without_return(c: char)
    requires
        c != '\r',
    ensures
        encode_scalar(c as u32).len() > 0,
        forall|i: int|
            0 <= i < encode_scalar(c as u32).len() ==> #[trigger] encode_scalar(c as u32)[i] != 13,
{
    let n = c as u32;
    assert(n <= 0x7f && n != 13 ==> (n & 0x7F) as u8 != 13) by (bit_vector);
    assert((0xC0u8 | ((n >> 6) & 0x1F) as u8) != 13) by (bit_vector);
    assert((0xE0u8 | ((n >> 12) & 0x0F) as u8) != 13) by (bit_vector);
    assert((0xF0u8 | ((n >> 18) & 0x7) as u8) != 13) by (bit_vector);
    assert((0x80u8 | (n & 0x3F) as u8) != 13) by (bit_vector);
    assert((0x80u8 | ((n >> 6) & 0x3F) as u8) != 13) by (bit_vector);
    assert((0x80u8 | ((n >> 12) & 0x3F) as u8) != 13) by (bit_vector);
}

proof fn encoding_without_return(s: Seq<char>)
    requires
        one_line(s),
    ensures
        encode_utf8(s).len() >= s.len(),
        forall|i: int| 0 <= i < encode_utf8(s).len() ==> #[trigger] encode_utf8(s)[i] != 13,
    decreases s.len(),
{
    if s.len() > 0 {
        scalar_without_return(s[0]);
        encoding_without_return(s.drop_first());
    }
}

// Lines.

/// The lines `lines`, each with its line end.
spec fn terminated(lines: Seq<Seq<char>>) -> Seq<char>
    decreases lines.len(),
{
    if lines.len() == 0 {
        seq![]
    } else {
        terminated(lines.drop_last()) + lines.last() + crlf()
    }
}

/// Each of the lines holds something, and no carriage return.
spec fn proper(lines: Seq<Seq<char>>) -> bool {
    forall|i: int|
        0 <= i < lines.len() ==> (#[trigger] lines[i]).len() > 0 && one_line(lines[i])
}

/// The lines of a request's head.
spec fn request_lines(
    path: Seq<char>,
    host: Seq<char>,
    psk: Seq<char>,
    length: nat,
    headers: Seq<(Seq<char>, Seq<char>)>,
) -> Seq<Seq<char>> {
    seq![
        "POST "@ + path + " HTTP/1.1"@,
        "Host: "@ + host,
        "X-Auth-PSK: "@ + psk,
        "Content-Length: "@ + decimal(length),
    ] + headers.map_values(|h: (Seq<char>, Seq<char>)| h.0 + ": "@ + h.1)
}

proof fn terminated_sum(a: Seq<Seq<char>>, b: Seq<Seq<char>>)
    ensures
        terminated(a + b) == terminated(a) + terminated(b),
    decreases b.len(),
{
    if b.len() == 0 {
        assert(a + b =~= a);
        assert(terminated(a) + terminated(b) =~= terminated(a));
    } else {
        terminated_sum(a, b.drop_last());
        assert((a + b).drop_last() =~= a + b.drop_last());
        assert(terminated(a + b) =~= terminated(a) + terminated(b));
    }
}

proof fn header_lines_are_lines(headers: Seq<(Seq<char>, Seq<char>)>)
    ensures
        header_lines(headers) == terminated(
            headers.map_values(|h: (Seq<char>, Seq<char>)| h.0 + ": "@ + h.1),
        ),
    decreases headers.len(),
{
    reveal_strlit("\r\n");
    assert("\r\n"@ =~= crlf());
    let lines = headers.map_values(|h: (Seq<char>, Seq<char>)| h.0 + ": "@ + h.1);
    if headers.len() > 0 {
        header_lines_are_lines(headers.drop_last());
        assert(lines.drop_last() =~= headers.drop_last().map_values(
            |h: (Seq<char>, Seq<char>)| h.0 + ": "@ + h.1,
        ));
        assert(header_lines(headers) =~= terminated(lines));
    }
}

proof fn head_is_lines(
    path: Seq<char>,
    host: Seq<char>,
    psk: Seq<char>,
    length: nat,
    headers: Seq<(Seq<char>, Seq<char>)>,
)
    ensures
        request_head(path, host, psk, length, headers) == terminated(
            request_lines(path, host, psk, length, headers),
        ) + crlf(),
{
    reveal_strlit("\r\n");
    reveal_strlit(" HTTP/1.1\r\nHost: ");
    reveal_strlit(" HTTP/1.1");
    reveal_strlit("Host: ");
    reveal_strlit("\r\nX-Auth-PSK: ");
    reveal_strlit("X-Auth-PSK: ");
    reveal_strlit("\r\nContent-Length: ");
    reveal_strlit("Content-Length: ");
    assert("\r\n"@ =~= crlf());
    assert(" HTTP/1.1\r\nHost: "@ =~= " HTTP/1.1"@ + crlf() + "Host: "@);
    assert("\r\nX-Auth-PSK: "@ =~= crlf() + "X-Auth-PSK: "@);
    assert("\r\nContent-Length: "@ =~= crlf() + "Content-Length: "@);
    let l0 = "POST "@ + path + " HTTP/1.1"@;
    let l1 = "Host: "@ + host;
    let l2 = "X-Auth-PSK: "@ + psk;
    let l3 = "Content-Length: "@ + decimal(length);
    let fixed = seq![l0, l1, l2, l3];
    let rest = headers.map_values(|h: (Seq<char>, Seq<char>)| h.0 + ": "@ + h.1);
    header_lines_are_lines(headers);
    terminated_sum(fixed, rest);
    assert(fixed.drop_last() =~= seq![l0, l1, l2]);
    assert(seq![l0, l1, l2].drop_last() =~= seq![l0, l1]);
    assert(seq![l0, l1].drop_last() =~= seq![l0]);
    assert(seq![l0].drop_last() =~= seq![]);
    assert(terminated(Seq::<Seq<char>>::empty()) =~= seq![]);
    assert(terminated(seq![l0]) =~= l0 + crlf());
    assert(terminated(seq![l0, l1]) =~= l0 + crlf() + l1 + crlf());
    assert(terminated(seq![l0, l1, l2]) =~= l0 + crlf() + l1 + crlf() + l2 + crlf());
    assert(terminated(fixed) =~= l0 + crlf() + l1 + crlf() + l2 + crlf() + l3 + crlf());
    assert(request_head(path, host, psk, length, headers) =~= terminated(fixed) + terminated(rest)
        + crlf());
}

proof fn lines_are_proper(
    path: Seq<char>,
    host: Seq<char>,
    psk: Seq<char>,
    length: nat,
    headers: Seq<(Seq<char>, Seq<char>)>,
)
    requires
        one_line(path),
        one_line(host),
        one_line(psk),
        one_line_each(headers),
    ensures
        proper(request_lines(path, host, psk, length, headers)),
{
    reveal_strlit("POST ");
    reveal_strlit(" HTTP/1.1");
    reveal_strlit("Host: ");
    reveal_strlit("X-Auth-PSK: ");
    reveal_strlit("Content-Length: ");
    reveal_strlit(": ");
    decimal_digits(length);
    let lines = request_lines(path, host, psk, length, headers);
    assert forall|i: int| 0 <= i < lines.len() implies (#[trigger] lines[i]).len() > 0 && one_line(
        lines[i],
    ) by {
        if i >= 4 {
            let h = headers[i - 4];
            assert(lines[i] == h.0 + ": "@ + h.1);
        }
    }
}

proof fn encoded_line_end()
    ensures
        encode_utf8(crlf()) == seq![13u8, 10u8],
{
    assert(is_ascii_chars(crlf()));
    is_ascii_chars_encode_utf8(crlf());
    assert(crlf()[0] as u8 == 13);
    assert(crlf()[1] as u8 == 10);
    assert(encode_utf8(crlf()) =~= seq![13u8, 10u8]);
}

/// In the lines of a head no line end follows another one directly.
proof fn line_ends_stand_apart(lines: Seq<Seq<char>>)
    requires
        proper(lines),
    ensures
        ({
            let bytes = encode_utf8(terminated(lines));
            &&& lines.len() == 0 ==> bytes.len() == 0
            &&& lines.len() > 0 ==> bytes.len() > 2 && bytes[bytes.len() - 2] == 13
                && bytes[bytes.len() - 1] == 10
            &&& forall|j: int|
                0 <= j < bytes.len() - 2 && bytes[j] == 13 ==> #[trigger] bytes[j + 2] != 13
        }),
    decreases lines.len(),
{
    if lines.len() > 0 {
        let init = lines.drop_last();
        let line = lines.last();
        assert(proper(init));
        line_ends_stand_apart(init);
        encoding_of_sum(terminated(init) + line, crlf());
        encoding_of_sum(terminated(init), line);
        encoding_without_return(line);
        encoded_line_end();
        let before = encode_utf8(terminated(init));
        let middle = encode_utf8(line);
        let bytes = encode_utf8(terminated(lines));
        assert(bytes =~= before + middle + seq![13u8, 10u8]);
        assert forall|j: int| 0 <= j < bytes.len() - 2 && bytes[j] == 13 implies #[trigger]
            bytes[j + 2] != 13 by {
            if j < before.len() - 2 {
                assert(bytes[j] == before[j]);
                assert(bytes[j + 2] == before[j + 2]);
            } else if j < before.len() {
                assert(bytes[j] == before[j]);
                assert(j == before.len() - 2);
                assert(bytes[j + 2] == middle[0]);
            } else {
                assert(bytes[j] == middle[j - before.len()]);
            }
        }
    }
}

/// The head of a request ends where its first blank line is: what follows that line is the body,
/// whole and alone. This holds where no carriage return stands in what the head is made of.
pub proof fn head_ends_at_its_blank_line(
    path: Seq<char>,
    host: Seq<char>,
    psk: Seq<char>,
    length: nat,
    headers: Seq<(Seq<char>, Seq<char>)>,
    body: Seq<u8>,
)
    requires
        one_line(path),
        one_line(host),
        one_line(psk),
        one_line_each(headers),
    ensures
        ({
            let head = encode_utf8(request_head(path, host, psk, length, headers));
            find(head + body, head_mark()) == Some(head.len() - 4)
        }),
{
    let lines = request_lines(path, host, psk, length, headers);
    let head = encode_utf8(request_head(path, host, psk, length, headers));
    let bytes = encode_utf8(terminated(lines));
    head_is_lines(path, host, psk, length, headers);
    lines_are_proper(path, host, psk, length, headers);
    line_ends_stand_apart(lines);
    encoding_of_sum(terminated(lines), crlf());
    encoded_line_end();
    assert(head =~= bytes + seq![13u8, 10u8]);
    let s = head + body;
    let end = bytes.len() - 2;
    assert(s.subrange(end, end + 4) =~= head_mark());
    find_from_is_first(s, head_mark(), 0);
    let at = find(s, head_mark())->0;
    if at < end {
        let here = s.subrange(at, at + 4);
        assert(here == head_mark());
        assert(here[0] == s[at] && here[2] == s[at + 2]);
        assert(bytes[at] == s[at] && bytes[at + 2] == s[at + 2]);
    }
}

// Reading the head back.

proof fn first_line(line: Seq<char>, rest: Seq<char>)
    requires
        one_line(line),
    ensures
        lines_of(line + crlf() + rest) == seq![line] + lines_of(rest),
{
    let s = line + crlf() + rest;
    find_from_is_first(s, crlf(), 0);
    let n = line.len() as int;
    assert(s.subrange(n, n + 2) =~= crlf());
    let at = find(s, crlf())->0;
    if at < n {
        assert(s.subrange(at, at + 2)[0] == line[at]);
    }
    assert(at == n);
    assert(s.take(n) =~= line);
    assert(s.skip(n + 2) =~= rest);
}

proof fn only_line(line: Seq<char>)
    requires
        one_line(line),
    ensures
        lines_of(line) == seq![line],
{
    find_from_is_first(line, crlf(), 0);
    if let Some(at) = find(line, crlf()) {
        assert(line.subrange(at, at + 2)[0] == line[at]);
    }
}

proof fn lines_read_back(lines: Seq<Seq<char>>, last: Seq<char>)
    requires
        proper(lines),
        one_line(last),
    ensures
        lines_of(terminated(lines) + last) == lines + seq![last],
    decreases lines.len(),
{
    if lines.len() == 0 {
        only_line(last);
        assert(terminated(lines) + last =~= last);
        assert(lines + seq![last] =~= seq![last]);
    } else {
        let first = lines[0];
        let others = lines.skip(1);
        lines_read_back(others, last);
        terminated_sum(seq![first], others);
        assert(seq![first] + others =~= lines);
        assert(seq![first].drop_last() =~= seq![]);
        assert(terminated(Seq::<Seq<char>>::empty()) =~= seq![]);
        assert(terminated(seq![first]) =~= first + crlf());
        first_line(first, terminated(others) + last);
        assert(terminated(lines) + last =~= first + crlf() + (terminated(others) + last));
        assert(seq![first] + (others + seq![last]) =~= lines + seq![last]);
    }
}

/// `name` names a header line other than the one that gives the length of the body.
pub open spec fn other_name(name: Seq<char>) -> bool {
    &&& forall|i: int| 0 <= i < name.len() ==> #[trigger] name[i] != ':'
    &&& lowercase(trimmed(name)) != "content-length"@
}

proof fn field_parts(name: Seq<char>, value: Seq<char>)
    requires
        forall|i: int| 0 <= i < name.len() ==> #[trigger] name[i] != ':',
    ensures
        ({
            let line = name + ": "@ + value;
            let n = name.len() as int;
            &&& find(line, seq![':']) == Some(n)
            &&& line.take(n) == name
            &&& trimmed(line.skip(n + 1)) == trimmed(value)
        }),
{
    reveal_strlit(": ");
    let line = name + ": "@ + value;
    let n = name.len() as int;
    find_from_is_first(line, seq![':'], 0);
    assert(line.subrange(n, n + 1) =~= seq![':']);
    let at = find(line, seq![':'])->0;
    assert(line.subrange(at, at + 1)[0] == line[at]);
    if at < n {
        assert(line[at] == name[at]);
    }
    assert(line.take(n) =~= name);
    let tail = line.skip(n + 1);
    assert(tail[0] == ' ');
    assert(tail.skip(1) =~= value);
}

proof fn other_field_keeps_length(head: HeadModel, name: Seq<char>, value: Seq<char>)
    requires
        other_name(name),
    ensures
        with_field(head, name + ": "@ + value).length == head.length,
{
    field_parts(name, value);
}

proof fn other_fields_keep_length(head: HeadModel, headers: Seq<(Seq<char>, Seq<char>)>)
    requires
        forall|i: int| 0 <= i < headers.len() ==> other_name((#[trigger] headers[i]).0),
    ensures
        with_fields(
            head,
            headers.map_values(|h: (Seq<char>, Seq<char>)| h.0 + ": "@ + h.1),
        ).length == head.length,
    decreases headers.len(),
{
    let lines = headers.map_values(|h: (Seq<char>, Seq<char>)| h.0 + ": "@ + h.1);
    if headers.len() > 0 {
        other_field_keeps_length(head, headers[0].0, headers[0].1);
        assert forall|i: int| 0 <= i < headers.skip(1).len() implies other_name(
            (#[trigger] headers.skip(1)[i]).0,
        ) by {
            assert(headers.skip(1)[i] == headers[i + 1]);
        }
        other_fields_keep_length(with_field(head, lines[0]), headers.skip(1));
        assert(lines.skip(1) =~= headers.skip(1).map_values(
            |h: (Seq<char>, Seq<char>)| h.0 + ": "@ + h.1,
        ));
    }
}

proof fn length_field(head: HeadModel, length: nat)
    requires
        length <= usize::MAX,
    ensures
        with_field(head, "Content-Length: "@ + decimal(length)).length == Some(length as int),
{
    reveal_strlit("Content-Length: ");
    reveal_strlit("Content-Length");
    reveal_strlit("content-length");
    reveal_strlit(": ");
    assert("Content-Length: "@ =~= "Content-Length"@ + ": "@);
    field_parts("Content-Length"@, decimal(length));
    assert(trimmed("Content-Length"@) == "Content-Length"@);
    assert(lowercase("Content-Length"@) =~= "content-length"@);
    decimal_digits(length);
    let digits = decimal(length);
    assert(!is_white(digits[0]));
    assert(!is_white(digits[digits.len() - 1]));
    assert(trimmed(digits) == digits);
    assert(lowercase(digits) =~= digits);
    decimal_reads_back(length, usize::MAX as int);
}

/// Reading the head of a request gives back the length of the body that it was written for,
/// whatever other header lines it has.
pub proof fn length_reads_back(
    path: Seq<char>,
    host: Seq<char>,
    psk: Seq<char>,
    length: nat,
    headers: Seq<(Seq<char>, Seq<char>)>,
)
    requires
        length <= usize::MAX,
        one_line(path),
        one_line(host),
        one_line(psk),
        one_line_each(headers),
        forall|i: int| 0 <= i < headers.len() ==> other_name((#[trigger] headers[i]).0),
    ensures
        ({
            let head = request_head(path, host, psk, length, headers);
            head_of(head.take(head.len() - 4)).length == Some(length as int)
        }),
{
    let lines = request_lines(path, host, psk, length, headers);
    let head = request_head(path, host, psk, length, headers);
    head_is_lines(path, host, psk, length, headers);
    lines_are_proper(path, host, psk, length, headers);
    let n = lines.len() as int;
    let init = lines.drop_last();
    assert(proper(init));
    assert(one_line(lines[n - 1]));
    lines_read_back(init, lines.last());
    assert(init + seq![lines.last()] =~= lines);
    assert(head.take(head.len() - 4) =~= terminated(init) + lines.last());
    let h0 = bare_head(lines[0]);
    reveal_strlit("Host: ");
    reveal_strlit("Host");
    reveal_strlit("X-Auth-PSK: ");
    reveal_strlit("X-Auth-PSK");
    reveal_strlit(": ");
    reveal_strlit("content-length");
    assert("Host: "@ =~= "Host"@ + ": "@);
    assert("X-Auth-PSK: "@ =~= "X-Auth-PSK"@ + ": "@);
    assert(lowercase("Host"@).len() == 4);
    assert(lowercase("X-Auth-PSK"@).len() == 10);
    assert(other_name("Host"@));
    assert(other_name("X-Auth-PSK"@));
    other_field_keeps_length(h0, "Host"@, host);
    let h1 = with_field(h0, lines[1]);
    other_field_keeps_length(h1, "X-Auth-PSK"@, psk);
    let h2 = with_field(h1, lines[2]);
    length_field(h2, length);
    let h3 = with_field(h2, lines[3]);
    other_fields_keep_length(h3, headers);
    let others = headers.map_values(|h: (Seq<char>, Seq<char>)| h.0 + ": "@ + h.1);
    assert(lines.skip(1).skip(1).skip(1).skip(1) =~= others);
    assert(lines.skip(1)[0] == lines[1]);
    assert(lines.skip(1).skip(1)[0] == lines[2]);
    assert(lines.skip(1).skip(1).skip(1)[0] == lines[3]);
    reveal_with_fuel(with_fields, 4);
}

proof fn head_without_blank_line(
    path: Seq<char>,
    host: Seq<char>,
    psk: Seq<char>,
    length: nat,
    headers: Seq<(Seq<char>, Seq<char>)>,
)
    requires
        one_line(path),
        one_line(host),
        one_line(psk),
        one_line_each(headers),
    ensures
        ({
            let head = request_head(path, host, psk, length, headers);
            let text = head.take(head.len() - 4);
            let bytes = encode_utf8(head);
            &&& head.len() >= 4
            &&& bytes.len() >= 4
            &&& encode_utf8(text) == bytes.take(bytes.len() - 4)
            &&& lines_of(text) == request_lines(path, host, psk, length, headers)
        }),
{
    let lines = request_lines(path, host, psk, length, headers);
    let head = request_head(path, host, psk, length, headers);
    head_is_lines(path, host, psk, length, headers);
    lines_are_proper(path, host, psk, length, headers);
    let n = lines.len() as int;
    let init = lines.drop_last();
    assert(proper(init));
    assert(one_line(lines[n - 1]));
    lines_read_back(init, lines.last());
    assert(init + seq![lines.last()] =~= lines);
    let text = terminated(init) + lines.last();
    assert(head =~= text + crlf() + crlf());
    assert(head.take(head.len() - 4) =~= text);
    encoding_of_sum(text + crlf(), crlf());
    encoding_of_sum(text, crlf());
    encoded_line_end();
    let bytes = encode_utf8(head);
    assert(bytes.take(bytes.len() - 4) =~= encode_utf8(text));
}

/// A server that reads a request finds in it what it was made of: the request line names the path,
/// character by character, the next lines hold the host, the key, the length of the body in bytes
/// and the header lines in their order, each as it was given, and after the blank line comes the
/// body. There is nothing else in it.
pub proof fn request_reads_back(host: Seq<char>, psk: Seq<char>, request: TvRequest, k: int)
    requires
        one_line(request.path@),
        one_line(host),
        one_line(psk),
        one_line_each(request.header_texts()),
    ensures
        ({
            let bytes = wire_bytes(host, psk, request);
            let at = find(bytes, head_mark())->0;
            let lines = lines_of(decode_utf8(bytes.take(at)));
            &&& find(bytes, head_mark()) is Some
            &&& lines.len() == 4 + request.headers@.len()
            &&& lines[0] == "POST "@ + request.path@ + " HTTP/1.1"@
            &&& lines[1] == "Host: "@ + host
            &&& lines[2] == "X-Auth-PSK: "@ + psk
            &&& lines[3] == "Content-Length: "@ + decimal(bytes.skip(at + 4).len())
            &&& 0 <= k < request.headers@.len() ==> lines[4 + k] == request.headers@[k].0@ + ": "@
                + request.headers@[k].1@
            &&& bytes.skip(at + 4) == encode_utf8(request.body@)
        }),
{
    let headers = request.header_texts();
    let body = encode_utf8(request.body@);
    let head = request_head(request.path@, host, psk, body.len(), headers);
    let bytes = wire_bytes(host, psk, request);
    head_ends_at_its_blank_line(request.path@, host, psk, body.len(), headers, body);
    head_without_blank_line(request.path@, host, psk, body.len(), headers);
    let at = encode_utf8(head).len() - 4;
    let text = head.take(head.len() - 4);
    assert(bytes.take(at) =~= encode_utf8(head).take(at));
    assert(bytes.skip(at + 4) =~= body);
    encode_utf8_decode_utf8(text);
    if 0 <= k < request.headers@.len() {
        assert(headers[k] == (request.headers@[k].0@, request.headers@[k].1@));
    }
}

} // verus!
