//! What the lines of a response's head say, each for itself and all together.
use vstd::prelude::*;

use crate::http::{bare_head, chunk_size, head_of, with_field, with_fields, Head, HeadModel};
use crate::text::{
    case_of_a_number_does_not_matter, crlf, find, find_from_is_first, is_white, joined, lines_of,
    lower, lowercase, notation, notation_reads_back, number, numbers_are_made_of_digits,
    space_around_is_trimmed, trimmed,
};

verus! {

/// `text` holds no colon.
pub open spec fn without_colon(text: Seq<char>) -> bool {
    forall|i: int| 0 <= i < text.len() ==> #[trigger] text[i] != ':'
}

/// The name of the header line `line`, in lower case.
pub open spec fn field_name(line: Seq<char>) -> Option<Seq<char>> {
    match find(line, seq![':']) {
        Some(i) => Some(lowercase(trimmed(line.take(i)))),
        None => None,
    }
}

/// The value of the header line `line`, in lower case.
pub open spec fn field_value(line: Seq<char>) -> Seq<char> {
    match find(line, seq![':']) {
        Some(i) => lowercase(trimmed(line.skip(i + 1))),
        None => seq![],
    }
}

/// `part` occurs in `text`.
pub open spec fn occurs(part: Seq<char>, text: Seq<char>) -> bool {
    exists|before: Seq<char>, after: Seq<char>| text == #[trigger] (before + part + after)
}

/// A header line is a name, a colon and a value, and the first colon is the one that counts. What
/// holds no colon is no header line.
pub proof fn line_is_name_and_value(name: Seq<char>, value: Seq<char>)
    requires
        without_colon(name),
    ensures
        field_name(name) is None,
        field_name(name + seq![':'] + value) == Some(lowercase(trimmed(name))),
        field_value(name + seq![':'] + value) == lowercase(trimmed(value)),
{
    let line = name + seq![':'] + value;
    let n = name.len() as int;
    find_from_is_first(name, seq![':'], 0);
    if let Some(j) = find(name, seq![':']) {
        assert(name.subrange(j, j + 1)[0] == name[j]);
    }
    find_from_is_first(line, seq![':'], 0);
    assert(line.subrange(n, n + 1) =~= seq![':']);
    let at = find(line, seq![':'])->0;
    if at < n {
        assert(line.subrange(at, at + 1)[0] == name[at]);
    }
    assert(line.take(n) =~= name);
    assert(line.skip(n + 1) =~= value);
}

proof fn names_differ()
    ensures
        "content-length"@ != "transfer-encoding"@,
        "content-length"@ != "connection"@,
        "transfer-encoding"@ != "connection"@,
        "close"@ != "keep-alive"@,
{
    reveal_strlit("content-length");
    reveal_strlit("transfer-encoding");
    reveal_strlit("connection");
    reveal_strlit("close");
    reveal_strlit("keep-alive");
    assert("content-length"@.len() == 14);
    assert("transfer-encoding"@.len() == 17);
    assert("connection"@.len() == 10);
    assert("close"@.len() == 5);
    assert("keep-alive"@.len() == 10);
}

proof fn found_where_it_occurs(part: Seq<char>, text: Seq<char>)
    ensures
        find(text, part) is Some <==> occurs(part, text),
{
    find_from_is_first(text, part, 0);
    if let Some(i) = find(text, part) {
        let n = part.len() as int;
        assert(text =~= text.take(i) + part + text.skip(i + n)) by {
            assert(text.subrange(i, i + n) == part);
            assert(text =~= text.take(i) + text.subrange(i, i + n) + text.skip(i + n));
        }
    }
    if occurs(part, text) {
        let (before, after) = choose|before: Seq<char>, after: Seq<char>|
            text == #[trigger] (before + part + after);
        let n = before.len() as int;
        assert(text.subrange(n, n + part.len()) =~= part);
    }
}

/// A line that is no header line, or that has any name but these three, says nothing: everything
/// stays as it was.
pub proof fn other_lines_say_nothing(head: HeadModel, line: Seq<char>)
    requires
        field_name(line) != Some("content-length"@),
        field_name(line) != Some("transfer-encoding"@),
        field_name(line) != Some("connection"@),
    ensures
        with_field(head, line) == head,
{
}

/// The status line stays what it is, and each of the other things is said by its own line alone.
pub proof fn each_line_says_one_thing(head: HeadModel, line: Seq<char>)
    ensures
        ({
            let after = with_field(head, line);
            &&& after.status_line == head.status_line
            &&& field_name(line) != Some("transfer-encoding"@) ==> after.chunked == head.chunked
            &&& field_name(line) != Some("content-length"@) ==> after.length == head.length
            &&& field_name(line) != Some("connection"@) ==> after.keep_alive == head.keep_alive
        }),
{
}

/// A body comes in chunks exactly if `chunked` occurs in what the line on the transfer encoding
/// says.
pub proof fn encoding_line_tells_chunks(head: HeadModel, line: Seq<char>)
    requires
        field_name(line) == Some("transfer-encoding"@),
    ensures
        with_field(head, line).chunked <==> occurs("chunked"@, field_value(line)),
{
    names_differ();
    found_where_it_occurs("chunked"@, field_value(line));
}

/// The length of a body is the number that its line gives, where that is one.
pub proof fn length_line_tells_length(head: HeadModel, line: Seq<char>, n: nat, i: int)
    requires
        field_name(line) == Some("content-length"@),
    ensures
        field_value(line) == notation(n, 10) && n <= usize::MAX ==> with_field(head, line).length
            == Some(n as int),
        field_value(line) == notation(n, 10) && n > usize::MAX ==> with_field(head, line).length
            is None,
        field_value(line).len() == 0 ==> with_field(head, line).length is None,
        0 <= i < field_value(line).len() && !"0123456789"@.contains(field_value(line)[i]) && !(i
            == 0 && field_value(line)[0] == '+') ==> with_field(head, line).length is None,
        with_field(head, line).length == number(field_value(line), 10, usize::MAX as int),
{
    names_differ();
    notation_reads_back(n, 10, usize::MAX as int, false, 0);
    assert(Seq::new(0, |i: int| '0') + notation(n, 10) =~= notation(n, 10));
    let value = field_value(line);
    if 0 <= i < value.len() && !(i == 0 && value[0] == '+') {
        numbers_are_made_of_digits(value, usize::MAX as int, i);
    }
}

/// Whether the connection stays open is what its line says, where it says `close` or `keep-alive`,
/// and is not changed by anything else.
pub proof fn connection_line_tells_what_becomes_of_it(head: HeadModel, line: Seq<char>)
    requires
        field_name(line) == Some("connection"@),
    ensures
        field_value(line) == "close"@ ==> !with_field(head, line).keep_alive,
        field_value(line) == "keep-alive"@ ==> with_field(head, line).keep_alive,
        field_value(line) != "close"@ && field_value(line) != "keep-alive"@ ==> with_field(
            head,
            line,
        ) == head,
{
    names_differ();
}

/// Of several lines on the transfer encoding the last one counts. Without one the body does not
/// begin to come in chunks.
pub proof fn last_encoding_line_counts(head: HeadModel, lines: Seq<Seq<char>>, i: int)
    requires
        -1 <= i < lines.len(),
        i >= 0 ==> field_name(lines[i]) == Some("transfer-encoding"@),
        forall|j: int|
            i < j < lines.len() ==> field_name(#[trigger] lines[j]) != Some("transfer-encoding"@),
    ensures
        i >= 0 ==> (with_fields(head, lines).chunked <==> occurs(
            "chunked"@,
            field_value(lines[i]),
        )),
        i < 0 ==> with_fields(head, lines).chunked == head.chunked,
    decreases lines.len(),
{
    if lines.len() > 0 {
        let next = with_field(head, lines[0]);
        let rest = lines.skip(1);
        assert forall|j: int| i - 1 < j < rest.len() && j >= 0 implies field_name(
            #[trigger] rest[j],
        ) != Some("transfer-encoding"@) by {
            assert(rest[j] == lines[j + 1]);
        }
        each_line_says_one_thing(head, lines[0]);
        if i == 0 {
            encoding_line_tells_chunks(head, lines[0]);
        }
        if i < 0 {
            assert(field_name(lines[0]) != Some("transfer-encoding"@));
            last_encoding_line_counts(next, rest, -1);
        } else {
            last_encoding_line_counts(next, rest, i - 1);
        }
    }
}

/// Of several lines on the length the last one counts. Without one no length is given.
pub proof fn last_length_line_counts(head: HeadModel, lines: Seq<Seq<char>>, i: int)
    requires
        -1 <= i < lines.len(),
        i >= 0 ==> field_name(lines[i]) == Some("content-length"@),
        forall|j: int|
            i < j < lines.len() ==> field_name(#[trigger] lines[j]) != Some("content-length"@),
    ensures
        i >= 0 ==> with_fields(head, lines).length == number(
            field_value(lines[i]),
            10,
            usize::MAX as int,
        ),
        i < 0 ==> with_fields(head, lines).length == head.length,
    decreases lines.len(),
{
    if lines.len() > 0 {
        let next = with_field(head, lines[0]);
        let rest = lines.skip(1);
        assert forall|j: int| i - 1 < j < rest.len() && j >= 0 implies field_name(
            #[trigger] rest[j],
        ) != Some("content-length"@) by {
            assert(rest[j] == lines[j + 1]);
        }
        each_line_says_one_thing(head, lines[0]);
        if i == 0 {
            length_line_tells_length(head, lines[0], 0, 0);
        }
        if i < 0 {
            assert(field_name(lines[0]) != Some("content-length"@));
            last_length_line_counts(next, rest, -1);
        } else {
            last_length_line_counts(next, rest, i - 1);
        }
    }
}

/// The line says that the connection is closed or that it is kept.
pub open spec fn decides(line: Seq<char>) -> bool {
    field_name(line) == Some("connection"@) && (field_value(line) == "close"@ || field_value(line)
        == "keep-alive"@)
}

/// Of several lines that say that the connection is closed or kept the last one counts. Without
/// one nothing changes.
pub proof fn last_connection_line_counts(head: HeadModel, lines: Seq<Seq<char>>, i: int)
    requires
        -1 <= i < lines.len(),
        i >= 0 ==> decides(lines[i]),
        forall|j: int| i < j < lines.len() ==> !decides(#[trigger] lines[j]),
    ensures
        i >= 0 ==> (with_fields(head, lines).keep_alive <==> field_value(lines[i])
            == "keep-alive"@),
        i < 0 ==> with_fields(head, lines).keep_alive == head.keep_alive,
    decreases lines.len(),
{
    if lines.len() > 0 {
        let next = with_field(head, lines[0]);
        let rest = lines.skip(1);
        assert forall|j: int| i - 1 < j < rest.len() && j >= 0 implies !decides(
            #[trigger] rest[j],
        ) by {
            assert(rest[j] == lines[j + 1]);
        }
        names_differ();
        each_line_says_one_thing(head, lines[0]);
        if field_name(lines[0]) == Some("connection"@) {
            connection_line_tells_what_becomes_of_it(head, lines[0]);
        }
        if i < 0 {
            assert(!decides(lines[0]));
            last_connection_line_counts(next, rest, -1);
        } else {
            last_connection_line_counts(next, rest, i - 1);
        }
    }
}

proof fn split_after_line(line: Seq<char>, rest: Seq<char>)
    requires
        find(line, crlf()) is None,
    ensures
        find(line + crlf() + rest, crlf()) == Some(line.len() as int),
{
    let s = line + crlf() + rest;
    let n = line.len() as int;
    assert(s.subrange(n, n + crlf().len()) =~= crlf());
    find_from_is_first(s, crlf(), 0);
    let at = find(s, crlf())->0;
    assert(at <= n);
    if at < n {
        let here = s.subrange(at, at + 2);
        assert(here[0] == s[at] && here[1] == s[at + 1]);
        assert(s[n] == '\r');
        assert(at + 1 < n);
        no_line_end_in(line, at);
    }
}

proof fn no_line_end_in(line: Seq<char>, j: int)
    requires
        find(line, crlf()) is None,
        0 <= j < line.len() - 1,
    ensures
        line[j] != '\r' || line[j + 1] != '\n',
{
    find_from_is_first(line, crlf(), 0);
    if line[j] == '\r' && line[j + 1] == '\n' {
        assert(line.subrange(j, j + 2) =~= crlf());
    }
}

/// Lines that hold no line end are split where they were joined.
pub proof fn joined_lines_split(lines: Seq<Seq<char>>)
    requires
        lines.len() > 0,
        forall|i: int| 0 <= i < lines.len() ==> find(#[trigger] lines[i], "\r\n"@) is None,
    ensures
        lines_of(joined(lines)) == lines,
    decreases lines.len(),
{
    reveal_strlit("\r\n");
    assert("\r\n"@ =~= crlf());
    assert(find(lines[0], "\r\n"@) is None);
    if lines.len() == 1 {
        assert(lines =~= seq![lines[0]]);
    } else {
        let rest = lines.skip(1);
        assert forall|i: int| 0 <= i < rest.len() implies find(
            #[trigger] rest[i],
            "\r\n"@,
        ) is None by {
            assert(rest[i] == lines[i + 1]);
        }
        joined_lines_split(rest);
        split_after_line(lines[0], joined(rest));
        let s = joined(lines);
        let n = lines[0].len() as int;
        assert(s.take(n) =~= lines[0]);
        assert(s.skip(n + 2) =~= joined(rest));
        assert(seq![lines[0]] + rest =~= lines);
    }
}

/// A head is a status line and header lines. The status line is the first line as it stands, and
/// it alone decides what the connection would be kept for without the others.
pub proof fn head_is_read_line_by_line(status: Seq<char>, fields: Seq<Seq<char>>)
    requires
        find(status, "\r\n"@) is None,
        forall|i: int| 0 <= i < fields.len() ==> find(#[trigger] fields[i], "\r\n"@) is None,
    ensures
        ({
            let head = head_of(joined(seq![status] + fields));
            &&& head.status_line == status
            &&& head == with_fields(
                HeadModel {
                    status_line: status,
                    keep_alive: status.len() >= 8 && status.take(8) == "HTTP/1.1"@,
                    length: None,
                    chunked: false,
                },
                fields,
            )
        }),
{
    reveal_strlit("HTTP/1.1");
    let lines = seq![status] + fields;
    assert forall|i: int| 0 <= i < lines.len() implies find(
        #[trigger] lines[i],
        "\r\n"@,
    ) is None by {
        if i > 0 {
            assert(lines[i] == fields[i - 1]);
        }
    }
    joined_lines_split(lines);
    assert(lines.skip(1) =~= fields);
    status_line_stays(bare_head(status), fields);
}

proof fn status_line_stays(head: HeadModel, lines: Seq<Seq<char>>)
    ensures
        with_fields(head, lines).status_line == head.status_line,
    decreases lines.len(),
{
    if lines.len() > 0 {
        status_line_stays(with_field(head, lines[0]), lines.skip(1));
    }
}

/// What a head says is what its fields hold.
pub proof fn head_is_its_fields(head: Head)
    ensures
        head@.status_line == head.status_line@,
        head@.keep_alive == head.keep_alive,
        head@.chunked == head.chunked,
        head.length is None <==> head@.length is None,
        head.length is Some ==> head@.length->0 == head.length->0 as int,
{
}

// Chunk sizes.

proof fn hex_digits_are_plain(n: nat, digits: Seq<char>, i: int)
    requires
        lowercase(digits) == notation(n, 16),
        0 <= i < digits.len(),
    ensures
        !is_white(digits[i]),
        digits[i] != ';',
    decreases n,
{
    let s = notation(n, 16);
    assert(s[i] == lower(digits[i]));
    hex_characters(n, i);
}

proof fn hex_characters(n: nat, i: int)
    requires
        0 <= i < notation(n, 16).len(),
    ensures
        '0' <= notation(n, 16)[i] <= '9' || 'a' <= notation(n, 16)[i] <= 'f',
    decreases n,
{
    if n >= 16 {
        let front = notation(n / 16, 16);
        if i < front.len() {
            hex_characters(n / 16, i);
        }
    }
}

/// The first line of a chunk gives its size in hexadecimal digits of either case, with white space
/// around them and anything at all after a semicolon; a size beyond all memory is none.
pub proof fn chunk_size_reads_back(
    n: nat,
    digits: Seq<char>,
    before: Seq<char>,
    after: Seq<char>,
    extension: Seq<char>,
)
    requires
        lowercase(digits) == notation(n, 16),
        forall|i: int| 0 <= i < before.len() ==> is_white(#[trigger] before[i]),
        forall|i: int| 0 <= i < after.len() ==> is_white(#[trigger] after[i]),
    ensures
        ({
            let line = before + digits + after;
            let size = if n <= usize::MAX {
                Some(n as int)
            } else {
                None
            };
            &&& chunk_size(line) == size
            &&& chunk_size(line + seq![';'] + extension) == size
        }),
{
    let line = before + digits + after;
    let long = line + seq![';'] + extension;
    let max = usize::MAX as int;
    notation_reads_back(n, 16, max, false, 0);
    assert(Seq::new(0, |i: int| '0') + notation(n, 16) =~= notation(n, 16));
    case_of_a_number_does_not_matter(digits, 16, max);
    assert(digits.len() == notation(n, 16).len());
    assert(digits.len() > 0);
    hex_digits_are_plain(n, digits, 0);
    hex_digits_are_plain(n, digits, digits.len() - 1);
    space_around_is_trimmed(before, digits, after);
    assert forall|i: int| 0 <= i < line.len() implies #[trigger] line[i] != ';' by {
        if i < before.len() {
            assert(is_white(before[i]));
        } else if i < before.len() + digits.len() {
            hex_digits_are_plain(n, digits, i - before.len());
        } else {
            assert(is_white(after[i - before.len() - digits.len()]));
        }
    }
    find_from_is_first(line, seq![';'], 0);
    if let Some(j) = find(line, seq![';']) {
        assert(line.subrange(j, j + 1)[0] == line[j]);
    }
    find_from_is_first(long, seq![';'], 0);
    let at = find(long, seq![';']);
    let k = line.len() as int;
    assert(long.subrange(k, k + 1) =~= seq![';']);
    assert(at is Some);
    if at->0 < k {
        assert(long.subrange(at->0, at->0 + 1)[0] == line[at->0]);
    }
    assert(long.take(k) =~= line);
}

} // verus!
