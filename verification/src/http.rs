//! HTTP responses, read from a connection piece by piece.
//!
//! `response_of` says what a stream of bytes holds; `ResponseReader` finds it out while the
//! bytes arrive, in whatever pieces they come.
use vstd::prelude::*;
use vstd::slice::slice_subrange;
use vstd::string::*;

use crate::outside::{debug_form, debug_text, lossy_utf8, utf8_lossy};
use crate::text::{
    begins, begins_with, chars_of, crlf, find, find_bytes, find_chars, find_from_extends,
    find_from_is_first, join2, lines_of, lowercase, number, read_number, same_chars, string_of,
    to_lower, trim, trimmed,
};

verus! {

/// What the head of a response says.
pub struct Head {
    pub status_line: String,
    /// Whether the connection stays open after the response.
    pub keep_alive: bool,
    /// The length of the body, where one is given.
    pub length: Option<usize>,
    /// Whether the body comes in chunks.
    pub chunked: bool,
}

/// A head as a mathematical value.
pub struct HeadModel {
    pub status_line: Seq<char>,
    pub keep_alive: bool,
    pub length: Option<int>,
    pub chunked: bool,
}

impl View for Head {
    type V = HeadModel;

    open spec fn view(&self) -> HeadModel {
        HeadModel {
            status_line: self.status_line@,
            keep_alive: self.keep_alive,
            length: match self.length {
                Some(n) => Some(n as int),
                None => None,
            },
            chunked: self.chunked,
        }
    }
}

/// `head` after one more header line. Of two lines with the same name the later one counts.
pub open spec fn with_field(head: HeadModel, line: Seq<char>) -> HeadModel {
    match find(line, seq![':']) {
        None => head,
        Some(i) => {
            let name = lowercase(trimmed(line.take(i)));
            let value = lowercase(trimmed(line.skip(i + 1)));
            if name == "content-length"@ {
                HeadModel { length: number(value, 10, usize::MAX as int), ..head }
            } else if name == "transfer-encoding"@ {
                HeadModel { chunked: find(value, "chunked"@) is Some, ..head }
            } else if name == "connection"@ && value == "close"@ {
                HeadModel { keep_alive: false, ..head }
            } else if name == "connection"@ && value == "keep-alive"@ {
                HeadModel { keep_alive: true, ..head }
            } else {
                head
            }
        },
    }
}

/// `head` after the header lines `lines`.
pub open spec fn with_fields(head: HeadModel, lines: Seq<Seq<char>>) -> HeadModel
    decreases lines.len(),
{
    if lines.len() == 0 {
        head
    } else {
        with_fields(with_field(head, lines[0]), lines.skip(1))
    }
}

/// Two header lines say the same: neither has a colon, or what stands before the first colon, and
/// what stands after it, differs only in the case of ASCII letters and in the white space around.
pub open spec fn same_field(a: Seq<char>, b: Seq<char>) -> bool {
    match (find(a, seq![':']), find(b, seq![':'])) {
        (None, None) => true,
        (Some(i), Some(j)) => {
            &&& lowercase(trimmed(a.take(i))) == lowercase(trimmed(b.take(j)))
            &&& lowercase(trimmed(a.skip(i + 1))) == lowercase(trimmed(b.skip(j + 1)))
        },
        _ => false,
    }
}

/// Header lines that differ only in the case of ASCII letters, and in the white space around name
/// and value, are read alike.
pub proof fn letter_case_and_space_do_not_matter(
    head: HeadModel,
    a: Seq<Seq<char>>,
    b: Seq<Seq<char>>,
)
    requires
        a.len() == b.len(),
        forall|i: int| 0 <= i < a.len() ==> same_field(#[trigger] a[i], b[i]),
    ensures
        with_fields(head, a) == with_fields(head, b),
    decreases a.len(),
{
    if a.len() > 0 {
        assert(same_field(a[0], b[0]));
        assert forall|i: int| 0 <= i < a.skip(1).len() implies same_field(
            #[trigger] a.skip(1)[i],
            b.skip(1)[i],
        ) by {
            assert(same_field(a[i + 1], b[i + 1]));
        }
        letter_case_and_space_do_not_matter(with_field(head, a[0]), a.skip(1), b.skip(1));
    }
}

/// What a head says whose status line is `line` and that has no header lines.
pub open spec fn bare_head(line: Seq<char>) -> HeadModel {
    HeadModel {
        status_line: line,
        keep_alive: begins_with(line, "HTTP/1.1"@),
        length: None,
        chunked: false,
    }
}

/// What the head `text` says.
pub open spec fn head_of(text: Seq<char>) -> HeadModel {
    with_fields(bare_head(lines_of(text)[0]), lines_of(text).skip(1))
}

fn add_field(head: &mut Head, line: &[char])
    ensures
        final(head)@ == with_field(old(head)@, line@),
{
    let colon: [char; 1] = [':'];
    assert(colon@ =~= seq![':']);
    match find_chars(line, &colon) {
        None => {},
        Some(i) => {
            proof {
                find_from_is_first(line@, seq![':'], 0);
            }
            let len: usize = line.len();
            assert(line@.subrange(0, i as int) =~= line@.take(i as int));
            assert(line@.subrange(i + 1, line@.len() as int) =~= line@.skip(i + 1));
            let name = to_lower(trim(slice_subrange(line, 0, i)));
            let value = to_lower(trim(slice_subrange(line, i + 1, len)));
            if same_chars(&name, &chars_of("content-length")) {
                head.length = match read_number(&value, 10, usize::MAX as u64) {
                    Some(n) => Some(n as usize),
                    None => None,
                };
            } else if same_chars(&name, &chars_of("transfer-encoding")) {
                head.chunked = find_chars(&value, &chars_of("chunked")).is_some();
            } else if same_chars(&name, &chars_of("connection")) {
                if same_chars(&value, &chars_of("close")) {
                    head.keep_alive = false;
                } else if same_chars(&value, &chars_of("keep-alive")) {
                    head.keep_alive = true;
                }
            }
        },
    }
}

/// Reads the head `text`.
pub fn parse_head(text: &str) -> (head: Head)
    ensures
        head@ == head_of(text@),
{
    let chars = chars_of(text);
    let line_end: [char; 2] = ['\r', '\n'];
    assert(line_end@ =~= crlf());
    let mut rest: &[char] = chars.as_slice();
    let first: Vec<char> = chars_of("HTTP/1.1");
    let mut head: Option<Head> = None;
    let ghost all = lines_of(text@);
    assert(all.skip(0) =~= all);
    let ghost mut done: int = 0;
    let mut more: bool = true;
    while more
        invariant
            line_end@ == crlf(),
            first@ == "HTTP/1.1"@,
            all == lines_of(text@),
            0 <= done <= all.len(),
            more ==> done < all.len() && lines_of(rest@) == all.skip(done),
            !more ==> done == all.len(),
            done == 0 <==> head is None,
            done > 0 ==> head_of(text@) == with_fields(head->0@, all.skip(done)),
        decreases all.len() - done,
    {
        let (line, next): (&[char], Option<&[char]>) = match find_chars(rest, &line_end) {
            Some(i) => {
                proof {
                    find_from_is_first(rest@, crlf(), 0);
                }
                let len: usize = rest.len();
                assert(rest@.subrange(0, i as int) =~= rest@.take(i as int));
                assert(rest@.subrange(i + 2, rest@.len() as int) =~= rest@.skip(i + 2));
                (slice_subrange(rest, 0, i), Some(slice_subrange(rest, i + 2, len)))
            },
            None => (rest, None),
        };
        assert(line@ == all[done]);
        assert(all.skip(done).skip(1) =~= all.skip(done + 1));
        head = match head {
            None => Some(
                Head {
                    status_line: string_of(line),
                    keep_alive: begins(line, &first),
                    length: None,
                    chunked: false,
                },
            ),
            Some(mut h) => {
                add_field(&mut h, line);
                Some(h)
            },
        };
        match next {
            Some(r) => {
                assert(lines_of(rest@).skip(1) =~= lines_of(r@));
                rest = r;
            },
            None => {
                more = false;
            },
        }
        proof {
            done = done + 1;
        }
    }
    assert(all.skip(done).len() == 0);
    head.unwrap()
}

// The body.

/// The bytes of a line end.
pub open spec fn line_mark() -> Seq<u8> {
    seq![13u8, 10u8]
}

/// The bytes between a head and its body.
pub open spec fn head_mark() -> Seq<u8> {
    seq![13u8, 10u8, 13u8, 10u8]
}

/// The size that a chunk's first line gives, in front of any extension.
pub open spec fn chunk_size(line: Seq<char>) -> Option<int> {
    let digits = match find(line, seq![';']) {
        Some(i) => line.take(i),
        None => line,
    };
    number(trimmed(digits), 16, usize::MAX as int)
}

/// Reads the size that a chunk's first line gives.
pub fn parse_chunk_size(line: &str) -> (size: Option<usize>)
    ensures
        size matches Some(n) ==> chunk_size(line@) == Some(n as int),
        size is None ==> chunk_size(line@) is None,
{
    let chars = chars_of(line);
    let semicolon: [char; 1] = [';'];
    assert(semicolon@ =~= seq![';']);
    let digits: &[char] = match find_chars(&chars, &semicolon) {
        Some(i) => {
            proof {
                find_from_is_first(line@, seq![';'], 0);
            }
            assert(chars@.subrange(0, i as int) =~= chars@.take(i as int));
            slice_subrange(chars.as_slice(), 0, i)
        },
        None => chars.as_slice(),
    };
    match read_number(trim(digits), 16, usize::MAX as u64) {
        Some(n) => Some(n as usize),
        None => None,
    }
}

/// The error for a line that gives no chunk size, shown as `shown`.
pub fn bad_chunk_size(shown: &str) -> (error: String)
    ensures
        error@ == "bad chunk size "@ + shown@,
{
    join2("bad chunk size ", shown)
}

/// How far a body has come.
pub enum Ending {
    /// Its end has not arrived.
    Open,
    /// It holds this line where a chunk size should stand.
    BadSize(Seq<char>),
    /// It is there to its end.
    Closed,
}

/// How far the trailer lines `s` have come, which an empty line ends.
pub open spec fn trailers_ending(s: Seq<u8>) -> Ending
    decreases s.len(),
    via trailers_ending_decreases
{
    match find(s, line_mark()) {
        None => Ending::Open,
        Some(i) => if i == 0 {
            Ending::Closed
        } else {
            trailers_ending(s.skip(i + 2))
        },
    }
}

#[via_fn]
proof fn trailers_ending_decreases(s: Seq<u8>) {
    find_from_is_first(s, line_mark(), 0);
}

/// How far the chunked body `s` has come: chunks, each a size line, that many bytes and a line
/// end, then one of size zero and the trailer lines.
pub open spec fn chunks_ending(s: Seq<u8>) -> Ending
    decreases s.len(),
    via chunks_ending_decreases
{
    match find(s, line_mark()) {
        None => Ending::Open,
        Some(i) => {
            let line = lossy_utf8(s.take(i));
            let rest = s.skip(i + 2);
            match chunk_size(line) {
                None => Ending::BadSize(line),
                Some(n) => if n == 0 {
                    trailers_ending(rest)
                } else if n < 0 || rest.len() < n + 2 {
                    Ending::Open
                } else {
                    chunks_ending(rest.skip(n + 2))
                },
            }
        },
    }
}

#[via_fn]
proof fn chunks_ending_decreases(s: Seq<u8>) {
    find_from_is_first(s, line_mark(), 0);
}

/// What a stream of bytes holds of a response.
pub enum Reception {
    /// The response is not there to its end.
    Incomplete,
    /// This line stands where a chunk size should.
    BadChunkSize(Seq<char>),
    /// The response is there: its status line, and whether the connection may be used again.
    Complete(Seq<char>, bool),
}

/// How far the body `s` of a response with this head has come. Without a length or chunks it
/// ends with the connection, and nothing of it is waited for.
pub open spec fn body_ending(head: HeadModel, s: Seq<u8>) -> Ending {
    if head.chunked {
        chunks_ending(s)
    } else {
        match head.length {
            Some(n) => if s.len() < n {
                Ending::Open
            } else {
                Ending::Closed
            },
            None => Ending::Closed,
        }
    }
}

/// What has been received where the head is known and the body has come so far.
pub open spec fn reception(head: HeadModel, ending: Ending) -> Reception {
    match ending {
        Ending::Open => Reception::Incomplete,
        Ending::BadSize(line) => Reception::BadChunkSize(line),
        Ending::Closed => Reception::Complete(
            head.status_line,
            head.keep_alive && (head.chunked || head.length is Some),
        ),
    }
}

/// What the stream `s` holds of a response.
pub open spec fn response_of(s: Seq<u8>) -> Reception {
    match find(s, head_mark()) {
        None => Reception::Incomplete,
        Some(i) => {
            let head = head_of(lossy_utf8(s.take(i)));
            reception(head, body_ending(head, s.skip(i + 4)))
        },
    }
}

proof fn skip_of_sum<T>(s: Seq<T>, more: Seq<T>, n: int)
    requires
        0 <= n <= s.len(),
    ensures
        (s + more).skip(n) == s.skip(n) + more,
        (s + more).take(n) == s.take(n),
{
    assert((s + more).skip(n) =~= s.skip(n) + more);
    assert((s + more).take(n) =~= s.take(n));
}

proof fn trailers_are_stable(s: Seq<u8>, more: Seq<u8>)
    requires
        trailers_ending(s) !is Open,
    ensures
        trailers_ending(s + more) == trailers_ending(s),
    decreases s.len(),
{
    find_from_is_first(s, line_mark(), 0);
    find_from_extends(s, more, line_mark(), 0);
    let i = find(s, line_mark())->0;
    if i != 0 {
        skip_of_sum(s, more, i + 2);
        trailers_are_stable(s.skip(i + 2), more);
    }
}

proof fn chunks_are_stable(s: Seq<u8>, more: Seq<u8>)
    requires
        chunks_ending(s) !is Open,
    ensures
        chunks_ending(s + more) == chunks_ending(s),
    decreases s.len(),
{
    find_from_is_first(s, line_mark(), 0);
    find_from_extends(s, more, line_mark(), 0);
    let i = find(s, line_mark())->0;
    skip_of_sum(s, more, i);
    skip_of_sum(s, more, i + 2);
    let rest = s.skip(i + 2);
    match chunk_size(lossy_utf8(s.take(i))) {
        None => {},
        Some(n) => {
            if n == 0 {
                trailers_are_stable(rest, more);
            } else {
                skip_of_sum(rest, more, n + 2);
                chunks_are_stable(rest.skip(n + 2), more);
            }
        },
    }
}

/// A response that is there to its end, or that has been refused, stays what it is whatever
/// follows it on the connection.
pub proof fn response_is_stable(s: Seq<u8>, more: Seq<u8>)
    requires
        response_of(s) !is Incomplete,
    ensures
        response_of(s + more) == response_of(s),
{
    find_from_is_first(s, head_mark(), 0);
    find_from_extends(s, more, head_mark(), 0);
    let i = find(s, head_mark())->0;
    skip_of_sum(s, more, i);
    skip_of_sum(s, more, i + 4);
    let head = head_of(lossy_utf8(s.take(i)));
    if head.chunked {
        chunks_are_stable(s.skip(i + 4), more);
    }
}

/// What is read of a response does not depend on the pieces in which its bytes arrive: two readers
/// that have seen so much of the same stream that they have come to an end have come to the same.
pub proof fn pieces_do_not_matter(s: Seq<u8>, i: int, j: int)
    requires
        0 <= i <= s.len(),
        0 <= j <= s.len(),
        response_of(s.take(i)) !is Incomplete,
        response_of(s.take(j)) !is Incomplete,
    ensures
        response_of(s.take(i)) == response_of(s.take(j)),
{
    response_is_stable(s.take(i), s.skip(i));
    response_is_stable(s.take(j), s.skip(j));
    assert(s.take(i) + s.skip(i) =~= s);
    assert(s.take(j) + s.skip(j) =~= s);
}

// The reader.

/// A response that has been read.
pub struct Response {
    pub status_line: String,
    /// Whether the connection may be used for another request.
    pub keep_alive: bool,
}

enum Stage {
    Head,
    Sized(usize),
    ChunkLine,
    ChunkData(usize),
    Trailers,
}

enum Turn {
    Again,
    Wait,
    Bad(String),
    Over(Response),
}

/// Reads one response while its bytes arrive.
pub struct ResponseReader {
    head: Option<Head>,
    stage: Stage,
    buf: Vec<u8>,
    seen: Ghost<Seq<u8>>,
}

/// What comes of the bytes that have arrived.
pub enum HttpStep {
    /// More bytes are needed.
    More(ResponseReader),
    /// The response is there.
    Done(Response),
    /// There will be no response.
    Failed(String),
}

spec fn stage_ending(stage: Stage, s: Seq<u8>) -> Ending {
    match stage {
        Stage::Head => Ending::Open,
        Stage::Sized(n) => if s.len() < n {
            Ending::Open
        } else {
            Ending::Closed
        },
        Stage::ChunkLine => chunks_ending(s),
        Stage::ChunkData(n) => if s.len() < n + 2 {
            Ending::Open
        } else {
            chunks_ending(s.skip(n + 2))
        },
        Stage::Trailers => trailers_ending(s),
    }
}

impl ResponseReader {
    /// Everything that has arrived on the connection so far.
    pub closed spec fn seen(&self) -> Seq<u8> {
        self.seen@
    }

    /// What is kept decides, together with what is still to come, as everything seen does.
    pub closed spec fn wf(&self) -> bool {
        &&& self.head is None <==> self.stage is Head
        &&& self.head matches Some(h) ==> (h.chunked || h.length is Some)
        &&& forall|more: Seq<u8>| #[trigger]
            response_of(self.seen@ + more) == self.outcome(more)
    }

    spec fn outcome(&self, more: Seq<u8>) -> Reception {
        match self.head {
            None => response_of(self.buf@ + more),
            Some(h) => reception(h@, stage_ending(self.stage, self.buf@ + more)),
        }
    }

    /// A reader that has seen nothing.
    pub fn new() -> (reader: ResponseReader)
        ensures
            reader.wf(),
            reader.seen() == Seq::<u8>::empty(),
    {
        ResponseReader {
            head: None,
            stage: Stage::Head,
            buf: Vec::new(),
            seen: Ghost(Seq::empty()),
        }
    }

    /// What comes of `bytes`, the next to arrive; none at all means that the peer has closed
    /// the connection.
    pub fn received(self, bytes: &[u8]) -> (step: HttpStep)
        requires
            self.wf(),
        ensures
            bytes@.len() == 0 ==> (step matches HttpStep::Failed(e) && e@ == "connection closed"@),
            bytes@.len() > 0 ==> match response_of(self.seen() + bytes@) {
                Reception::Incomplete => step matches HttpStep::More(next) && next.wf()
                    && next.seen() == self.seen() + bytes@,
                Reception::BadChunkSize(line) => step matches HttpStep::Failed(e) && e@
                    == "bad chunk size "@ + debug_form(line),
                Reception::Complete(status_line, keep_alive) => step matches HttpStep::Done(r)
                    && r.status_line@ == status_line && r.keep_alive == keep_alive,
            },
    {
        if bytes.len() == 0 {
            return HttpStep::Failed("connection closed".to_string());
        }
        let mut next = self;
        next.buf.extend_from_slice(bytes);
        next.seen = Ghost(self.seen@ + bytes@);
        assert forall|more: Seq<u8>| #[trigger]
            response_of(next.seen@ + more) == next.outcome(more) by {
            assert(next.seen@ + more =~= self.seen@ + (bytes@ + more));
            assert(next.buf@ + more =~= self.buf@ + (bytes@ + more));
            assert(response_of(self.seen@ + (bytes@ + more)) == self.outcome(bytes@ + more));
        }
        loop
            invariant
                next.wf(),
                next.seen@ == self.seen@ + bytes@,
                bytes@.len() > 0,
            decreases next.buf@.len(),
        {
            let turn = match next.stage {
                Stage::Head => next.read_head(),
                Stage::Sized(n) => next.read_sized(n),
                Stage::ChunkLine => next.read_chunk_line(),
                Stage::ChunkData(n) => next.read_chunk_data(n),
                Stage::Trailers => next.read_trailer(),
            };
            match turn {
                Turn::Again => {},
                Turn::Wait => {
                    return HttpStep::More(next);
                },
                Turn::Bad(line) => {
                    return HttpStep::Failed(
                        bad_chunk_size(debug_text(line.as_str()).as_str()),
                    );
                },
                Turn::Over(response) => {
                    return HttpStep::Done(response);
                },
            }
        }
    }

    /// What one turn of reading has left of `before`: nothing of what was seen is lost, and the
    /// turn tells what everything seen amounts to.
    spec fn after(&self, before: &ResponseReader, turn: Turn) -> bool {
        &&& self.seen@ == before.seen@
        &&& match turn {
            Turn::Again => self.wf() && self.buf@.len() < before.buf@.len(),
            Turn::Wait => self.wf() && response_of(before.seen@) is Incomplete,
            Turn::Bad(line) => response_of(before.seen@) == Reception::BadChunkSize(line@),
            Turn::Over(r) => response_of(before.seen@) == Reception::Complete(
                r.status_line@,
                r.keep_alive,
            ),
        }
    }

    proof fn now(&self)
        requires
            self.wf(),
        ensures
            response_of(self.seen@) == (match self.head {
                None => response_of(self.buf@),
                Some(h) => reception(h@, stage_ending(self.stage, self.buf@)),
            }),
    {
        assert(self.seen@ + Seq::<u8>::empty() =~= self.seen@);
        assert(self.buf@ + Seq::<u8>::empty() =~= self.buf@);
        assert(response_of(self.seen@ + Seq::<u8>::empty()) == self.outcome(Seq::empty()));
    }

    fn read_head(&mut self) -> (turn: Turn)
        requires
            old(self).wf(),
            old(self).stage is Head,
        ensures
            final(self).after(old(self), turn),
    {
        proof {
            self.now();
        }
        let blank_line: [u8; 4] = [13, 10, 13, 10];
        assert(blank_line@ =~= head_mark());
        let ghost buf = self.buf@;
        match find_bytes(&self.buf, &blank_line) {
            None => Turn::Wait,
            Some(i) => {
                let ghost head_model = head_of(lossy_utf8(buf.take(i as int)));
                proof {
                    find_from_is_first(buf, head_mark(), 0);
                    assert forall|more: Seq<u8>| #[trigger] response_of(self.seen@ + more)
                        == reception(
                        head_model,
                        body_ending(head_model, buf.skip(i + 4) + more),
                    ) by {
                        find_from_extends(buf, more, head_mark(), 0);
                        skip_of_sum(buf, more, i as int);
                        skip_of_sum(buf, more, i + 4);
                    }
                }
                let rest = self.buf.split_off(i + 4);
                assert(self.buf@.subrange(0, i as int) =~= buf.take(i as int));
                let text = utf8_lossy(slice_subrange(self.buf.as_slice(), 0, i));
                let head = parse_head(text.as_str());
                assert(rest@ =~= buf.skip(i + 4));
                self.buf = rest;
                if head.chunked {
                    self.stage = Stage::ChunkLine;
                } else {
                    match head.length {
                        Some(n) => {
                            self.stage = Stage::Sized(n);
                        },
                        None => {
                            return Turn::Over(
                                Response { status_line: head.status_line, keep_alive: false },
                            );
                        },
                    }
                }
                self.head = Some(head);
                Turn::Again
            },
        }
    }

    fn read_sized(&mut self, n: usize) -> (turn: Turn)
        requires
            old(self).wf(),
            old(self).stage == Stage::Sized(n),
        ensures
            final(self).after(old(self), turn),
    {
        proof {
            self.now();
        }
        if self.buf.len() < n {
            Turn::Wait
        } else {
            self.over()
        }
    }

    fn read_chunk_line(&mut self) -> (turn: Turn)
        requires
            old(self).wf(),
            old(self).stage is ChunkLine,
        ensures
            final(self).after(old(self), turn),
    {
        proof {
            self.now();
        }
        let line_end: [u8; 2] = [13, 10];
        assert(line_end@ =~= line_mark());
        let ghost buf = self.buf@;
        match find_bytes(&self.buf, &line_end) {
            None => Turn::Wait,
            Some(i) => {
                proof {
                    find_from_is_first(buf, line_mark(), 0);
                }
                let rest = self.buf.split_off(i + 2);
                assert(self.buf@.subrange(0, i as int) =~= buf.take(i as int));
                let line = utf8_lossy(slice_subrange(self.buf.as_slice(), 0, i));
                assert(rest@ =~= buf.skip(i + 2));
                self.buf = rest;
                match parse_chunk_size(line.as_str()) {
                    None => Turn::Bad(line),
                    Some(n) => {
                        self.stage = if n == 0 {
                            Stage::Trailers
                        } else {
                            Stage::ChunkData(n)
                        };
                        assert forall|more: Seq<u8>| #[trigger]
                            response_of(self.seen@ + more) == self.outcome(more) by {
                            find_from_extends(buf, more, line_mark(), 0);
                            skip_of_sum(buf, more, i as int);
                            skip_of_sum(buf, more, i + 2);
                        }
                        Turn::Again
                    },
                }
            },
        }
    }

    fn read_chunk_data(&mut self, n: usize) -> (turn: Turn)
        requires
            old(self).wf(),
            old(self).stage == Stage::ChunkData(n),
        ensures
            final(self).after(old(self), turn),
    {
        proof {
            self.now();
        }
        let ghost buf = self.buf@;
        if self.buf.len() < 2 || self.buf.len() - 2 < n {
            Turn::Wait
        } else {
            let rest = self.buf.split_off(n + 2);
            assert(rest@ =~= buf.skip(n + 2));
            self.buf = rest;
            self.stage = Stage::ChunkLine;
            assert forall|more: Seq<u8>| #[trigger]
                response_of(self.seen@ + more) == self.outcome(more) by {
                skip_of_sum(buf, more, n + 2);
            }
            Turn::Again
        }
    }

    fn read_trailer(&mut self) -> (turn: Turn)
        requires
            old(self).wf(),
            old(self).stage is Trailers,
        ensures
            final(self).after(old(self), turn),
    {
        proof {
            self.now();
        }
        let line_end: [u8; 2] = [13, 10];
        assert(line_end@ =~= line_mark());
        let ghost buf = self.buf@;
        match find_bytes(&self.buf, &line_end) {
            None => Turn::Wait,
            Some(i) => {
                if i == 0 {
                    return self.over();
                }
                proof {
                    find_from_is_first(buf, line_mark(), 0);
                }
                let rest = self.buf.split_off(i + 2);
                assert(rest@ =~= buf.skip(i + 2));
                self.buf = rest;
                assert forall|more: Seq<u8>| #[trigger]
                    response_of(self.seen@ + more) == self.outcome(more) by {
                    find_from_extends(buf, more, line_mark(), 0);
                    skip_of_sum(buf, more, i + 2);
                }
                Turn::Again
            },
        }
    }

    fn over(&self) -> (turn: Turn)
        requires
            self.head is Some,
        ensures
            turn matches Turn::Over(r) && r.status_line@ == self.head->0.status_line@
                && r.keep_alive == self.head->0.keep_alive,
    {
        match &self.head {
            Some(head) => Turn::Over(
                Response { status_line: head.status_line.clone(), keep_alive: head.keep_alive },
            ),
            None => Turn::Wait,
        }
    }
}

} // verus!
