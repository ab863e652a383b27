//! Responses as a server writes them: each is read to its end, and no further.
use vstd::prelude::*;
use vstd::string::*;
use vstd::utf8::*;

use crate::http::{
    body_ending, chunk_size, chunks_ending, head_mark, head_of, line_mark, response_is_stable,
    response_of, trailers_ending, Ending, Reception,
};
use crate::outside::lossy_utf8;
use crate::text::{find, find_from_extends, find_from_is_first};

verus! {

/// A chunk: its first line and its data.
pub struct Chunk {
    pub line: Seq<u8>,
    pub data: Seq<u8>,
}

/// `line` holds no line end.
pub open spec fn unbroken(line: Seq<u8>) -> bool {
    find(line, line_mark()) is None
}

/// The chunk is not empty, and its first line gives its size.
pub open spec fn sized(chunk: Chunk) -> bool {
    &&& unbroken(chunk.line)
    &&& chunk.data.len() > 0
    &&& chunk_size(lossy_utf8(chunk.line)) == Some(chunk.data.len() as int)
}

/// `line` announces that there are no more chunks.
pub open spec fn is_last(line: Seq<u8>) -> bool {
    unbroken(line) && chunk_size(lossy_utf8(line)) == Some(0int)
}

/// The trailer lines `trailers` and the empty line that ends them.
pub open spec fn trailer_section(trailers: Seq<Seq<u8>>) -> Seq<u8>
    decreases trailers.len(),
{
    if trailers.len() == 0 {
        line_mark()
    } else {
        trailers[0] + line_mark() + trailer_section(trailers.skip(1))
    }
}

/// The body in the chunks `chunks`, with the line `last` and the trailer lines `trailers` at its
/// end.
pub open spec fn chunked_body(chunks: Seq<Chunk>, last: Seq<u8>, trailers: Seq<Seq<u8>>) -> Seq<u8>
    decreases chunks.len(),
{
    if chunks.len() == 0 {
        last + line_mark() + trailer_section(trailers)
    } else {
        chunks[0].line + line_mark() + chunks[0].data + line_mark() + chunked_body(
            chunks.skip(1),
            last,
            trailers,
        )
    }
}

/// Each chunk gives its size, the last line gives none, and no trailer line is empty or broken.
pub open spec fn well_chunked(chunks: Seq<Chunk>, last: Seq<u8>, trailers: Seq<Seq<u8>>) -> bool {
    &&& forall|i: int| 0 <= i < chunks.len() ==> sized(#[trigger] chunks[i])
    &&& is_last(last)
    &&& forall|i: int|
        0 <= i < trailers.len() ==> unbroken(#[trigger] trailers[i]) && trailers[i].len() > 0
}

/// What an unbroken line never holds.
proof fn no_line_end_inside(line: Seq<u8>, j: int)
    requires
        unbroken(line),
        0 <= j < line.len() - 1,
    ensures
        line[j] != 13 || line[j + 1] != 10,
{
    find_from_is_first(line, line_mark(), 0);
    if line[j] == 13 && line[j + 1] == 10 {
        assert(line.subrange(j, j + 2) =~= line_mark());
    }
}

proof fn line_end_after(line: Seq<u8>, rest: Seq<u8>)
    requires
        unbroken(line),
    ensures
        find(line + line_mark() + rest, line_mark()) == Some(line.len() as int),
{
    let s = line + line_mark() + rest;
    let n = line.len() as int;
    assert(s.subrange(n, n + line_mark().len()) =~= line_mark());
    find_from_is_first(s, line_mark(), 0);
    let at = find(s, line_mark())->0;
    assert(at <= n);
    if at < n {
        let here = s.subrange(at, at + 2);
        assert(here[0] == s[at] && here[1] == s[at + 1]);
        assert(s[n] == 13);
        no_line_end_inside(line, at);
    }
}

proof fn not_found_early<T>(s: Seq<T>, pat: Seq<T>, k: int)
    requires
        0 <= k <= s.len(),
        find(s, pat) matches Some(i) && k < i + pat.len(),
    ensures
        find(s.take(k), pat) is None,
{
    find_from_is_first(s, pat, 0);
    find_from_is_first(s.take(k), pat, 0);
    if let Some(j) = find(s.take(k), pat) {
        assert(s.take(k).subrange(j, j + pat.len()) =~= s.subrange(j, j + pat.len()));
    }
}

proof fn found_in_prefix<T>(s: Seq<T>, pat: Seq<T>, k: int)
    requires
        0 <= k <= s.len(),
        find(s, pat) matches Some(i) && i + pat.len() <= k,
    ensures
        find(s.take(k), pat) == find(s, pat),
{
    find_from_is_first(s, pat, 0);
    find_from_is_first(s.take(k), pat, 0);
    let i = find(s, pat)->0;
    assert(s.take(k).subrange(i, i + pat.len()) =~= s.subrange(i, i + pat.len()));
    let j = find(s.take(k), pat)->0;
    assert(s.take(k).subrange(j, j + pat.len()) =~= s.subrange(j, j + pat.len()));
}

proof fn trailers_end(trailers: Seq<Seq<u8>>, k: int)
    requires
        forall|i: int|
            0 <= i < trailers.len() ==> unbroken(#[trigger] trailers[i]) && trailers[i].len() > 0,
        0 <= k <= trailer_section(trailers).len(),
    ensures
        trailers_ending(trailer_section(trailers).take(k)) == (if k < trailer_section(
            trailers,
        ).len() {
            Ending::Open
        } else {
            Ending::Closed
        }),
    decreases trailers.len(),
{
    let s = trailer_section(trailers);
    let line = if trailers.len() == 0 {
        Seq::<u8>::empty()
    } else {
        trailers[0]
    };
    let rest = if trailers.len() == 0 {
        Seq::<u8>::empty()
    } else {
        trailer_section(trailers.skip(1))
    };
    assert(unbroken(line));
    assert(s =~= line + line_mark() + rest);
    line_end_after(line, rest);
    let i = line.len() as int;
    if k < i + 2 {
        not_found_early(s, line_mark(), k);
    } else {
        found_in_prefix(s, line_mark(), k);
        if trailers.len() > 0 {
            assert(s.take(k).skip(i + 2) =~= rest.take(k - i - 2));
            trailers_end(trailers.skip(1), k - i - 2);
        }
    }
}

proof fn chunks_end(chunks: Seq<Chunk>, last: Seq<u8>, trailers: Seq<Seq<u8>>, k: int)
    requires
        well_chunked(chunks, last, trailers),
        0 <= k <= chunked_body(chunks, last, trailers).len(),
    ensures
        chunks_ending(chunked_body(chunks, last, trailers).take(k)) == (if k < chunked_body(
            chunks,
            last,
            trailers,
        ).len() {
            Ending::Open
        } else {
            Ending::Closed
        }),
    decreases chunks.len(),
{
    let s = chunked_body(chunks, last, trailers);
    let line = if chunks.len() == 0 {
        last
    } else {
        chunks[0].line
    };
    let rest = if chunks.len() == 0 {
        trailer_section(trailers)
    } else {
        chunks[0].data + line_mark() + chunked_body(chunks.skip(1), last, trailers)
    };
    assert(chunks.len() > 0 ==> sized(chunks[0]));
    assert(s =~= line + line_mark() + rest);
    line_end_after(line, rest);
    let i = line.len() as int;
    if k < i + 2 {
        not_found_early(s, line_mark(), k);
    } else {
        found_in_prefix(s, line_mark(), k);
        assert(s.take(k).take(i) =~= line);
        assert(s.take(k).skip(i + 2) =~= rest.take(k - i - 2));
        if chunks.len() == 0 {
            trailers_end(trailers, k - i - 2);
        } else {
            let n = chunks[0].data.len() as int;
            let others = chunked_body(chunks.skip(1), last, trailers);
            if k - i - 2 >= n + 2 {
                assert(rest.take(k - i - 2).skip(n + 2) =~= others.take(k - i - 2 - n - 2));
                chunks_end(chunks.skip(1), last, trailers, k - i - 2 - n - 2);
            }
        }
    }
}

/// The response with the head `head` and the body `body` in its stream of bytes.
pub open spec fn response_bytes(head: Seq<u8>, body: Seq<u8>) -> Seq<u8> {
    head + head_mark() + body
}

/// The bytes `head` are a head: the blank line after them is the first one.
pub open spec fn is_head(head: Seq<u8>) -> bool {
    find(head + head_mark(), head_mark()) == Some(head.len() as int)
}

/// The response in `stream` is read to its end and no further: it is complete with these results,
/// whatever follows it, and it is not complete before its last byte has arrived.
pub open spec fn ends_exactly(stream: Seq<u8>, status_line: Seq<char>, keep_alive: bool) -> bool {
    &&& forall|more: Seq<u8>| #[trigger]
        response_of(stream + more) == Reception::Complete(status_line, keep_alive)
    &&& forall|k: int|
        0 <= k < stream.len() ==> #[trigger] response_of(stream.take(k)) is Incomplete
}

proof fn response_ends(head: Seq<u8>, body: Seq<u8>)
    requires
        is_head(head),
        ({
            let h = head_of(lossy_utf8(head));
            &&& h.chunked || h.length is Some
            &&& body_ending(h, body) is Closed
            &&& forall|k: int|
                0 <= k < body.len() ==> #[trigger] body_ending(h, body.take(k)) is Open
        }),
    ensures
        ({
            let h = head_of(lossy_utf8(head));
            ends_exactly(response_bytes(head, body), h.status_line, h.keep_alive)
        }),
{
    let h = head_of(lossy_utf8(head));
    let s = response_bytes(head, body);
    let n = head.len() as int;
    find_from_extends(head + head_mark(), body, head_mark(), 0);
    assert(s.take(n) =~= head);
    assert(s.skip(n + 4) =~= body);
    assert forall|more: Seq<u8>| #[trigger]
        response_of(s + more) == Reception::Complete(h.status_line, h.keep_alive) by {
        response_is_stable(s, more);
    }
    assert forall|k: int| 0 <= k < s.len() implies #[trigger] response_of(
        s.take(k),
    ) is Incomplete by {
        if k < n + 4 {
            not_found_early(s, head_mark(), k);
        } else {
            found_in_prefix(s, head_mark(), k);
            assert(s.take(k).take(n) =~= head);
            assert(s.take(k).skip(n + 4) =~= body.take(k - n - 4));
            assert(body_ending(h, body.take(k - n - 4)) is Open);
        }
    }
}

/// A response whose head gives the length of its body is read to its end and no further.
pub proof fn sized_response_is_read_whole(head: Seq<u8>, body: Seq<u8>)
    requires
        is_head(head),
        !head_of(lossy_utf8(head)).chunked,
        head_of(lossy_utf8(head)).length == Some(body.len() as int),
    ensures
        ({
            let h = head_of(lossy_utf8(head));
            ends_exactly(response_bytes(head, body), h.status_line, h.keep_alive)
        }),
{
    response_ends(head, body);
}

/// A response whose body comes in chunks is read to its end and no further, whatever line ends
/// its data holds.
pub proof fn chunked_response_is_read_whole(
    head: Seq<u8>,
    chunks: Seq<Chunk>,
    last: Seq<u8>,
    trailers: Seq<Seq<u8>>,
)
    requires
        is_head(head),
        head_of(lossy_utf8(head)).chunked,
        well_chunked(chunks, last, trailers),
    ensures
        ({
            let h = head_of(lossy_utf8(head));
            ends_exactly(
                response_bytes(head, chunked_body(chunks, last, trailers)),
                h.status_line,
                h.keep_alive,
            )
        }),
{
    let h = head_of(lossy_utf8(head));
    let body = chunked_body(chunks, last, trailers);
    chunks_end(chunks, last, trailers, body.len() as int);
    assert(body.take(body.len() as int) =~= body);
    assert forall|k: int| 0 <= k < body.len() implies #[trigger] body_ending(
        h,
        body.take(k),
    ) is Open by {
        chunks_end(chunks, last, trailers, k);
    }
    response_ends(head, body);
}

/// A response whose head tells nothing of its body ends with its head, and its connection is not
/// used again.
pub proof fn unsized_response_ends_with_its_head(head: Seq<u8>)
    requires
        is_head(head),
        !head_of(lossy_utf8(head)).chunked,
        head_of(lossy_utf8(head)).length is None,
    ensures
        ends_exactly(
            response_bytes(head, seq![]),
            head_of(lossy_utf8(head)).status_line,
            false,
        ),
{
    let h = head_of(lossy_utf8(head));
    let s = response_bytes(head, seq![]);
    let n = head.len() as int;
    assert(s =~= head + head_mark());
    assert(s.take(n) =~= head);
    assert forall|more: Seq<u8>| #[trigger]
        response_of(s + more) == Reception::Complete(h.status_line, false) by {
        response_is_stable(s, more);
    }
    assert forall|k: int| 0 <= k < s.len() implies #[trigger] response_of(
        s.take(k),
    ) is Incomplete by {
        not_found_early(s, head_mark(), k);
    }
}

proof fn bad_chunk_ends(chunks: Seq<Chunk>, line: Seq<u8>, rest: Seq<u8>)
    requires
        forall|i: int| 0 <= i < chunks.len() ==> sized(#[trigger] chunks[i]),
        unbroken(line),
        chunk_size(lossy_utf8(line)) is None,
    ensures
        chunks_ending(chunks_then(chunks, line + line_mark() + rest)) == Ending::BadSize(
            lossy_utf8(line),
        ),
    decreases chunks.len(),
{
    let s = chunks_then(chunks, line + line_mark() + rest);
    if chunks.len() == 0 {
        line_end_after(line, rest);
        assert(s.take(line.len() as int) =~= line);
    } else {
        let chunk = chunks[0];
        let others = chunks_then(chunks.skip(1), line + line_mark() + rest);
        assert(sized(chunk));
        assert(s =~= chunk.line + line_mark() + chunk.data + line_mark() + others);
        chunk_is_passed_over(chunk, line_mark(), others);
        bad_chunk_ends(chunks.skip(1), line, rest);
    }
}

/// The chunks `chunks` followed by `rest`.
pub open spec fn chunks_then(chunks: Seq<Chunk>, rest: Seq<u8>) -> Seq<u8>
    decreases chunks.len(),
{
    if chunks.len() == 0 {
        rest
    } else {
        chunks[0].line + line_mark() + chunks[0].data + line_mark() + chunks_then(
            chunks.skip(1),
            rest,
        )
    }
}

/// After a chunk's data two bytes are passed over, whatever they are: how far the body has come
/// depends on what follows them.
pub proof fn chunk_is_passed_over(chunk: Chunk, end: Seq<u8>, rest: Seq<u8>)
    requires
        sized(chunk),
        end.len() == 2,
    ensures
        chunks_ending(chunk.line + line_mark() + chunk.data + end + rest) == chunks_ending(rest),
{
    let s = chunk.line + line_mark() + chunk.data + end + rest;
    let after = chunk.data + end + rest;
    let i = chunk.line.len() as int;
    let n = chunk.data.len() as int;
    assert(s =~= chunk.line + line_mark() + after);
    line_end_after(chunk.line, after);
    assert(s.take(i) =~= chunk.line);
    assert(s.skip(i + 2) =~= after);
    assert(after.skip(n + 2) =~= rest);
}

/// A chunked body in which a line gives no size is refused with that line, whatever stands before
/// it in chunks and whatever follows it.
pub proof fn bad_chunk_size_is_refused(
    head: Seq<u8>,
    chunks: Seq<Chunk>,
    line: Seq<u8>,
    rest: Seq<u8>,
)
    requires
        is_head(head),
        head_of(lossy_utf8(head)).chunked,
        forall|i: int| 0 <= i < chunks.len() ==> sized(#[trigger] chunks[i]),
        unbroken(line),
        chunk_size(lossy_utf8(line)) is None,
    ensures
        response_of(response_bytes(head, chunks_then(chunks, line + line_mark() + rest)))
            == Reception::BadChunkSize(lossy_utf8(line)),
{
    let body = chunks_then(chunks, line + line_mark() + rest);
    let s = response_bytes(head, body);
    let n = head.len() as int;
    find_from_extends(head + head_mark(), body, head_mark(), 0);
    assert(s.take(n) =~= head);
    assert(s.skip(n + 4) =~= body);
    bad_chunk_ends(chunks, line, rest);
}

/// Lines end as everywhere on the network, and a blank line is a line end after another one.
pub proof fn line_ends_on_the_wire()
    ensures
        line_mark() == encode_utf8("\r\n"@),
        head_mark() == line_mark() + line_mark(),
{
    reveal_strlit("\r\n");
    is_ascii_chars_encode_utf8("\r\n"@);
    assert("\r\n"@[0] as u8 == 13);
    assert("\r\n"@[1] as u8 == 10);
    assert(encode_utf8("\r\n"@) =~= line_mark());
    assert(head_mark() =~= line_mark() + line_mark());
}

} // verus!
