//! Reading generated text that arrives as a stream of JSON objects.

use vstd::prelude::*;
use vstd::utf8::{
    decode_first_scalar, decode_utf8, pop_first_scalar, valid_utf8, valid_utf8_concat,
};

use crate::outside::utf8_to_str;
use crate::protocol::{detail_in, Effect, EffectView, Next, NextView, Reply, ReplyView};
use crate::text::{cut_after, first_position, first_position_is_first, first_position_unique};
use crate::types::ApiResponseView;

verus! {

/// What came of a stream: the text, or what went wrong.
#[derive(Debug)]
pub struct Streamed {
    pub text: Result<String, String>,
}

impl View for Streamed {
    type V = Result<Seq<char>, Seq<char>>;

    open spec fn view(&self) -> Result<Seq<char>, Seq<char>> {
        match self.text {
            Ok(t) => Ok(t@),
            Err(e) => Err(e@),
        }
    }
}

/// A stream being read: characters that are not part of an object yet, the text so far, and
/// whether an object is out to be parsed.
#[derive(Debug)]
pub struct StreamRun {
    pub buffer: String,
    pub total: String,
    pub parsing: bool,
}

pub struct StreamView {
    pub buffer: Seq<char>,
    pub total: Seq<char>,
    pub parsing: bool,
}

impl View for StreamRun {
    type V = StreamView;

    open spec fn view(&self) -> StreamView {
        StreamView { buffer: self.buffer@, total: self.total@, parsing: self.parsing }
    }
}

/// The text of a chunk: nothing where its bytes are not UTF-8 by themselves.
pub open spec fn chunk_text(bytes: Seq<u8>) -> Seq<char> {
    if valid_utf8(bytes) {
        decode_utf8(bytes)
    } else {
        Seq::empty()
    }
}

/// A stream with what it asks for: the object up to the first closing brace, or more.
pub open spec fn stream_ask<N>(buffer: Seq<char>, total: Seq<char>) -> NextView<
    StreamView,
    N,
    Result<Seq<char>, Seq<char>>,
> {
    let at = first_position(buffer, '}') as int;
    if at < buffer.len() {
        NextView::Ask(
            StreamView { buffer: buffer.skip(at + 1), total, parsing: true },
            EffectView::DecodeResponse(buffer.take(at + 1)),
        )
    } else {
        NextView::Ask(StreamView { buffer, total, parsing: false }, EffectView::NextChunk)
    }
}

/// The start of a stream: it is read only where the answer says success.
pub open spec fn stream_start<N>(success: bool, line: Seq<char>) -> NextView<
    StreamView,
    N,
    Result<Seq<char>, Seq<char>>,
> {
    if success {
        stream_ask(Seq::empty(), Seq::empty())
    } else {
        NextView::Finish(Err("Failed to get a valid response. Status: "@ + line))
    }
}

/// A stream after a chunk or a parsed object.
pub open spec fn stream_next<N>(s: StreamView, r: ReplyView<N>) -> NextView<
    StreamView,
    N,
    Result<Seq<char>, Seq<char>>,
> {
    if s.parsing {
        match r {
            ReplyView::Response(v) => stream_ask(s.buffer, s.total + v.response),
            _ => NextView::Finish(Err("Failed to deserialize chunk: "@ + detail_in(r))),
        }
    } else {
        match r {
            ReplyView::Chunk(b) => stream_ask(s.buffer + chunk_text(b), s.total),
            ReplyView::End => NextView::Finish(Ok(s.total)),
            _ => NextView::Finish(Err("Error while streaming: "@ + detail_in(r))),
        }
    }
}

/// Decodes a chunk.
fn chunk_str(bytes: &Vec<u8>) -> (r: &str)
    ensures
        r@ == chunk_text(bytes@),
{
    match utf8_to_str(bytes.as_slice()) {
        Some(s) => s,
        None => {
            proof {
                reveal_strlit("");
                assert(""@ =~= Seq::<char>::empty());
            }
            ""
        },
    }
}

/// Asks for the next object, or for more.
fn ask<N>(buffer: String, total: String) -> (r: Next<StreamRun, N, Streamed>)
    ensures
        r@ == stream_ask::<N>(buffer@, total@),
{
    match cut_after(buffer.as_str(), '}') {
        (Some(piece), rest) => Next::Ask(
            StreamRun { buffer: rest, total, parsing: true },
            Effect::DecodeResponse(piece),
        ),
        (None, rest) => Next::Ask(
            StreamRun { buffer: rest, total, parsing: false },
            Effect::NextChunk,
        ),
    }
}

/// Starts to read the answer of a server, whose status line is given.
pub fn process_stream<N>(success: bool, line: String) -> (r: Next<StreamRun, N, Streamed>)
    ensures
        r@ == stream_start::<N>(success, line@),
{
    if success {
        ask(String::new(), String::new())
    } else {
        let e = "Failed to get a valid response. Status: ".to_owned().concat(line.as_str());
        Next::Finish(Streamed { text: Err(e) })
    }
}

impl StreamRun {
    /// Goes on with a chunk or a parsed object.
    pub fn step<N>(self, reply: Reply<N>) -> (r: Next<StreamRun, N, Streamed>)
        ensures
            r@ == stream_next(self@, reply@),
    {
        if self.parsing {
            match reply {
                Reply::Response(v) => {
                    let total = self.total.concat(v.response.as_str());
                    ask(self.buffer, total)
                },
                other => {
                    let why = other.detail();
                    let e = "Failed to deserialize chunk: ".to_owned().concat(why.as_str());
                    Next::Finish(Streamed { text: Err(e) })
                },
            }
        } else {
            match reply {
                Reply::Chunk(b) => {
                    let buffer = self.buffer.concat(chunk_str(&b));
                    ask(buffer, self.total)
                },
                Reply::End => Next::Finish(Streamed { text: Ok(self.total) }),
                other => {
                    let why = other.detail();
                    let e = "Error while streaming: ".to_owned().concat(why.as_str());
                    Next::Finish(Streamed { text: Err(e) })
                },
            }
        }
    }
}

/// A text cut behind every closing brace; what follows the last one is left out.
pub open spec fn objects(s: Seq<char>) -> Seq<Seq<char>>
    decreases s.len(),
{
    let at = first_position(s, '}') as int;
    if at < s.len() {
        seq![s.take(at + 1)] + objects(s.skip(at + 1))
    } else {
        Seq::empty()
    }
}

/// What parsing answers for an object.
pub open spec fn parsed<N>(
    parse: spec_fn(Seq<char>) -> Result<ApiResponseView, Seq<char>>,
    object: Seq<char>,
) -> ReplyView<N> {
    match parse(object) {
        Ok(v) => ReplyView::Response(v),
        Err(e) => ReplyView::Failed(e),
    }
}

/// The texts of some objects joined to `total`, or the fault of the first that does not parse.
pub open spec fn joined(
    objects: Seq<Seq<char>>,
    parse: spec_fn(Seq<char>) -> Result<ApiResponseView, Seq<char>>,
    total: Seq<char>,
) -> Result<Seq<char>, Seq<char>>
    decreases objects.len(),
{
    if objects.len() == 0 {
        Ok(total)
    } else {
        match parse(objects[0]) {
            Ok(v) => joined(objects.skip(1), parse, total + v.response),
            Err(e) => Err("Failed to deserialize chunk: "@ + e),
        }
    }
}

/// The text of some chunks.
pub open spec fn chunks_text(chunks: Seq<Seq<u8>>) -> Seq<char>
    decreases chunks.len(),
{
    if chunks.len() == 0 {
        Seq::empty()
    } else {
        chunk_text(chunks[0]) + chunks_text(chunks.skip(1))
    }
}

/// What a stream comes to that is given `chunks` and then its end, where objects parse as
/// `parse` says.
pub open spec fn stream_result<N>(
    n: NextView<StreamView, N, Result<Seq<char>, Seq<char>>>,
    chunks: Seq<Seq<u8>>,
    parse: spec_fn(Seq<char>) -> Result<ApiResponseView, Seq<char>>,
) -> Option<Result<Seq<char>, Seq<char>>>
    decreases
            chunks.len(),
            (match n {
                NextView::Ask(s, _) => if s.parsing {
                    s.buffer.len() + 1
                } else {
                    0
                },
                _ => 0,
            }),
{
    match n {
        NextView::Finish(r) => Some(r),
        NextView::Ask(s, EffectView::DecodeResponse(object)) if s.parsing => stream_result(
            stream_next(s, parsed::<N>(parse, object)),
            chunks,
            parse,
        ),
        NextView::Ask(s, EffectView::NextChunk) if !s.parsing => if chunks.len() == 0 {
            match stream_next::<N>(s, ReplyView::End) {
                NextView::Finish(r) => Some(r),
                _ => None,
            }
        } else {
            stream_result(stream_next(s, ReplyView::<N>::Chunk(chunks[0])), chunks.skip(1), parse)
        },
        _ => None,
    }
}

/// What a stream comes to that gets some replies, one after the other; nothing where they do not
/// take it to its end.
pub open spec fn stream_after<N>(
    n: NextView<StreamView, N, Result<Seq<char>, Seq<char>>>,
    replies: Seq<ReplyView<N>>,
) -> Option<Result<Seq<char>, Seq<char>>>
    decreases replies.len(),
{
    match n {
        NextView::Finish(r) => Some(r),
        NextView::Ask(s, _) => if replies.len() == 0 {
            None
        } else {
            stream_after(stream_next(s, replies[0]), replies.skip(1))
        },
        NextView::Halt(_) => None,
    }
}

/// The first closing brace stays where it is when text is added behind it.
proof fn lemma_first_brace(a: Seq<char>, b: Seq<char>)
    requires
        first_position(a, '}') < a.len(),
    ensures
        first_position(a + b, '}') == first_position(a, '}'),
{
    first_position_is_first(a, '}');
    first_position_unique(a + b, '}', first_position(a, '}') as int);
}

proof fn lemma_stream_result<N>(
    buffer: Seq<char>,
    total: Seq<char>,
    chunks: Seq<Seq<u8>>,
    parse: spec_fn(Seq<char>) -> Result<ApiResponseView, Seq<char>>,
)
    ensures
        stream_result::<N>(stream_ask::<N>(buffer, total), chunks, parse) == Some(
            joined(objects(buffer + chunks_text(chunks)), parse, total),
        ),
    decreases chunks.len(), buffer.len(),
{
    let rest = chunks_text(chunks);
    let at = first_position(buffer, '}') as int;
    let whole = buffer + rest;
    first_position_is_first(buffer, '}');
    if at < buffer.len() {
        let object = buffer.take(at + 1);
        let left = buffer.skip(at + 1);
        lemma_first_brace(buffer, rest);
        assert(whole.take(at + 1) =~= object);
        assert(whole.skip(at + 1) =~= left + rest);
        assert(objects(whole) == seq![object] + objects(left + rest));
        assert(objects(whole)[0] == object);
        assert(objects(whole).skip(1) =~= objects(left + rest));
        match parse(object) {
            Ok(v) => {
                lemma_stream_result::<N>(left, total + v.response, chunks, parse);
            },
            Err(e) => {
                let end = NextView::<StreamView, N, Result<Seq<char>, Seq<char>>>::Finish(
                    Err("Failed to deserialize chunk: "@ + e),
                );
                assert(stream_result::<N>(end, chunks, parse) == Some(
                    Err::<Seq<char>, Seq<char>>("Failed to deserialize chunk: "@ + e),
                ));
            },
        }
    } else if chunks.len() == 0 {
        assert(whole =~= buffer);
    } else {
        let more = buffer + chunk_text(chunks[0]);
        lemma_stream_result::<N>(more, total, chunks.skip(1), parse);
        assert(more + chunks_text(chunks.skip(1)) =~= whole);
    }
}

/// What a stream comes to depends on the text of all its chunks alone: the objects in it, in
/// order, give their texts joined, or the fault of the first that does not parse. Text behind
/// the last object is dropped.
pub proof fn streams_join_objects<N>(
    chunks: Seq<Seq<u8>>,
    parse: spec_fn(Seq<char>) -> Result<ApiResponseView, Seq<char>>,
)
    ensures
        stream_result::<N>(stream_start::<N>(true, Seq::empty()), chunks, parse) == Some(
            joined(objects(chunks_text(chunks)), parse, Seq::empty()),
        ),
{
    lemma_stream_result::<N>(Seq::empty(), Seq::empty(), chunks, parse);
    assert(Seq::<char>::empty() + chunks_text(chunks) =~= chunks_text(chunks));
}

/// The bytes of some chunks, one behind the other.
pub open spec fn all_bytes(chunks: Seq<Seq<u8>>) -> Seq<u8>
    decreases chunks.len(),
{
    if chunks.len() == 0 {
        Seq::empty()
    } else {
        chunks[0] + all_bytes(chunks.skip(1))
    }
}

/// Whether no chunk ends inside a character: each is UTF-8 by itself.
pub open spec fn whole_characters(chunks: Seq<Seq<u8>>) -> bool {
    forall|i: int| 0 <= i < chunks.len() ==> valid_utf8(#[trigger] chunks[i])
}

/// Two pieces of UTF-8 behind one another hold the characters of the one and then of the other.
proof fn lemma_decode_concat(a: Seq<u8>, b: Seq<u8>)
    requires
        valid_utf8(a),
        valid_utf8(b),
    ensures
        valid_utf8(a + b),
        decode_utf8(a + b) == decode_utf8(a) + decode_utf8(b),
    decreases a.len(),
{
    valid_utf8_concat(a, b);
    if a.len() == 0 {
        assert(a + b =~= b);
        assert(decode_utf8(a) =~= Seq::<char>::empty());
        assert(decode_utf8(a) + decode_utf8(b) =~= decode_utf8(b));
    } else {
        let rest = pop_first_scalar(a);
        assert(pop_first_scalar(a + b) =~= rest + b);
        lemma_decode_concat(rest, b);
        assert(decode_first_scalar(a + b) == decode_first_scalar(a));
        assert(decode_utf8(a + b) =~= decode_utf8(a) + decode_utf8(b));
    }
}

/// The text of chunks that do not end inside a character is that of all their bytes.
proof fn lemma_chunks_text(chunks: Seq<Seq<u8>>)
    requires
        whole_characters(chunks),
    ensures
        valid_utf8(all_bytes(chunks)),
        chunks_text(chunks) == decode_utf8(all_bytes(chunks)),
    decreases chunks.len(),
{
    if chunks.len() > 0 {
        let rest = chunks.skip(1);
        assert forall|i: int| 0 <= i < rest.len() implies valid_utf8(#[trigger] rest[i]) by {
            assert(rest[i] == chunks[i + 1]);
        }
        lemma_chunks_text(rest);
        lemma_decode_concat(chunks[0], all_bytes(rest));
    } else {
        assert(decode_utf8(all_bytes(chunks)) =~= Seq::<char>::empty());
    }
}

/// How the bytes of a stream are cut into chunks does not matter, as long as no chunk ends inside
/// a character.
pub proof fn chunking_is_immaterial<N>(
    a: Seq<Seq<u8>>,
    b: Seq<Seq<u8>>,
    parse: spec_fn(Seq<char>) -> Result<ApiResponseView, Seq<char>>,
)
    requires
        all_bytes(a) == all_bytes(b),
        whole_characters(a),
        whole_characters(b),
    ensures
        stream_result::<N>(stream_start::<N>(true, Seq::empty()), a, parse) == stream_result::<N>(
            stream_start::<N>(true, Seq::empty()),
            b,
            parse,
        ),
{
    lemma_chunks_text(a);
    lemma_chunks_text(b);
    streams_join_objects::<N>(a, parse);
    streams_join_objects::<N>(b, parse);
}

/// Whether `pieces` and `tail` are a text cut behind every closing brace: put together they are the
/// text, each piece ends with its only brace, and there is none in the tail.
pub open spec fn is_cut(text: Seq<char>, pieces: Seq<Seq<char>>, tail: Seq<char>) -> bool {
    &&& pieces.flatten() + tail == text
    &&& forall|i: int|
        0 <= i < pieces.len() ==> (#[trigger] pieces[i]).len() > 0 && pieces[i].last() == '}'
            && forall|j: int| 0 <= j < pieces[i].len() - 1 ==> pieces[i][j] != '}'
    &&& forall|j: int| 0 <= j < tail.len() ==> tail[j] != '}'
}

proof fn lemma_objects_cut(s: Seq<char>) -> (tail: Seq<char>)
    ensures
        is_cut(s, objects(s), tail),
    decreases s.len(),
{
    let at = first_position(s, '}') as int;
    first_position_is_first(s, '}');
    if at < s.len() {
        let head = s.take(at + 1);
        let rest = s.skip(at + 1);
        let tail = lemma_objects_cut(rest);
        let pieces = objects(s);
        assert(pieces.drop_first() =~= objects(rest));
        assert(pieces.first() == head);
        assert(pieces.flatten() + tail =~= head + (objects(rest).flatten() + tail));
        assert(head + rest =~= s);
        assert forall|i: int| 0 <= i < pieces.len() implies (#[trigger] pieces[i]).len() > 0
            && pieces[i].last() == '}' && forall|j: int|
            0 <= j < pieces[i].len() - 1 ==> pieces[i][j] != '}' by {
            if i > 0 {
                assert(pieces[i] == objects(rest)[i - 1]);
            }
        }
        tail
    } else {
        assert(objects(s).flatten() + s =~= s);
        s
    }
}

proof fn lemma_joined(
    pieces: Seq<Seq<char>>,
    parse: spec_fn(Seq<char>) -> Result<ApiResponseView, Seq<char>>,
    total: Seq<char>,
)
    requires
        forall|i: int| 0 <= i < pieces.len() ==> parse(#[trigger] pieces[i]) is Ok,
    ensures
        joined(pieces, parse, total) == Ok::<_, Seq<char>>(
            total + pieces.map_values(|p: Seq<char>| parse(p)->Ok_0.response).flatten(),
        ),
    decreases pieces.len(),
{
    let text = |p: Seq<char>| parse(p)->Ok_0.response;
    if pieces.len() > 0 {
        let rest = pieces.skip(1);
        let v = parse(pieces[0])->Ok_0;
        assert forall|i: int| 0 <= i < rest.len() implies parse(#[trigger] rest[i]) is Ok by {
            assert(rest[i] == pieces[i + 1]);
        }
        lemma_joined(rest, parse, total + v.response);
        let all = pieces.map_values(text);
        assert(all.drop_first() =~= rest.map_values(text));
        assert(all.first() == v.response);
        assert(total + all.flatten() =~= total + v.response + rest.map_values(text).flatten());
    } else {
        assert(total + pieces.map_values(text).flatten() =~= total);
    }
}

proof fn lemma_join_stops(
    pieces: Seq<Seq<char>>,
    parse: spec_fn(Seq<char>) -> Result<ApiResponseView, Seq<char>>,
    total: Seq<char>,
    i: int,
)
    requires
        0 <= i < pieces.len(),
        forall|j: int| 0 <= j < i ==> parse(#[trigger] pieces[j]) is Ok,
        parse(pieces[i]) is Err,
    ensures
        joined(pieces, parse, total) == Err::<Seq<char>, _>(
            "Failed to deserialize chunk: "@ + parse(pieces[i])->Err_0,
        ),
    decreases i,
{
    if i > 0 {
        let rest = pieces.skip(1);
        assert(parse(pieces[0]) is Ok);
        assert forall|j: int| 0 <= j < i - 1 implies parse(#[trigger] rest[j]) is Ok by {
            assert(rest[j] == pieces[j + 1]);
        }
        lemma_join_stops(rest, parse, total + parse(pieces[0])->Ok_0.response, i - 1);
    }
}

/// A stream that is UTF-8 chunk by chunk comes to the texts of all its objects, whole and in order:
/// the objects are what its characters are cut into behind every closing brace. Where an object
/// does not parse, the first such gives the fault.
pub proof fn streams_lose_nothing<N>(
    chunks: Seq<Seq<u8>>,
    parse: spec_fn(Seq<char>) -> Result<ApiResponseView, Seq<char>>,
    line: Seq<char>,
)
    requires
        forall|i: int| 0 <= i < chunks.len() ==> valid_utf8(#[trigger] chunks[i]),
    ensures
        valid_utf8(chunks.flatten()),
        exists|pieces: Seq<Seq<char>>, tail: Seq<char>|
            {
                let result = stream_result::<N>(stream_start::<N>(true, line), chunks, parse);
                &&& #[trigger] is_cut(decode_utf8(chunks.flatten()), pieces, tail)
                &&& (forall|i: int| 0 <= i < pieces.len() ==> parse(#[trigger] pieces[i]) is Ok)
                    ==> result == Some(
                    Ok::<_, Seq<char>>(
                        pieces.map_values(|p: Seq<char>| parse(p)->Ok_0.response).flatten(),
                    ),
                )
                &&& forall|i: int|
                    0 <= i < pieces.len() && parse(#[trigger] pieces[i]) is Err && (forall|j: int|
                        0 <= j < i ==> parse(#[trigger] pieces[j]) is Ok) ==> result == Some(
                        Err::<Seq<char>, _>(
                            "Failed to deserialize chunk: "@ + parse(pieces[i])->Err_0,
                        ),
                    )
            },
{
    lemma_chunks_text(chunks);
    lemma_all_bytes(chunks);
    streams_join_objects::<N>(chunks, parse);
    let text = chunks_text(chunks);
    let pieces = objects(text);
    let tail = lemma_objects_cut(text);
    assert(is_cut(decode_utf8(chunks.flatten()), pieces, tail));
    assert(stream_start::<N>(true, line) == stream_start::<N>(true, Seq::empty()));
    if forall|i: int| 0 <= i < pieces.len() ==> parse(#[trigger] pieces[i]) is Ok {
        lemma_joined(pieces, parse, Seq::empty());
        let whole = pieces.map_values(|p: Seq<char>| parse(p)->Ok_0.response).flatten();
        assert(Seq::<char>::empty() + whole =~= whole);
    }
    assert forall|i: int|
        0 <= i < pieces.len() && parse(#[trigger] pieces[i]) is Err && (forall|j: int|
            0 <= j < i ==> parse(#[trigger] pieces[j]) is Ok) implies stream_result::<N>(
        stream_start::<N>(true, line),
        chunks,
        parse,
    ) == Some(
        Err::<Seq<char>, _>("Failed to deserialize chunk: "@ + parse(pieces[i])->Err_0),
    ) by {
        lemma_join_stops(pieces, parse, Seq::empty(), i);
    }
}

proof fn lemma_all_bytes(chunks: Seq<Seq<u8>>)
    ensures
        all_bytes(chunks) == chunks.flatten(),
    decreases chunks.len(),
{
    if chunks.len() > 0 {
        lemma_all_bytes(chunks.skip(1));
        assert(chunks.drop_first() =~= chunks.skip(1));
    }
}

/// One step of a stream: a chunk that is UTF-8 is added to what is left over, any other adds
/// nothing; the text of a parsed object is added to the text; the end of the stream gives the text
/// so far; and any other reply a fault that says why. What is out to be parsed and what is left
/// over then are what there was before, cut behind the first closing brace.
pub proof fn streams_go_on_with_all_they_have<N>(s: StreamView, r: ReplyView<N>)
    ensures
        ({
            let text = if s.parsing {
                s.buffer
            } else if r is Chunk && valid_utf8(r->Chunk_0) {
                s.buffer + decode_utf8(r->Chunk_0)
            } else {
                s.buffer
            };
            let total = if s.parsing && r is Response {
                s.total + r->Response_0.response
            } else {
                s.total
            };
            let why = match r {
                ReplyView::Failed(x) => x,
                ReplyView::Refused(x) => x,
                _ => Seq::empty(),
            };
            &&& (if s.parsing { r is Response } else { r is Chunk }) ==> (stream_next(s, r) matches
            NextView::Ask(t, e) && t.total == total && {
                ||| {
                    &&& t.parsing
                    &&& e matches EffectView::DecodeResponse(object)
                    &&& object + t.buffer == text
                    &&& object.len() > 0
                    &&& object.last() == '}'
                    &&& forall|j: int| 0 <= j < object.len() - 1 ==> object[j] != '}'
                }
                ||| {
                    &&& !t.parsing
                    &&& e is NextChunk
                    &&& t.buffer == text
                    &&& forall|j: int| 0 <= j < text.len() ==> text[j] != '}'
                }
            })
            &&& !s.parsing && r is End ==> stream_next(s, r) == NextView::<
                StreamView,
                N,
                Result<Seq<char>, Seq<char>>,
            >::Finish(Ok(s.total))
            &&& s.parsing && !(r is Response) ==> (stream_next(s, r) matches NextView::Finish(
                Err(x),
            ) && x == "Failed to deserialize chunk: "@ + why)
            &&& !s.parsing && !(r is Chunk) && !(r is End) ==> (stream_next(s, r) matches
            NextView::Finish(Err(x)) && x == "Error while streaming: "@ + why)
        }),
{
    let text = if s.parsing {
        s.buffer
    } else if r is Chunk && valid_utf8(r->Chunk_0) {
        s.buffer + decode_utf8(r->Chunk_0)
    } else {
        s.buffer
    };
    first_position_is_first(text, '}');
    assert(s.buffer + Seq::<char>::empty() =~= s.buffer);
    let at = first_position(text, '}') as int;
    if at < text.len() {
        assert(text.take(at + 1) + text.skip(at + 1) =~= text);
    }
}

/// A server that does not say success gives a fault that names its status line; one that does is
/// read from the start.
pub proof fn streams_are_read_on_success<N>(success: bool, line: Seq<char>)
    ensures
        success ==> (stream_start::<N>(success, line) matches NextView::Ask(t, e) && t.buffer.len()
            == 0 && t.total.len() == 0 && !t.parsing && e is NextChunk),
        !success ==> (stream_start::<N>(success, line) matches NextView::Finish(Err(why)) && why
            == "Failed to get a valid response. Status: "@ + line),
{
}

} // verus!
