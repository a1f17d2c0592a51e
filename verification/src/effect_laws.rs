//! What a job asks for, field by field: what it sends to its server, what it looks for, and what it
//! writes where.

use vstd::prelude::*;
use vstd::utf8::encode_utf8;

use crate::embedding::{flat, flattening_joins_rows, EmbedPhaseView, EmbedView};
use crate::keys::{embed_key, hash_text};
use crate::llm::{llm_next, LlmPhaseView, LlmView};
use crate::llm_laws::{is_job_with, job_follows_on, JobMoment};
use crate::outside::{base64_bytes, base64_text, uuid_text};
use crate::protocol::{EffectView, LlmJobView, NextView, ReplyView};
use crate::types::EmbeddingResponseView;

verus! {

/// Whether a moment of a job is part of the getting of the embedding of a text.
pub open spec fn embeds<N>(a: JobMoment<N>, input: Seq<char>) -> bool {
    &&& a matches NextView::Ask(s, _)
    &&& match s.phase {
        LlmPhaseView::Contextualizing(x) => x.body.input == input,
        LlmPhaseView::Embedding { embed, .. } => embed.body.input == input,
        _ => false,
    }
}

/// Whether a job was told an embedding before moment `i`, while it was getting that of a text.
pub open spec fn was_told<N>(
    run: Seq<JobMoment<N>>,
    replies: Seq<ReplyView<N>>,
    i: int,
    input: Seq<char>,
    v: EmbeddingResponseView<N>,
) -> bool {
    exists|k: int|
        0 <= k < i && #[trigger] embeds(run[k], input) && replies[k] == ReplyView::<N>::Embedding(v)
}

/// Whether a job had its answer written out before moment `i`, and `data` is what came of it.
pub open spec fn wrote_out<N>(
    run: Seq<JobMoment<N>>,
    replies: Seq<ReplyView<N>>,
    i: int,
    data: Seq<char>,
) -> bool {
    exists|k: int|
        0 <= k < i && (#[trigger] run[k] matches NextView::Ask(_, e) && e is EncodeResponse)
            && replies[k] == ReplyView::<N>::Text(data)
}

/// Whether the work for an embedding is for a text of a job, at the server of the job.
spec fn embeds_for<N>(x: EmbedView<N>, job: LlmJobView, input: Seq<char>) -> bool {
    &&& x.url == job.server.url + "embed"@
    &&& x.body.model == job.embedding_model
    &&& x.body.input == input
    &&& x.body.stream == Some(false)
    &&& x.id == job.id
    &&& x.ttl == job.ttl
}

/// What the work for an embedding carries of one.
spec fn carried<N>(x: EmbedView<N>) -> Option<EmbeddingResponseView<N>> {
    match x.phase {
        EmbedPhaseView::Encoding(v) => Some(v),
        EmbedPhaseView::Storing(v) => Some(v),
        _ => None,
    }
}

/// What the work for an embedding asks for at its phase.
spec fn embed_asks<N>(x: EmbedView<N>, e: EffectView<N>) -> bool {
    match x.phase {
        EmbedPhaseView::Checking => e == EffectView::<N>::Exists(
            embed_key(hash_text(x.body.input), x.body.model),
        ),
        EmbedPhaseView::Fetching => e == EffectView::<N>::Get(
            embed_key(hash_text(x.body.input), x.body.model),
        ),
        EmbedPhaseView::Decoding => e is DecodeEmbedding,
        EmbedPhaseView::Posting => e matches EffectView::PostEmbed { url, request } && url == x.url
            && request == x.body,
        EmbedPhaseView::Encoding(v) => e == EffectView::<N>::EncodeEmbedding(v),
        EmbedPhaseView::Storing(_) => e is Put,
    }
}

/// What holds of the state of a job at moment `i`.
spec fn job_stands<N>(
    run: Seq<JobMoment<N>>,
    replies: Seq<ReplyView<N>>,
    job: LlmJobView,
    i: int,
) -> bool {
    run[i] matches NextView::Ask(s, e) ==> {
        &&& s.job == job
        &&& match s.phase {
            LlmPhaseView::Counting => e == EffectView::<N>::Increment(job.server.url),
            LlmPhaseView::Starting => e is StartTimer,
            LlmPhaseView::Contextualizing(x) => {
                &&& job.request.contextualize == Some(true)
                &&& embeds_for(x, job, job.request.prompt)
                &&& embed_asks(x, e)
                &&& carried(x) matches Some(v) ==> was_told(run, replies, i, job.request.prompt, v)
            },
            LlmPhaseView::Searching(g) => {
                &&& job.request.contextualize == Some(true)
                &&& 0 < g.next <= job.clusters
                &&& exists|v: EmbeddingResponseView<N>| #[trigger]
                    was_told(run, replies, i, job.request.prompt, v) && v.embeddings
                        == g.embeddings
                &&& e matches EffectView::Search { cluster, index, query }
                &&& cluster == g.next - 1
                &&& index == job.index
                &&& query.size == 3
                &&& query.k == 25
                &&& query.vector == flat(g.embeddings)
            },
            LlmPhaseView::Reading { gathering, .. } => {
                &&& job.request.contextualize == Some(true)
                &&& 0 < gathering.next <= job.clusters
                &&& exists|v: EmbeddingResponseView<N>| #[trigger]
                    was_told(run, replies, i, job.request.prompt, v) && v.embeddings
                        == gathering.embeddings
                &&& e is DecodeResponse
            },
            LlmPhaseView::Posting => {
                &&& e matches EffectView::PostGenerate { url, body }
                &&& url == job.server.url + "generate"@
                &&& body.model == job.request.model
                &&& body.stream == job.request.stream
                &&& body.contextualize == job.request.contextualize
                &&& job.request.contextualize != Some(true) ==> body.prompt == job.request.prompt
                &&& job.request.contextualize == Some(true) ==> is_in_context(
                    body.prompt,
                    job.request.prompt,
                )
            },
            LlmPhaseView::Streaming(_) => e is DecodeResponse || e is NextChunk,
            LlmPhaseView::Stopping { .. } => e is ReadTimer,
            LlmPhaseView::Encoding => e is EncodeResponse,
            LlmPhaseView::Writing { data, write } => {
                &&& wrote_out(run, replies, i, data)
                &&& write.files == job.files
                &&& write.name == uuid_text(job.id) + ".json"@
                &&& write.data == encode_utf8(data)
                &&& e matches EffectView::OpenFiles(f) ==> f == job.files
                &&& e matches EffectView::PutFile { bucket, name, data: bytes } ==> {
                    &&& bucket == job.files.bucket
                    &&& name == uuid_text(job.id) + ".json"@
                    &&& bytes == encode_utf8(data)
                }
                &&& e matches EffectView::PutLifecycle(l) ==> {
                    &&& l.url == job.files.url + "/"@ + job.files.bucket + "?lifecycle"@
                    &&& l.user == job.files.user
                    &&& l.pass == job.files.pass
                    &&& l.content_type == "application/xml"@
                }
                &&& e is OpenFiles || e is PutFile || e is PutLifecycle
            },
            LlmPhaseView::Embedding { data, embed } => {
                &&& wrote_out(run, replies, i, data)
                &&& embeds_for(embed, job, data)
                &&& embed_asks(embed, e)
                &&& carried(embed) matches Some(v) ==> was_told(run, replies, i, data, v)
            },
            LlmPhaseView::Inserting { data, embedding, next } => {
                &&& wrote_out(run, replies, i, data)
                &&& was_told(run, replies, i, data, embedding)
                &&& e matches EffectView::Insert { cluster, index, id, document }
                &&& next <= job.clusters
                &&& cluster == next - 1
                &&& index == job.index
                &&& id == uuid_text(job.id)
                &&& document.text == data
                &&& document.vector == flat(embedding.embeddings)
                &&& document.filename is None
                &&& document.url is None
                &&& document.source is None
                &&& document.model is None
                &&& document.timestamp is None
            },
            LlmPhaseView::Sealing { data } => {
                &&& wrote_out(run, replies, i, data)
                &&& e matches EffectView::EncodeEmbedding(v)
                &&& was_told(run, replies, i, data, v)
            },
            LlmPhaseView::KeepingEmbedding { data } => {
                &&& wrote_out(run, replies, i, data)
                &&& e matches EffectView::Put { key, .. }
                &&& key == embed_key(hash_text(data), job.embedding_model)
            },
            LlmPhaseView::KeepingAnswer => {
                &&& e matches EffectView::Put { key, value, .. }
                &&& key == uuid_text(job.id)
                &&& wrote_out(run, replies, i, value)
            },
            LlmPhaseView::Releasing => e == EffectView::<N>::Decrement(job.server.url),
        }
        &&& e matches EffectView::Put { value, ttl, .. } ==> {
            &&& ttl == job.ttl
            &&& s.phase is KeepingAnswer || {
                &&& i > 0
                &&& run[i - 1] is Ask
                &&& run[i - 1]->Ask_1 is EncodeEmbedding
                &&& replies[i - 1] matches ReplyView::Text(t)
                &&& value == base64_text(encode_utf8(t))
            }
        }
        &&& e matches EffectView::DecodeEmbedding(b) ==> {
            &&& i > 0
            &&& run[i - 1] is Ask
            &&& run[i - 1]->Ask_1 is Get
            &&& replies[i - 1] matches ReplyView::Text(t)
            &&& base64_bytes(t) == Some(b)
        }
    }
}

/// Whether a prompt is sent with earlier conversation before it.
pub open spec fn is_in_context(sent: Seq<char>, prompt: Seq<char>) -> bool {
    exists|context: Seq<char>|
        sent == #[trigger] ("For additional context use our previous conversation: "@ + context)
            + " \n::: prompt :::\n "@ + prompt + "\n"@
}

/// What was told or written out before a moment was so before a later one.
proof fn lemma_still_told<N>(
    run: Seq<JobMoment<N>>,
    replies: Seq<ReplyView<N>>,
    i: int,
)
    ensures
        forall|input: Seq<char>, v: EmbeddingResponseView<N>| #[trigger]
            was_told(run, replies, i - 1, input, v) ==> was_told(run, replies, i, input, v),
        forall|d: Seq<char>| #[trigger]
            wrote_out(run, replies, i - 1, d) ==> wrote_out(run, replies, i, d),
{
}

#[verifier::rlimit(100)]
#[verifier::spinoff_prover]
proof fn lemma_job_stands<N>(
    run: Seq<JobMoment<N>>,
    replies: Seq<ReplyView<N>>,
    job: LlmJobView,
    i: int,
)
    requires
        is_job_with(run, replies, job),
        0 <= i < run.len(),
    ensures
        job_stands(run, replies, job, i),
    decreases i,
{
    if i > 0 {
        lemma_job_stands(run, replies, job, i - 1);
        lemma_still_told(run, replies, i);
        assert(job_follows_on(run[i - 1], replies[i - 1], run[i]));
        reveal(job_follows_on);
        let s = run[i - 1]->Ask_0;
        let r = replies[i - 1];
        match s.phase {
            LlmPhaseView::Contextualizing(x) => {
                assert(embeds(run[i - 1], x.body.input));
                if let ReplyView::Embedding(v) = r {
                    assert(was_told(run, replies, i, x.body.input, v));
                }
            },
            LlmPhaseView::Embedding { embed, .. } => {
                assert(embeds(run[i - 1], embed.body.input));
                if let ReplyView::Embedding(v) = r {
                    assert(was_told(run, replies, i, embed.body.input, v));
                }
            },
            LlmPhaseView::Encoding => {
                if let ReplyView::Text(d) = r {
                    assert(wrote_out(run, replies, i, d));
                }
            },
            _ => {},
        }
    }
}

/// What a job sends to be generated goes to the server of the job, and has the model and the flags
/// of the request. The prompt is the one of the request, with earlier conversation before it where
/// the request asks for that, and else just as it came.
pub proof fn jobs_send_the_request_to_their_server<N>(
    run: Seq<JobMoment<N>>,
    replies: Seq<ReplyView<N>>,
    job: LlmJobView,
    i: int,
)
    requires
        is_job_with(run, replies, job),
        0 <= i < run.len(),
    ensures
        run[i] matches NextView::Ask(_, EffectView::PostGenerate { url, body }) ==> {
            &&& url == job.server.url + "generate"@
            &&& body.model == job.request.model
            &&& body.stream == job.request.stream
            &&& body.contextualize == job.request.contextualize
            &&& job.request.contextualize != Some(true) ==> body.prompt == job.request.prompt
            &&& job.request.contextualize == Some(true) ==> is_in_context(
                body.prompt,
                job.request.prompt,
            )
        },
        run[i] matches NextView::Ask(_, EffectView::Increment(url)) ==> url == job.server.url,
        run[i] matches NextView::Ask(_, EffectView::Decrement(url)) ==> url == job.server.url,
{
    lemma_job_stands(run, replies, job, i);
}

/// What a job asks to be embedded is the prompt, where it is to be put into context, or its answer
/// as it was written out: by the server of the job and the model for embeddings. What is kept for
/// either is looked for under the key of that very text and model.
pub proof fn jobs_ask_for_embeddings_of_their_texts<N>(
    run: Seq<JobMoment<N>>,
    replies: Seq<ReplyView<N>>,
    job: LlmJobView,
    i: int,
)
    requires
        is_job_with(run, replies, job),
        0 <= i < run.len(),
    ensures
        run[i] matches NextView::Ask(_, EffectView::PostEmbed { url, request }) ==> {
            &&& url == job.server.url + "embed"@
            &&& request.model == job.embedding_model
            &&& request.stream == Some(false)
            &&& {
                ||| job.request.contextualize == Some(true) && request.input == job.request.prompt
                ||| wrote_out(run, replies, i, request.input)
            }
        },
        run[i] matches NextView::Ask(_, EffectView::Exists(key)) ==> exists|input: Seq<char>|
            {
                &&& key == #[trigger] embed_key(hash_text(input), job.embedding_model)
                &&& (job.request.contextualize == Some(true) && input == job.request.prompt)
                    || wrote_out(run, replies, i, input)
            },
        run[i] matches NextView::Ask(_, EffectView::Get(key)) ==> exists|input: Seq<char>|
            {
                &&& key == #[trigger] embed_key(hash_text(input), job.embedding_model)
                &&& (job.request.contextualize == Some(true) && input == job.request.prompt)
                    || wrote_out(run, replies, i, input)
            },
        run[i] matches NextView::Ask(_, EffectView::DecodeEmbedding(b)) ==> i > 0 && (
        replies[i - 1] matches ReplyView::Text(t) && base64_bytes(t) == Some(b)),
        run[i] matches NextView::Ask(_, EffectView::EncodeEmbedding(v)) ==> {
            ||| was_told(run, replies, i, job.request.prompt, v)
            ||| exists|d: Seq<char>| #[trigger]
                wrote_out(run, replies, i, d) && was_told(run, replies, i, d, v)
        },
{
    lemma_job_stands(run, replies, job, i);
    if let NextView::Ask(s, e) = run[i] {
        match s.phase {
            LlmPhaseView::Contextualizing(x) => {
                assert(embed_key(hash_text(x.body.input), job.embedding_model) == embed_key(
                    hash_text(x.body.input),
                    x.body.model,
                ));
                if let Some(v) = carried(x) {
                    assert(was_told(run, replies, i, job.request.prompt, v));
                }
            },
            LlmPhaseView::Embedding { data, embed } => {
                assert(embed_key(hash_text(data), job.embedding_model) == embed_key(
                    hash_text(embed.body.input),
                    embed.body.model,
                ));
                if let Some(v) = carried(embed) {
                    assert(was_told(run, replies, i, data, v));
                }
            },
            LlmPhaseView::Sealing { data } => {
                if let EffectView::EncodeEmbedding(v) = e {
                    assert(was_told(run, replies, i, data, v));
                }
            },
            _ => {},
        }
    }
}

/// Conversation is searched only where the request asks for context: in the index of the job, at
/// one of its clusters, for the three nearest of twenty-five, by all numbers of the embedding that
/// the job was told for the prompt.
pub proof fn jobs_search_by_the_embedding_of_the_prompt<N>(
    run: Seq<JobMoment<N>>,
    replies: Seq<ReplyView<N>>,
    job: LlmJobView,
    i: int,
)
    requires
        is_job_with(run, replies, job),
        0 <= i < run.len(),
    ensures
        run[i] matches NextView::Ask(_, EffectView::Search { cluster, index, query }) ==> {
            &&& job.request.contextualize == Some(true)
            &&& cluster < job.clusters
            &&& index == job.index
            &&& query.size == 3
            &&& query.k == 25
            &&& exists|v: EmbeddingResponseView<N>| #[trigger]
                was_told(run, replies, i, job.request.prompt, v) && query.vector
                    == v.embeddings.flatten()
        },
{
    lemma_job_stands(run, replies, job, i);
    if let NextView::Ask(s, EffectView::Search { query, .. }) = run[i] {
        if let LlmPhaseView::Searching(g) = s.phase {
            let v = choose|v: EmbeddingResponseView<N>| #[trigger]
                was_told(run, replies, i, job.request.prompt, v) && v.embeddings == g.embeddings;
            flattening_joins_rows(g.embeddings, Seq::empty());
            assert(was_told(run, replies, i, job.request.prompt, v));
        }
    }
}

/// What a job puts into an index is its answer as it was written out, under its id, with all
/// numbers of the embedding that the job was told for that answer, and nothing else.
pub proof fn jobs_insert_their_answer<N>(
    run: Seq<JobMoment<N>>,
    replies: Seq<ReplyView<N>>,
    job: LlmJobView,
    i: int,
)
    requires
        is_job_with(run, replies, job),
        0 <= i < run.len(),
    ensures
        run[i] matches NextView::Ask(_, EffectView::Insert { cluster, index, id, document }) ==> {
            &&& cluster < job.clusters
            &&& index == job.index
            &&& id == uuid_text(job.id)
            &&& wrote_out(run, replies, i, document.text)
            &&& exists|v: EmbeddingResponseView<N>| #[trigger]
                was_told(run, replies, i, document.text, v) && document.vector
                    == v.embeddings.flatten()
            &&& document.filename is None
            &&& document.url is None
            &&& document.source is None
            &&& document.model is None
            &&& document.timestamp is None
        },
{
    lemma_job_stands(run, replies, job, i);
    if let NextView::Ask(s, EffectView::Insert { .. }) = run[i] {
        if let LlmPhaseView::Inserting { data, embedding, .. } = s.phase {
            flattening_joins_rows(embedding.embeddings, Seq::empty());
            assert(was_told(run, replies, i, data, embedding));
        }
    }
}

/// What a job writes to its file store is its answer as it was written out, byte for byte, in a
/// file named after its id; and it asks that the files of that bucket expire.
pub proof fn jobs_file_their_answer<N>(
    run: Seq<JobMoment<N>>,
    replies: Seq<ReplyView<N>>,
    job: LlmJobView,
    i: int,
)
    requires
        is_job_with(run, replies, job),
        0 <= i < run.len(),
    ensures
        run[i] matches NextView::Ask(_, EffectView::OpenFiles(f)) ==> {
            &&& f.url == job.files.url
            &&& f.user == job.files.user
            &&& f.pass == job.files.pass
            &&& f.bucket == job.files.bucket
            &&& f.expiration == job.files.expiration
        },
        run[i] matches NextView::Ask(_, EffectView::PutFile { bucket, name, data }) ==> {
            &&& bucket == job.files.bucket
            &&& name == uuid_text(job.id) + ".json"@
            &&& exists|d: Seq<char>| #[trigger]
                wrote_out(run, replies, i, d) && data == encode_utf8(d)
        },
        run[i] matches NextView::Ask(_, EffectView::PutLifecycle(l)) ==> {
            &&& l.url == job.files.url + "/"@ + job.files.bucket + "?lifecycle"@
            &&& l.user == job.files.user
            &&& l.pass == job.files.pass
            &&& l.content_type == "application/xml"@
        },
{
    lemma_job_stands(run, replies, job, i);
}

/// What a job keeps, it keeps for the time that it was given: embeddings as the base64 of what they
/// were written out as, under its id or under the key of its answer; and its answer as it was
/// written out, under its id.
pub proof fn jobs_keep_what_was_written_out<N>(
    run: Seq<JobMoment<N>>,
    replies: Seq<ReplyView<N>>,
    job: LlmJobView,
    i: int,
)
    requires
        is_job_with(run, replies, job),
        0 <= i < run.len(),
    ensures
        run[i] matches NextView::Ask(_, EffectView::Put { key, value, ttl }) ==> {
            &&& ttl == job.ttl
            &&& {
                ||| {
                    &&& i > 0
                    &&& run[i - 1] is Ask
                    &&& run[i - 1]->Ask_1 is EncodeEmbedding
                    &&& replies[i - 1] matches ReplyView::Text(t)
                    &&& value == base64_text(encode_utf8(t))
                    &&& key == uuid_text(job.id) || exists|d: Seq<char>|
                        wrote_out(run, replies, i, d) && key == #[trigger] embed_key(
                            hash_text(d),
                            job.embedding_model,
                        )
                }
                ||| key == uuid_text(job.id) && wrote_out(run, replies, i, value)
            }
        },
        run[i] is Ask ==> {
            let e = run[i]->Ask_1;
            &&& !(e is Delete)
            &&& !(e is Spawn)
            &&& !(e is Run)
            &&& !(e is Load)
            &&& !(e is Scan)
            &&& !(e is Now)
        },
{
    lemma_job_stands(run, replies, job, i);
    if i > 0 && run[i] is Ask {
        lemma_put_key(run, replies, job, i);
    }
}

/// The key that an embedding is kept under while it is being got is the id of the job.
proof fn lemma_put_key<N>(
    run: Seq<JobMoment<N>>,
    replies: Seq<ReplyView<N>>,
    job: LlmJobView,
    i: int,
)
    requires
        is_job_with(run, replies, job),
        0 < i < run.len(),
        run[i] is Ask,
    ensures
        ({
            let s = run[i]->Ask_0;
            let e = run[i]->Ask_1;
            (s.phase is Contextualizing || s.phase is Embedding) && e is Put ==> e->key
                == uuid_text(job.id)
        }),
{
    lemma_job_stands(run, replies, job, i - 1);
    assert(job_follows_on(run[i - 1], replies[i - 1], run[i]));
    reveal(job_follows_on);
}

/// What is streamed by the server is read on until it ends, and then the time is read: nothing else
/// is asked for in between.
pub proof fn streams_are_read_without_pause<N>(s: LlmView<N>, r: ReplyView<N>)
    requires
        s.phase is Streaming,
    ensures
        llm_next(s, r) matches NextView::Ask(t, e) && t.job == s.job && (e is DecodeResponse || e
            is NextChunk || e is ReadTimer),
{
}

} // verus!
