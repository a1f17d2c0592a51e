//! What a job comes to as a whole.

use vstd::prelude::*;
use vstd::seq_lib::lemma_flatten_concat;
use vstd::utf8::encode_utf8;

use crate::embedding::{
    embed_key_in, embed_next, embed_start, sealed, EmbedPhaseView, EmbedView,
};
use crate::keys::{embed_key, hash_text};
use crate::llm::{
    context_with, finished_answer, generate_url, llm_hits, llm_next, llm_post, llm_search, llm_start,
    llm_stream, prompt_with, GatheringView, LlmPhaseView, LlmView,
};
use crate::outside::{base64_bytes, url_accepted, uuid_text};
use crate::protocol::{EffectView, LlmJobView, NextView, ReplyView};
use crate::stream::{stream_after, stream_next, stream_start, StreamView};
use crate::types::{ApiResponseView, EmbedRequestBodyView, EmbeddingResponseView};
use crate::world::{reply_to, store_after, Store, World};

verus! {

/// A moment of a job.
pub type JobMoment<N> = NextView<LlmView<N>, N, ()>;

/// A moment of the work for an embedding.
pub type EmbedMoment<N> = NextView<EmbedView<N>, N, EmbeddingResponseView<N>>;

/// Whether `b` follows `a`, whatever the reply.
#[verifier::opaque]
pub open spec fn job_follows<N>(a: JobMoment<N>, b: JobMoment<N>) -> bool {
    match a {
        NextView::Ask(s, _) => exists|r: ReplyView<N>| b == #[trigger] llm_next(s, r),
        _ => false,
    }
}

/// Whether `run` is a job as far as it went, whatever the replies were.
pub open spec fn is_job<N>(run: Seq<JobMoment<N>>, job: LlmJobView) -> bool {
    &&& run.len() > 0
    &&& run[0] == llm_start::<N>(job)
    &&& forall|i: int| 0 <= i < run.len() - 1 ==> job_follows(#[trigger] run[i], run[i + 1])
}

/// The reply between a moment of a job and the next one.
proof fn lemma_reply<N>(run: Seq<JobMoment<N>>, job: LlmJobView, i: int) -> (r: ReplyView<N>)
    requires
        is_job(run, job),
        0 <= i < run.len() - 1,
    ensures
        run[i] is Ask,
        run[i + 1] == llm_next(run[i]->Ask_0, r),
{
    assert(job_follows(run[i], run[i + 1]));
    reveal(job_follows);
    let s = run[i]->Ask_0;
    choose|r: ReplyView<N>| run[i + 1] == #[trigger] llm_next(s, r)
}

/// Every moment of a job but the last asks for something.
proof fn lemma_asks<N>(run: Seq<JobMoment<N>>, job: LlmJobView, i: int)
    requires
        is_job(run, job),
        0 <= i < run.len() - 1,
    ensures
        run[i] is Ask,
{
    let _ = lemma_reply(run, job, i);
}

/// What one step of a job asks for of the counter of its server.
proof fn lemma_step_counts<N>(s: LlmView<N>, r: ReplyView<N>)
    ensures
        llm_next(s, r) matches NextView::Ask(t, e) ==> {
            &&& t.job == s.job
            &&& !(t.phase is Counting)
            &&& !(e is Increment)
            &&& e is Decrement <==> t.phase is Releasing
            &&& e is Decrement ==> e == EffectView::<N>::Decrement(s.job.server.url)
            &&& !(s.phase is Releasing)
        },
        llm_next(s, r) is Finish ==> s.phase is Releasing,
{
}

/// How the moments of a job stand to the counter of its server.
proof fn lemma_counts<N>(run: Seq<JobMoment<N>>, job: LlmJobView, i: int)
    requires
        is_job(run, job),
        0 <= i < run.len(),
    ensures
        run[i] matches NextView::Ask(s, e) ==> {
            &&& s.job == job
            &&& e is Increment <==> i == 0
            &&& s.phase is Counting <==> i == 0
            &&& i == 0 ==> e == EffectView::<N>::Increment(job.server.url)
            &&& e is Decrement <==> s.phase is Releasing
            &&& e is Decrement ==> e == EffectView::<N>::Decrement(job.server.url)
        },
        i < run.len() - 2 && run[i + 1] is Ask ==> !(run[i]->Ask_0.phase is Releasing),
        i == run.len() - 2 && run.last() is Finish ==> run[i]->Ask_0.phase is Releasing,
    decreases i,
{
    if i > 0 {
        lemma_counts(run, job, i - 1);
        let r = lemma_reply(run, job, i - 1);
        let s = run[i - 1]->Ask_0;
        lemma_step_counts(s, r);
    }
    if i < run.len() - 1 {
        let r = lemma_reply(run, job, i);
        let s = run[i]->Ask_0;
        lemma_step_counts(s, r);
    }
}

/// A job that comes to its end is counted at its server exactly once, before anything else, and
/// counted out exactly once, after everything else.
pub proof fn finished_jobs_free_their_place<N>(run: Seq<JobMoment<N>>, job: LlmJobView)
    requires
        is_job(run, job),
        run.last() is Finish,
    ensures
        run.len() > 2,
        run[0] matches NextView::Ask(_, e) && e == EffectView::<N>::Increment(job.server.url),
        run[run.len() - 2] matches NextView::Ask(_, e) && e == EffectView::<N>::Decrement(
            job.server.url,
        ),
        forall|i: int|
            0 < i < run.len() - 2 ==> (#[trigger] run[i] matches NextView::Ask(_, e) && !(
            e is Increment) && !(e is Decrement)),
{
    lemma_counts(run, job, 0);
    if run.len() == 1 {
        assert(run.last() == run[0]);
    } else {
        lemma_asks(run, job, 0);
        lemma_counts(run, job, run.len() - 2);
        lemma_asks(run, job, run.len() - 2);
        assert forall|i: int| 0 < i < run.len() - 2 implies (
        #[trigger] run[i] matches NextView::Ask(_, e) && !(e is Increment) && !(
        e is Decrement)) by {
            lemma_counts(run, job, i);
            lemma_asks(run, job, i);
            lemma_asks(run, job, i + 1);
        }
    }
}

/// A job counts itself out at its server as the last thing it asks for: one that stops with a
/// fault before that keeps its place.
pub proof fn counting_out_comes_last<N>(run: Seq<JobMoment<N>>, job: LlmJobView, i: int)
    requires
        is_job(run, job),
        0 <= i < run.len(),
        run[i] matches NextView::Ask(_, e) && e is Decrement,
    ensures
        forall|j: int| i < j < run.len() ==> !(#[trigger] run[j] is Ask),
{
    lemma_counts(run, job, i);
    if i < run.len() - 1 {
        let r = lemma_reply(run, job, i);
        let s = run[i]->Ask_0;
        lemma_step_counts(s, r);
        if i + 1 < run.len() - 1 {
            lemma_asks(run, job, i + 1);
        }
    }
}

/// The answer of a job, as it is written out, from when it is there.
pub open spec fn answer_in<N>(phase: LlmPhaseView<N>) -> Option<Seq<char>> {
    match phase {
        LlmPhaseView::Writing { data, .. } => Some(data),
        LlmPhaseView::Embedding { data, .. } => Some(data),
        LlmPhaseView::Inserting { data, .. } => Some(data),
        LlmPhaseView::Sealing { data } => Some(data),
        LlmPhaseView::KeepingEmbedding { data } => Some(data),
        _ => None,
    }
}

/// What holds of the state of a job at any time: a file that is written is the answer.
spec fn writes_answer<N>(s: LlmView<N>) -> bool {
    s.phase matches LlmPhaseView::Writing { data, write } ==> {
        &&& write.data == encode_utf8(data)
        &&& write.name == uuid_text(s.job.id) + ".json"@
        &&& write.files == s.job.files
    }
}

/// Whether an effect, where it writes the answer of a job somewhere, writes `data`: to the file
/// and the documents of the job.
pub open spec fn spreads<N>(job: LlmJobView, data: Seq<char>, e: EffectView<N>) -> bool {
    &&& e matches EffectView::PutFile { bucket, name, data: bytes } ==> {
        &&& bucket == job.files.bucket
        &&& name == uuid_text(job.id) + ".json"@
        &&& bytes == encode_utf8(data)
    }
    &&& e matches EffectView::Insert { index, id, document, .. } ==> {
        &&& index == job.index
        &&& id == uuid_text(job.id)
        &&& document.text == data
    }
}

/// Whether an effect keeps `data` under the id of a job.
pub open spec fn keeps<N>(job: LlmJobView, data: Seq<char>, e: EffectView<N>) -> bool {
    e == (EffectView::<N>::Put { key: uuid_text(job.id), value: data, ttl: job.ttl })
}

/// What one step of a job does with its answer.
#[verifier::rlimit(50)]
proof fn lemma_step_answer<N>(s: LlmView<N>, r: ReplyView<N>)
    requires
        writes_answer(s),
    ensures
        llm_next(s, r) matches NextView::Ask(t, e) ==> {
            &&& t.job == s.job
            &&& writes_answer(t)
            &&& match answer_in(t.phase) {
                Some(d) => spreads(s.job, d, e),
                None => !(e is PutFile) && !(e is Insert),
            }
            &&& answer_in(s.phase) matches Some(d) ==> {
                ||| answer_in(t.phase) == Some(d)
                ||| t.phase is KeepingAnswer && keeps(s.job, d, e)
            }
            &&& t.phase is KeepingAnswer ==> s.phase is KeepingEmbedding
            &&& t.phase is Releasing <==> s.phase is KeepingAnswer
        },
        llm_next(s, r) is Finish ==> s.phase is Releasing,
        s.phase is Releasing ==> !(llm_next(s, r) is Ask),
{
}

proof fn lemma_writes_answer<N>(run: Seq<JobMoment<N>>, job: LlmJobView, i: int)
    requires
        is_job(run, job),
        0 <= i < run.len(),
    ensures
        run[i] matches NextView::Ask(s, e) ==> {
            &&& s.job == job
            &&& writes_answer(s)
            &&& match answer_in(s.phase) {
                Some(d) => spreads(job, d, e),
                None => !(e is PutFile) && !(e is Insert),
            }
        },
    decreases i,
{
    if i > 0 {
        lemma_writes_answer(run, job, i - 1);
        let r = lemma_reply(run, job, i - 1);
        let s = run[i - 1]->Ask_0;
        lemma_step_answer(s, r);
    }
}

/// The answer of a job stays the same until it is kept.
proof fn lemma_one_answer<N>(run: Seq<JobMoment<N>>, job: LlmJobView, i: int, j: int, d: Seq<char>)
    requires
        is_job(run, job),
        0 <= i <= j < run.len(),
        run[i] is Ask,
        answer_in(run[i]->Ask_0.phase) == Some(d),
    ensures
        run[j] matches NextView::Ask(t, e) ==> {
            ||| answer_in(t.phase) == Some(d)
            ||| t.phase is KeepingAnswer && keeps(job, d, e)
            ||| t.phase is Releasing
        },
    decreases j,
{
    if i < j {
        lemma_one_answer(run, job, i, j - 1, d);
        let r = lemma_reply(run, job, j - 1);
        let s = run[j - 1]->Ask_0;
        lemma_writes_answer(run, job, j - 1);
        lemma_step_answer(s, r);
    }
}

/// How a moment of a job stands to the next one.
proof fn lemma_one_step<N>(run: Seq<JobMoment<N>>, job: LlmJobView, i: int)
    requires
        is_job(run, job),
        0 <= i < run.len() - 1,
    ensures
        run[i] matches NextView::Ask(s, e) && {
            &&& match answer_in(s.phase) {
                Some(d) => spreads(job, d, e),
                None => !(e is PutFile) && !(e is Insert),
            }
            &&& s.phase is Counting <==> i == 0
            &&& run[i + 1] is Finish ==> s.phase is Releasing
            &&& run[i + 1] matches NextView::Ask(t, f) ==> {
                &&& t.phase is Releasing <==> s.phase is KeepingAnswer
                &&& t.phase is KeepingAnswer ==> s.phase is KeepingEmbedding && keeps(
                    job,
                    answer_in(s.phase)->0,
                    f,
                )
            }
        },
{
    lemma_counts(run, job, i);
    lemma_writes_answer(run, job, i);
    let r = lemma_reply(run, job, i);
    let s = run[i]->Ask_0;
    lemma_step_answer(s, r);
}

/// A job that comes to its end has one answer: what it keeps under its id at last is what it
/// wrote to the file and what it put into every index.
#[verifier::rlimit(50)]
pub proof fn one_answer_everywhere<N>(run: Seq<JobMoment<N>>, job: LlmJobView)
    requires
        is_job(run, job),
        run.last() is Finish,
    ensures
        run.len() > 3,
        run[run.len() - 3] is Ask,
        exists|d: Seq<char>|
            {
                &&& #[trigger] keeps(job, d, run[run.len() - 3]->Ask_1)
                &&& forall|i: int|
                    0 <= i < run.len() - 1 ==> (#[trigger] run[i] matches NextView::Ask(_, e)
                        && spreads(job, d, e))
            },
{
    let n = run.len() as int;
    finished_jobs_free_their_place(run, job);
    lemma_one_step(run, job, n - 2);
    lemma_one_step(run, job, n - 3);
    assert(run[n - 3]->Ask_0.phase is KeepingAnswer);
    lemma_one_step(run, job, n - 4);
    let d = answer_in(run[n - 4]->Ask_0.phase)->0;
    assert(keeps(job, d, run[n - 3]->Ask_1));
    assert forall|i: int| 0 <= i < n - 1 implies (#[trigger] run[i] matches NextView::Ask(_, e)
        && spreads(job, d, e)) by {
        lemma_one_step(run, job, i);
        if let Some(x) = answer_in(run[i]->Ask_0.phase) {
            lemma_one_answer(run, job, i, n - 4, x);
        }
    }
}

/// Whether `b` follows `a` on a reply.
#[verifier::opaque]
pub open spec fn job_follows_on<N>(a: JobMoment<N>, r: ReplyView<N>, b: JobMoment<N>) -> bool {
    a matches NextView::Ask(s, _) && b == llm_next(s, r)
}

/// Whether `run` is a job as far as it went, with the replies given.
pub open spec fn is_job_with<N>(
    run: Seq<JobMoment<N>>,
    replies: Seq<ReplyView<N>>,
    job: LlmJobView,
) -> bool {
    &&& run.len() > 0
    &&& run[0] == llm_start::<N>(job)
    &&& replies.len() == run.len() - 1
    &&& forall|i: int|
        0 <= i < run.len() - 1 ==> job_follows_on(#[trigger] run[i], replies[i], run[i + 1])
}

/// A job with given replies is a job.
proof fn lemma_is_job<N>(run: Seq<JobMoment<N>>, replies: Seq<ReplyView<N>>, job: LlmJobView)
    requires
        is_job_with(run, replies, job),
    ensures
        is_job(run, job),
{
    assert forall|i: int| 0 <= i < run.len() - 1 implies job_follows(
        #[trigger] run[i],
        run[i + 1],
    ) by {
        reveal(job_follows);
        reveal(job_follows_on);
        assert(job_follows_on(run[i], replies[i], run[i + 1]));
        let s = run[i]->Ask_0;
        assert(run[i + 1] == llm_next(s, replies[i]));
    }
}

/// Whether an effect has a finished answer of a job written out.
pub open spec fn writes_out<N>(
    job: LlmJobView,
    response: Seq<char>,
    ms_taken: Option<u128>,
    e: EffectView<N>,
) -> bool {
    e == EffectView::<N>::EncodeResponse(finished_answer(job, response, ms_taken))
}

/// The time that a job says it took, from the reply of the timer.
pub open spec fn time_taken<N>(r: ReplyView<N>) -> Option<u128> {
    match r {
        ReplyView::Millis(n) => Some(n),
        _ => None,
    }
}

/// What the stream comes to that starts with reply `p`, the status of the server.
pub open spec fn streamed<N>(replies: Seq<ReplyView<N>>, p: int) -> Option<
    Result<Seq<char>, Seq<char>>,
> {
    match replies[p] {
        ReplyView::Status { success, line } => stream_after(
            stream_start::<N>(success, line),
            replies.skip(p + 1),
        ),
        _ => None,
    }
}

/// The text of a stream; empty where it went wrong.
pub open spec fn text_streamed(result: Result<Seq<char>, Seq<char>>) -> Seq<char> {
    match result {
        Ok(t) => t,
        Err(_) => Seq::empty(),
    }
}

/// Where the answer of a job comes from: what a moment has from the one before.
spec fn comes_from<N>(a: JobMoment<N>, r: ReplyView<N>, b: JobMoment<N>) -> bool {
    &&& a is Ask
    &&& b matches NextView::Ask(t, e) ==> {
        let s = a->Ask_0;
        &&& answer_in(t.phase) matches Some(d) ==> answer_in(s.phase) == Some(d) || (
        s.phase is Encoding && r == ReplyView::<N>::Text(d))
        &&& t.phase is Encoding ==> (s.phase matches LlmPhaseView::Stopping { response }
            && writes_out(s.job, response, time_taken(r), e))
        &&& e is EncodeResponse ==> t.phase is Encoding
        &&& t.phase is Stopping ==> e is ReadTimer
        &&& t.phase is Posting ==> e is PostGenerate
        &&& t.phase is Streaming || t.phase is Stopping ==> {
            ||| s.phase is Posting && (r matches ReplyView::Status { success, line } && b
                == llm_stream(s.job, stream_start::<N>(success, line)))
            ||| s.phase matches LlmPhaseView::Streaming(x) && b == llm_stream(
                s.job,
                stream_next(x, r),
            )
        }
    }
}

#[verifier::rlimit(50)]
proof fn lemma_comes_from<N>(
    run: Seq<JobMoment<N>>,
    replies: Seq<ReplyView<N>>,
    job: LlmJobView,
    i: int,
)
    requires
        is_job_with(run, replies, job),
        0 <= i < run.len() - 1,
    ensures
        comes_from(run[i], replies[i], run[i + 1]),
{
    assert(job_follows_on(run[i], replies[i], run[i + 1]));
    reveal(job_follows_on);
}

/// The start of the stream that a job reads, where it reads one or has just read it.
#[verifier::rlimit(50)]
proof fn lemma_streams<N>(
    run: Seq<JobMoment<N>>,
    replies: Seq<ReplyView<N>>,
    job: LlmJobView,
    i: int,
) -> (p: int)
    requires
        is_job_with(run, replies, job),
        0 <= i < run.len(),
        run[i] is Ask,
        run[i]->Ask_0.phase is Streaming || run[i]->Ask_0.phase is Stopping,
    ensures
        0 <= p < i,
        run[p] is Ask,
        run[p]->Ask_1 is PostGenerate,
        replies[p] is Status,
        run[i]->Ask_0.phase matches LlmPhaseView::Streaming(t) ==> streamed(replies, p)
            == stream_after(
            NextView::<StreamView, N, Result<Seq<char>, Seq<char>>>::Ask(t, run[i]->Ask_1),
            replies.skip(i),
        ),
        run[i]->Ask_0.phase matches LlmPhaseView::Stopping { response } ==> {
            &&& streamed(replies, p) matches Some(result)
            &&& response == text_streamed(result)
        },
    decreases i,
{
    lemma_is_job(run, replies, job);
    lemma_counts(run, job, i);
    lemma_comes_from(run, replies, job, i - 1);
    let s = run[i - 1]->Ask_0;
    let r = replies[i - 1];
    if let LlmPhaseView::Streaming(x) = s.phase {
        let p = lemma_streams(run, replies, job, i - 1);
        let left = replies.skip(i - 1);
        assert(left[0] == r);
        assert(left.skip(1) =~= replies.skip(i));
        assert(streamed(replies, p) == stream_after(stream_next(x, r), replies.skip(i)));
        p
    } else {
        lemma_counts(run, job, i - 1);
        lemma_comes_from(run, replies, job, i - 2);
        i - 1
    }
}

/// Where the answer of a job comes from: the moment `k` at which it was written out.
proof fn lemma_origin<N>(
    run: Seq<JobMoment<N>>,
    replies: Seq<ReplyView<N>>,
    job: LlmJobView,
    d: Seq<char>,
    i: int,
) -> (k: int)
    requires
        is_job_with(run, replies, job),
        0 <= i < run.len(),
        run[i] is Ask,
        answer_in(run[i]->Ask_0.phase) == Some(d),
    ensures
        1 < k < i,
        run[k] is Ask,
        replies[k] == ReplyView::<N>::Text(d),
        run[k - 1] is Ask,
        run[k - 1]->Ask_0.phase matches LlmPhaseView::Stopping { response } && writes_out(
            job,
            response,
            time_taken(replies[k - 1]),
            run[k]->Ask_1,
        ),
    decreases i,
{
    lemma_is_job(run, replies, job);
    lemma_counts(run, job, i);
    lemma_comes_from(run, replies, job, i - 1);
    let s = run[i - 1]->Ask_0;
    if answer_in(s.phase) == Some(d) {
        lemma_origin(run, replies, job, d, i - 1)
    } else {
        lemma_counts(run, job, i - 1);
        lemma_comes_from(run, replies, job, i - 2);
        lemma_writes_answer(run, job, i - 2);
        lemma_counts(run, job, i - 2);
        i - 1
    }
}

/// Whether the answer of a job was written out at moment `k`, with the text of the stream that
/// came on the prompt sent at moment `p` and the time that the timer said just before, and `d` is
/// what came of it.
pub open spec fn answers_with<N>(
    run: Seq<JobMoment<N>>,
    replies: Seq<ReplyView<N>>,
    job: LlmJobView,
    p: int,
    k: int,
    d: Seq<char>,
) -> bool {
    &&& 0 <= p < k - 1
    &&& k < run.len() - 1
    &&& run[p] is Ask
    &&& run[p]->Ask_1 is PostGenerate
    &&& run[k - 1] is Ask
    &&& run[k - 1]->Ask_1 is ReadTimer
    &&& run[k] is Ask
    &&& streamed(replies, p) matches Some(result)
    &&& writes_out(job, text_streamed(result), time_taken(replies[k - 1]), run[k]->Ask_1)
    &&& replies[k] == ReplyView::<N>::Text(d)
}

/// What a job that comes to its end keeps under its id at last is the finished answer as it was
/// written out: with the text that the server streamed on the prompt, which is empty where the
/// stream went wrong, and the time that it took.
pub proof fn the_finished_answer_is_kept<N>(
    run: Seq<JobMoment<N>>,
    replies: Seq<ReplyView<N>>,
    job: LlmJobView,
)
    requires
        is_job_with(run, replies, job),
        run.last() is Finish,
    ensures
        run.len() > 3,
        exists|p: int, k: int, d: Seq<char>|
            {
                &&& #[trigger] answers_with(run, replies, job, p, k, d)
                &&& k < run.len() - 3
                &&& keeps(job, d, run[run.len() - 3]->Ask_1)
            },
{
    lemma_is_job(run, replies, job);
    let n = run.len() as int;
    finished_jobs_free_their_place(run, job);
    lemma_one_step(run, job, n - 2);
    lemma_one_step(run, job, n - 3);
    lemma_one_step(run, job, n - 4);
    let d = answer_in(run[n - 4]->Ask_0.phase)->0;
    let k = lemma_origin(run, replies, job, d, n - 4);
    let p = lemma_streams(run, replies, job, k - 1);
    lemma_comes_from(run, replies, job, k - 2);
    assert(keeps(job, d, run[n - 3]->Ask_1));
    assert(answers_with(run, replies, job, p, k, d));
}

/// The answer that a job has written out holds, character for character, what the server streamed
/// on the prompt, or nothing where the stream went wrong; the time that the timer said; and the id,
/// the time, the server and the request of the job.
pub proof fn answers_hold_what_was_streamed<N>(
    run: Seq<JobMoment<N>>,
    replies: Seq<ReplyView<N>>,
    job: LlmJobView,
    k: int,
    v: ApiResponseView,
)
    requires
        is_job_with(run, replies, job),
        0 <= k < run.len(),
        run[k] matches NextView::Ask(_, e) && e == EffectView::<N>::EncodeResponse(v),
    ensures
        v.key == Some(uuid_text(job.id)),
        v.model == job.request.model,
        v.created_at == job.stamp,
        v.done,
        v.server_url == Some(job.server.url),
        v.original_api_request == Some(job.request),
        k > 1,
        run[k - 1] matches NextView::Ask(_, e) && e is ReadTimer,
        replies[k - 1] matches ReplyView::Millis(n) ==> v.ms_taken == Some(n),
        !(replies[k - 1] is Millis) ==> v.ms_taken is None,
        exists|p: int|
            {
                &&& 0 <= p < k - 1
                &&& #[trigger] run[p] matches NextView::Ask(_, e)
                &&& e is PostGenerate
                &&& streamed(replies, p) matches Some(result)
                &&& match result {
                    Ok(t) => v.response == t,
                    Err(_) => v.response.len() == 0,
                }
            },
{
    lemma_is_job(run, replies, job);
    lemma_counts(run, job, k);
    lemma_comes_from(run, replies, job, k - 1);
    lemma_counts(run, job, k - 1);
    lemma_comes_from(run, replies, job, k - 2);
    let p = lemma_streams(run, replies, job, k - 1);
    assert(run[p] is Ask);
}

/// Whether a reply to a job is that of the world, as far as it concerns the key store and answers
/// written and read. Servers, clusters and file stores may reply anything.
pub open spec fn reply_fits<N>(w: World, m: Store, e: EffectView<N>, r: ReplyView<N>) -> bool {
    match e {
        EffectView::Exists(_) => r == reply_to(w, m, e),
        EffectView::Get(_) => r == reply_to(w, m, e),
        EffectView::Put { .. } => r == reply_to(w, m, e),
        EffectView::EncodeResponse(_) => r == reply_to(w, m, e),
        EffectView::DecodeResponse(_) => r == reply_to(w, m, e),
        _ => true,
    }
}

/// Whether `run` is a job that comes to its end in a world, and `stores` is what the key store
/// holds from moment to moment.
pub open spec fn job_in_world<N>(
    w: World,
    run: Seq<JobMoment<N>>,
    replies: Seq<ReplyView<N>>,
    stores: Seq<Store>,
    job: LlmJobView,
) -> bool {
    &&& is_job_with(run, replies, job)
    &&& run.last() is Finish
    &&& stores.len() == run.len()
    &&& forall|i: int|
        0 <= i < run.len() - 1 ==> {
            &&& #[trigger] stores[i + 1] == store_after(stores[i], run[i]->Ask_1)
            &&& reply_fits(w, stores[i], run[i]->Ask_1, replies[i])
        }
}

/// Whether a job that comes to its end can make `after` of a key store that holds `m`.
pub open spec fn job_outcome<N>(w: World, m: Store, job: LlmJobView, after: Store) -> bool {
    exists|run: Seq<JobMoment<N>>, replies: Seq<ReplyView<N>>, stores: Seq<Store>| #[trigger]
        job_in_world(w, run, replies, stores, job) && stores[0] == m && stores.last() == after
}

/// A job that comes to its end leaves the finished answer, written out, under its id.
pub proof fn jobs_leave_their_answer<N>(
    w: World,
    run: Seq<JobMoment<N>>,
    replies: Seq<ReplyView<N>>,
    stores: Seq<Store>,
    job: LlmJobView,
)
    requires
        job_in_world(w, run, replies, stores, job),
    ensures
        exists|p: int, k: int, d: Seq<char>|
            {
                &&& #[trigger] answers_with(run, replies, job, p, k, d)
                &&& stores.last().contains_key(uuid_text(job.id))
                &&& stores.last()[uuid_text(job.id)] == d
                &&& d == (w.encode)(
                    finished_answer(
                        job,
                        text_streamed(streamed(replies, p)->0),
                        time_taken(replies[k - 1]),
                    ),
                )
            },
{
    the_finished_answer_is_kept(run, replies, job);
    let n = run.len() as int;
    let (p, k, d) = choose|p: int, k: int, d: Seq<char>|
        {
            &&& #[trigger] answers_with(run, replies, job, p, k, d)
            &&& k < run.len() - 3
            &&& keeps(job, d, run[run.len() - 3]->Ask_1)
        };
    lemma_is_job(run, replies, job);
    finished_jobs_free_their_place(run, job);
    assert(stores[k + 1] == store_after(stores[k], run[k]->Ask_1));
    assert(stores[n - 3 + 1] == store_after(stores[n - 3], run[n - 3]->Ask_1));
    assert(stores[n - 2 + 1] == store_after(stores[n - 2], run[n - 2]->Ask_1));
    assert(answers_with(run, replies, job, p, k, d));
}

/// Whether a job writes under a key, if at all: its id, and the keys of embeddings.
pub open spec fn own_key(job: LlmJobView, key: Seq<char>) -> bool {
    key == uuid_text(job.id) || exists|h: Seq<char>|
        key == #[trigger] embed_key(h, job.embedding_model)
}

/// Whether two stores hold the same under a key.
pub open spec fn same_under(a: Store, b: Store, key: Seq<char>) -> bool {
    &&& a.contains_key(key) <==> b.contains_key(key)
    &&& a.contains_key(key) ==> a[key] == b[key]
}

proof fn lemma_untouched<N>(
    w: World,
    run: Seq<JobMoment<N>>,
    replies: Seq<ReplyView<N>>,
    stores: Seq<Store>,
    job: LlmJobView,
    key: Seq<char>,
    i: int,
)
    requires
        job_in_world(w, run, replies, stores, job),
        !own_key(job, key),
        0 <= i < stores.len(),
    ensures
        same_under(stores[0], stores[i], key),
    decreases i,
{
    if i > 0 {
        lemma_untouched(w, run, replies, stores, job, key, i - 1);
        lemma_is_job(run, replies, job);
        lemma_asks(run, job, i - 1);
        jobs_write_their_own_keys(run, job, i - 1);
        assert(stores[i - 1 + 1] == store_after(stores[i - 1], run[i - 1]->Ask_1));
    }
}

/// What a job that comes to its end makes of the key store: its finished answer, written out,
/// stands under its id, and nothing is changed under any key but its own.
pub proof fn jobs_answer_and_touch_nothing_else<N>(
    w: World,
    m: Store,
    job: LlmJobView,
    after: Store,
)
    requires
        job_outcome::<N>(w, m, job, after),
    ensures
        after.contains_key(uuid_text(job.id)),
        exists|response: Seq<char>, ms: Option<u128>|
            after[uuid_text(job.id)] == (w.encode)(#[trigger] finished_answer(job, response, ms)),
        forall|key: Seq<char>| !own_key(job, key) ==> #[trigger] same_under(m, after, key),
{
    let (run, replies, stores) = choose|
        run: Seq<JobMoment<N>>,
        replies: Seq<ReplyView<N>>,
        stores: Seq<Store>,
    | #[trigger]
        job_in_world(w, run, replies, stores, job) && stores[0] == m && stores.last() == after;
    jobs_leave_their_answer(w, run, replies, stores, job);
    assert forall|key: Seq<char>| !own_key(job, key) implies #[trigger] same_under(
        m,
        after,
        key,
    ) by {
        lemma_untouched(w, run, replies, stores, job, key, stores.len() - 1);
    }
}

/// Whether the answer was put into the index of a cluster by moment `i`.
pub open spec fn inserted_by<N>(run: Seq<JobMoment<N>>, i: int, cluster: usize) -> bool {
    exists|j: int|
        0 <= j <= i && (#[trigger] run[j] matches NextView::Ask(_, EffectView::Insert {
            cluster: c,
            ..
        }) && c == cluster)
}

/// The clusters whose index a job has put its answer into, counted from the first.
spec fn clusters_done<N>(s: LlmView<N>) -> usize {
    match s.phase {
        LlmPhaseView::Inserting { next, .. } => next,
        LlmPhaseView::Sealing { .. } => s.job.clusters,
        LlmPhaseView::KeepingEmbedding { .. } => s.job.clusters,
        LlmPhaseView::KeepingAnswer => s.job.clusters,
        LlmPhaseView::Releasing => s.job.clusters,
        _ => 0,
    }
}

/// What one step of a job adds to the clusters done.
proof fn lemma_step_clusters<N>(s: LlmView<N>, r: ReplyView<N>)
    requires
        clusters_done(s) <= s.job.clusters,
    ensures
        llm_next(s, r) matches NextView::Ask(t, e) ==> {
            &&& t.job == s.job
            &&& clusters_done(t) <= t.job.clusters
            &&& {
                ||| clusters_done(t) <= clusters_done(s)
                ||| clusters_done(t) == clusters_done(s) + 1 && (
                e matches EffectView::Insert { cluster, .. } && cluster == clusters_done(s))
            }
        },
{
}

proof fn lemma_clusters<N>(run: Seq<JobMoment<N>>, job: LlmJobView, i: int)
    requires
        is_job(run, job),
        0 <= i < run.len(),
    ensures
        run[i] matches NextView::Ask(s, _) ==> {
            &&& s.job == job
            &&& clusters_done(s) <= job.clusters
            &&& forall|c: usize| c < clusters_done(s) ==> #[trigger] inserted_by(run, i, c)
        },
    decreases i,
{
    if i > 0 {
        lemma_clusters(run, job, i - 1);
        let r = lemma_reply(run, job, i - 1);
        let s = run[i - 1]->Ask_0;
        lemma_step_clusters(s, r);
        if let NextView::Ask(t, _) = run[i] {
            assert forall|c: usize| c < clusters_done(t) implies #[trigger] inserted_by(
                run,
                i,
                c,
            ) by {
                if c < clusters_done(s) {
                    assert(inserted_by(run, i - 1, c));
                } else {
                    assert(run[i] matches NextView::Ask(_, EffectView::Insert { cluster, .. })
                        && cluster == c);
                }
            }
        }
    }
}

/// A job that comes to its end has put its answer into the index of every cluster.
pub proof fn answers_reach_every_cluster<N>(run: Seq<JobMoment<N>>, job: LlmJobView, c: usize)
    requires
        is_job(run, job),
        run.last() is Finish,
        c < job.clusters,
    ensures
        inserted_by(run, run.len() - 2, c),
{
    finished_jobs_free_their_place(run, job);
    lemma_counts(run, job, run.len() - 2);
    lemma_clusters(run, job, run.len() - 2);
}

/// Whatever a job writes to the key store, it writes for the time that it was given, under its id
/// or under the key of an embedding; and it removes nothing.
pub proof fn jobs_write_their_own_keys<N>(run: Seq<JobMoment<N>>, job: LlmJobView, i: int)
    requires
        is_job(run, job),
        0 <= i < run.len(),
    ensures
        run[i] matches NextView::Ask(s, e) ==> {
            &&& e matches EffectView::Put { key, ttl, .. } ==> {
                &&& ttl == job.ttl
                &&& key == uuid_text(job.id) || exists|h: Seq<char>|
                    key == #[trigger] embed_key(h, job.embedding_model)
            }
            &&& !(e is Delete)
        },
{
    lemma_embeds_for_job(run, job, i);
}

/// Whether the work for embeddings inside a job is done with the id and the time of the job.
spec fn embeds_for_job<N>(s: LlmView<N>) -> bool {
    &&& s.phase matches LlmPhaseView::Contextualizing(e) ==> e.id == s.job.id && e.ttl == s.job.ttl
    &&& s.phase matches LlmPhaseView::Embedding { embed, .. } ==> embed.id == s.job.id
        && embed.ttl == s.job.ttl
}

proof fn lemma_step_embeds<N>(s: LlmView<N>, r: ReplyView<N>)
    requires
        embeds_for_job(s),
    ensures
        llm_next(s, r) matches NextView::Ask(t, e) ==> {
            &&& t.job == s.job
            &&& embeds_for_job(t)
            &&& e matches EffectView::Put { key, ttl, .. } ==> {
                &&& ttl == s.job.ttl
                &&& key == uuid_text(s.job.id) || (s.phase matches LlmPhaseView::Sealing { data }
                    && key == embed_key(hash_text(data), s.job.embedding_model))
            }
            &&& !(e is Delete)
        },
{
}

proof fn lemma_embeds_for_job<N>(run: Seq<JobMoment<N>>, job: LlmJobView, i: int)
    requires
        is_job(run, job),
        0 <= i < run.len(),
    ensures
        run[i] matches NextView::Ask(s, e) ==> {
            &&& s.job == job
            &&& embeds_for_job(s)
            &&& e matches EffectView::Put { key, ttl, .. } ==> {
                &&& ttl == job.ttl
                &&& key == uuid_text(job.id) || exists|h: Seq<char>|
                    key == #[trigger] embed_key(h, job.embedding_model)
            }
            &&& !(e is Delete)
        },
    decreases i,
{
    if i > 0 {
        lemma_embeds_for_job(run, job, i - 1);
        let r = lemma_reply(run, job, i - 1);
        let s = run[i - 1]->Ask_0;
        lemma_step_embeds(s, r);
    }
}

/// A prompt that is not to be put into context is sent to the server just as it came.
pub proof fn plain_prompts_are_sent_unchanged<N>(s: LlmView<N>, r: ReplyView<N>)
    requires
        s.phase is Starting,
        s.job.request.contextualize != Some(true),
    ensures
        llm_next(s, r) == JobMoment::<N>::Ask(
            LlmView { phase: LlmPhaseView::Posting, ..s },
            EffectView::PostGenerate {
                url: generate_url(s.job.server.url),
                body: s.job.request,
            },
        ),
{
}

/// The conversation in the hits of one search, behind what there was before; nothing where a hit
/// does not hold an answer with its request.
pub open spec fn context_of(
    texts: Seq<Seq<char>>,
    decode: spec_fn(Seq<char>) -> Result<ApiResponseView, Seq<char>>,
    before: Seq<char>,
) -> Option<Seq<char>>
    decreases texts.len(),
{
    if texts.len() == 0 {
        Some(before)
    } else {
        match decode(texts[0]) {
            Ok(v) => match v.original_api_request {
                Some(request) => context_of(
                    texts.skip(1),
                    decode,
                    context_with(before, request.prompt, v.response),
                ),
                None => None,
            },
            Err(_) => None,
        }
    }
}

/// The conversation in the hits of all clusters from `next` on, in order.
pub open spec fn whole_context(
    clusters: usize,
    hits: spec_fn(usize) -> Seq<Seq<char>>,
    decode: spec_fn(Seq<char>) -> Result<ApiResponseView, Seq<char>>,
    next: usize,
    before: Seq<char>,
) -> Option<Seq<char>>
    decreases clusters - next,
{
    if next < clusters {
        match context_of(hits(next), decode, before) {
            Some(now) => whole_context(clusters, hits, decode, (next + 1) as usize, now),
            None => None,
        }
    } else {
        Some(before)
    }
}

/// The reply to a search or to the parsing of a hit.
pub open spec fn reply_found<N>(
    hits: spec_fn(usize) -> Seq<Seq<char>>,
    decode: spec_fn(Seq<char>) -> Result<ApiResponseView, Seq<char>>,
    e: EffectView<N>,
) -> ReplyView<N> {
    match e {
        EffectView::Search { cluster, .. } => ReplyView::Found(hits(cluster)),
        EffectView::DecodeResponse(t) => match decode(t) {
            Ok(v) => ReplyView::Response(v),
            Err(why) => ReplyView::Failed(why),
        },
        _ => ReplyView::Failed(Seq::empty()),
    }
}

/// Whether a job is gathering earlier conversation.
pub open spec fn is_gathering<N>(n: JobMoment<N>) -> bool {
    n matches NextView::Ask(s, _) && (s.phase is Searching || s.phase is Reading)
}

/// Whether `run` gathers earlier conversation to its end, where the clusters find `hits`.
pub open spec fn gathers_context<N>(
    run: Seq<JobMoment<N>>,
    hits: spec_fn(usize) -> Seq<Seq<char>>,
    decode: spec_fn(Seq<char>) -> Result<ApiResponseView, Seq<char>>,
) -> bool {
    &&& run.len() > 0
    &&& forall|i: int|
        0 <= i < run.len() - 1 ==> (#[trigger] run[i] matches NextView::Ask(s, e) && is_gathering(
            run[i],
        ) && run[i + 1] == llm_next(s, reply_found(hits, decode, e)))
    &&& !is_gathering(run.last())
}

#[verifier::rlimit(50)]
proof fn lemma_gathers<N>(
    run: Seq<JobMoment<N>>,
    hits: spec_fn(usize) -> Seq<Seq<char>>,
    decode: spec_fn(Seq<char>) -> Result<ApiResponseView, Seq<char>>,
    job: LlmJobView,
    g: GatheringView<N>,
    texts: Seq<Seq<char>>,
    i: int,
)
    requires
        gathers_context(run, hits, decode),
        0 <= i < run.len(),
        run[i] == llm_hits::<N>(job, g, texts),
    ensures
        match context_of(texts, decode, g.context) {
            Some(now) => match whole_context(job.clusters, hits, decode, g.next, now) {
                Some(all) => run.last() == llm_post::<N>(
                    job,
                    prompt_with(all, job.request.prompt),
                ),
                None => run.last() is Halt,
            },
            None => run.last() is Halt,
        },
    decreases run.len() - i,
{
    if texts.len() > 0 {
        assert(is_gathering(run[i]));
        assert(i < run.len() - 1);
        match decode(texts[0]) {
            Ok(v) => match v.original_api_request {
                Some(request) => {
                    let h = GatheringView {
                        context: context_with(g.context, request.prompt, v.response),
                        ..g
                    };
                    assert(run[i + 1] == llm_hits::<N>(job, h, texts.skip(1)));
                    lemma_gathers(run, hits, decode, job, h, texts.skip(1), i + 1);
                },
                None => {
                    assert(run[i + 1] is Halt);
                    lemma_gathering_ends(run, hits, decode, i + 1);
                },
            },
            Err(_) => {
                assert(run[i + 1] is Halt);
                lemma_gathering_ends(run, hits, decode, i + 1);
            },
        }
    } else if g.next < job.clusters {
        assert(is_gathering(run[i]));
        assert(i < run.len() - 1);
        let h = GatheringView { next: (g.next + 1) as usize, ..g };
        assert(run[i + 1] == llm_hits::<N>(job, h, hits(g.next)));
        lemma_gathers(run, hits, decode, job, h, hits(g.next), i + 1);
    } else {
        lemma_gathering_ends(run, hits, decode, i);
    }
}

/// A moment that does not gather is the last.
proof fn lemma_gathering_ends<N>(
    run: Seq<JobMoment<N>>,
    hits: spec_fn(usize) -> Seq<Seq<char>>,
    decode: spec_fn(Seq<char>) -> Result<ApiResponseView, Seq<char>>,
    i: int,
)
    requires
        gathers_context(run, hits, decode),
        0 <= i < run.len(),
        !is_gathering(run[i]),
    ensures
        run.last() == run[i],
{
    if i < run.len() - 1 {
        assert(is_gathering(run[i]));
    }
}

/// A prompt that is to be put into context is sent with the conversation that every cluster finds
/// similar, the clusters in order and the hits of each in order; or the job stops at a hit that
/// does not hold an answer with its request.
pub proof fn context_comes_from_every_cluster<N>(
    run: Seq<JobMoment<N>>,
    hits: spec_fn(usize) -> Seq<Seq<char>>,
    decode: spec_fn(Seq<char>) -> Result<ApiResponseView, Seq<char>>,
    job: LlmJobView,
    embeddings: Seq<Seq<N>>,
)
    requires
        gathers_context(run, hits, decode),
        run[0] == llm_search::<N>(
            job,
            GatheringView { embeddings, next: 0, context: Seq::empty() },
        ),
    ensures
        match whole_context(job.clusters, hits, decode, 0, Seq::empty()) {
            Some(all) => run.last() == llm_post::<N>(job, prompt_with(all, job.request.prompt)),
            None => run.last() is Halt,
        },
{
    let g = GatheringView { embeddings, next: 0, context: Seq::empty() };
    assert(run[0] == llm_hits::<N>(job, g, Seq::empty()));
    lemma_gathers(run, hits, decode, job, g, Seq::empty(), 0);
}

/// How one hit stands in the conversation that is sent: a blank line, the prompt, a line break and
/// the answer.
pub open spec fn told_again(
    decode: spec_fn(Seq<char>) -> Result<ApiResponseView, Seq<char>>,
    hit: Seq<char>,
) -> Seq<char> {
    " \n\n "@ + decode(hit)->Ok_0.original_api_request->Some_0.prompt + " \n "@
        + decode(hit)->Ok_0.response
}

/// All hits of the clusters from `next` on, in order.
pub open spec fn hits_from(
    clusters: usize,
    hits: spec_fn(usize) -> Seq<Seq<char>>,
    next: usize,
) -> Seq<Seq<char>> {
    Seq::new((clusters - next) as nat, |c: int| hits((next + c) as usize)).flatten()
}

proof fn lemma_context_of(
    texts: Seq<Seq<char>>,
    decode: spec_fn(Seq<char>) -> Result<ApiResponseView, Seq<char>>,
    before: Seq<char>,
)
    requires
        forall|i: int|
            0 <= i < texts.len() ==> decode(#[trigger] texts[i]) is Ok && decode(
                texts[i],
            )->Ok_0.original_api_request is Some,
    ensures
        context_of(texts, decode, before) == Some(
            before + texts.map_values(|t: Seq<char>| told_again(decode, t)).flatten(),
        ),
    decreases texts.len(),
{
    let piece = |t: Seq<char>| told_again(decode, t);
    let all = texts.map_values(piece);
    if texts.len() > 0 {
        let rest = texts.skip(1);
        let v = decode(texts[0])->Ok_0;
        let now = context_with(before, v.original_api_request->Some_0.prompt, v.response);
        assert(decode(texts[0]) is Ok);
        assert forall|i: int| 0 <= i < rest.len() implies decode(#[trigger] rest[i]) is Ok
            && decode(rest[i])->Ok_0.original_api_request is Some by {
            assert(rest[i] == texts[i + 1]);
        }
        lemma_context_of(rest, decode, now);
        assert(all.drop_first() =~= rest.map_values(piece));
        assert(all.first() == told_again(decode, texts[0]));
        assert(now =~= before + told_again(decode, texts[0]));
        assert(now + rest.map_values(piece).flatten() =~= before + all.flatten());
    } else {
        assert(before + all.flatten() =~= before);
    }
}

proof fn lemma_whole_context(
    clusters: usize,
    hits: spec_fn(usize) -> Seq<Seq<char>>,
    decode: spec_fn(Seq<char>) -> Result<ApiResponseView, Seq<char>>,
    next: usize,
    before: Seq<char>,
)
    requires
        next <= clusters,
        forall|c: usize, i: int|
            next <= c < clusters && 0 <= i < hits(c).len() ==> decode(#[trigger] hits(c)[i]) is Ok
                && decode(hits(c)[i])->Ok_0.original_api_request is Some,
    ensures
        whole_context(clusters, hits, decode, next, before) == Some(
            before + hits_from(clusters, hits, next).map_values(
                |t: Seq<char>| told_again(decode, t),
            ).flatten(),
        ),
    decreases clusters - next,
{
    let piece = |t: Seq<char>| told_again(decode, t);
    let all = hits_from(clusters, hits, next);
    if next < clusters {
        let mine = hits(next);
        let more = hits_from(clusters, hits, (next + 1) as usize);
        let lists = Seq::new((clusters - next) as nat, |c: int| hits((next + c) as usize));
        assert(lists.drop_first() =~= Seq::new(
            (clusters - (next + 1)) as nat,
            |c: int| hits(((next + 1) as usize + c) as usize),
        ));
        assert(all =~= mine + more);
        lemma_context_of(mine, decode, before);
        let now = before + mine.map_values(piece).flatten();
        lemma_whole_context(clusters, hits, decode, (next + 1) as usize, now);
        assert(all.map_values(piece) =~= mine.map_values(piece) + more.map_values(piece));
        lemma_flatten_concat(mine.map_values(piece), more.map_values(piece));
        assert(now + more.map_values(piece).flatten() =~= before + all.map_values(
            piece,
        ).flatten());
    } else {
        assert(all =~= Seq::empty());
        assert(before + all.map_values(piece).flatten() =~= before);
    }
}

/// A prompt that is to be put into context is sent with all hits of all clusters before it, the
/// prompt and the answer of each, in the order of the clusters and of their hits; the rest of the
/// request is sent as it came. `x` and `r` are how the embedding of the prompt was got.
pub proof fn context_holds_every_hit<N>(
    run: Seq<JobMoment<N>>,
    hits: spec_fn(usize) -> Seq<Seq<char>>,
    decode: spec_fn(Seq<char>) -> Result<ApiResponseView, Seq<char>>,
    job: LlmJobView,
    x: EmbedView<N>,
    r: ReplyView<N>,
)
    requires
        gathers_context(run, hits, decode),
        embed_next(x, r) is Finish,
        run[0] == llm_next(LlmView { job, phase: LlmPhaseView::Contextualizing(x) }, r),
        forall|c: usize, i: int|
            c < job.clusters && 0 <= i < hits(c).len() ==> decode(#[trigger] hits(c)[i]) is Ok
                && decode(hits(c)[i])->Ok_0.original_api_request is Some,
    ensures
        run.last() matches NextView::Ask(_, EffectView::PostGenerate { url, body }) && {
            &&& url == job.server.url + "generate"@
            &&& body.model == job.request.model
            &&& body.stream == job.request.stream
            &&& body.contextualize == job.request.contextualize
            &&& body.prompt == "For additional context use our previous conversation: "@
                + hits_from(job.clusters, hits, 0).map_values(
                |t: Seq<char>| told_again(decode, t),
            ).flatten() + " \n::: prompt :::\n "@ + job.request.prompt + "\n"@
        },
{
    let embeddings = embed_next(x, r)->Finish_0.embeddings;
    context_comes_from_every_cluster(run, hits, decode, job, embeddings);
    lemma_whole_context(job.clusters, hits, decode, 0, Seq::empty());
    let all = hits_from(job.clusters, hits, 0).map_values(
        |t: Seq<char>| told_again(decode, t),
    ).flatten();
    assert(Seq::<char>::empty() + all =~= all);
}

/// The embedding that a job keeps of its answer is what later work for the embedding of that text
/// reads back, byte for byte and without asking a server: `t` is the embedding as it is written
/// out, and `value` what is kept of it, which opens to `t` again.
pub proof fn kept_embeddings_are_read_back<N>(
    job: LlmJobView,
    data: Seq<char>,
    t: Seq<char>,
    value: Seq<char>,
    server_url: Seq<char>,
    body: EmbedRequestBodyView,
    id: u128,
    ttl: u64,
)
    requires
        sealed(t) == Some(value),
        base64_bytes(value) == Some(encode_utf8(t)),
        body.input == data,
        body.model == job.embedding_model,
        url_accepted(server_url + "embed"@),
    ensures
        ({
            let url = server_url + "embed"@;
            let at = |phase: EmbedPhaseView<N>| EmbedView { url, body, id, ttl, phase };
            let key = embed_key_in(body);
            &&& llm_next(
                LlmView::<N> { job, phase: LlmPhaseView::Sealing { data } },
                ReplyView::Text(t),
            ) == JobMoment::<N>::Ask(
                LlmView { job, phase: LlmPhaseView::KeepingEmbedding { data } },
                EffectView::Put { key, value, ttl: job.ttl },
            )
            &&& embed_start::<N>(server_url, body, id, ttl) == EmbedMoment::<N>::Ask(
                at(EmbedPhaseView::Checking),
                EffectView::Exists(key),
            )
            &&& embed_next(
                at(EmbedPhaseView::Checking),
                ReplyView::Flag(true),
            ) == EmbedMoment::<N>::Ask(at(EmbedPhaseView::Fetching), EffectView::Get(key))
            &&& embed_next(
                at(EmbedPhaseView::Fetching),
                ReplyView::Text(value),
            ) == EmbedMoment::<N>::Ask(
                at(EmbedPhaseView::Decoding),
                EffectView::DecodeEmbedding(encode_utf8(t)),
            )
        }),
{
}

} // verus!
