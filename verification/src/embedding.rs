//! Getting the embedding of a text, from the key store or from a server.

use vstd::prelude::*;
use vstd::seq_lib::lemma_flatten_concat;
use vstd::utf8::encode_utf8;

use crate::keys::{embed_key, embed_key_of, hash_text};
use crate::outside::{
    base64_bytes, base64_decode, base64_encode, base64_text, url_accepted, url_parses, uuid_text,
    uuid_to_string,
};
use crate::protocol::{
    unwrap_fault, unwrap_fault_text, Effect, EffectView, Next, NextView, Reply, ReplyView,
};
use crate::types::{
    rows_of, EmbedRequestBody, EmbedRequestBodyView, EmbeddingResponse, EmbeddingResponseView,
};

verus! {

/// Copies a row of numbers.
fn copy_row<N: Copy>(row: &Vec<N>) -> (r: Vec<N>)
    ensures
        r@ == row@,
{
    let mut r: Vec<N> = Vec::new();
    for i in 0..row.len()
        invariant
            r@ == row@.take(i as int),
    {
        r.push(row[i]);
        assert(row@.take(i + 1) =~= row@.take(i as int).push(row@[i as int]));
    }
    assert(row@.take(row@.len() as int) =~= row@);
    r
}

/// Copies a table of numbers.
pub fn copy_rows<N: Copy>(rows: &Vec<Vec<N>>) -> (r: Vec<Vec<N>>)
    ensures
        rows_of(r@) == rows_of(rows@),
{
    let mut r: Vec<Vec<N>> = Vec::new();
    for i in 0..rows.len()
        invariant
            r@.len() == i,
            i <= rows@.len(),
            forall|j: int| 0 <= j < i ==> (#[trigger] r@[j])@ == rows@[j]@,
    {
        r.push(copy_row(&rows[i]));
    }
    assert(rows_of(r@) =~= rows_of(rows@));
    r
}

/// Some rows behind one another.
pub open spec fn flat<N>(rows: Seq<Seq<N>>) -> Seq<N>
    decreases rows.len(),
{
    if rows.len() == 0 {
        Seq::empty()
    } else {
        flat(rows.drop_last()) + rows.last()
    }
}

/// Puts the rows of a table behind one another.
pub fn flatten<N: Copy>(rows: &Vec<Vec<N>>) -> (r: Vec<N>)
    ensures
        r@ == flat(rows_of(rows@)),
        r@ == rows_of(rows@).flatten(),
{
    let mut r: Vec<N> = Vec::new();
    let ghost all = rows_of(rows@);
    assert(flat(all.take(0)) =~= Seq::<N>::empty());
    for i in 0..rows.len()
        invariant
            all == rows_of(rows@),
            r@ == flat(all.take(i as int)),
    {
        let mut row = copy_row(&rows[i]);
        r.append(&mut row);
        assert(all.take(i + 1).drop_last() =~= all.take(i as int));
        assert(all.take(i + 1).last() == all[i as int]);
    }
    assert(all.take(all.len() as int) =~= all);
    proof {
        flattening_joins_rows(all, Seq::empty());
    }
    r
}

/// How many numbers stand in the rows before a row.
pub open spec fn numbers_before<N>(rows: Seq<Seq<N>>, i: int) -> int
    decreases i,
{
    if i <= 0 {
        0
    } else {
        numbers_before(rows, i - 1) + rows[i - 1].len()
    }
}

/// A table is flattened as sequences of sequences are: one row gives just that row, and two
/// tables behind one another give the numbers of the one and then those of the other.
pub proof fn flattening_joins_rows<N>(a: Seq<Seq<N>>, b: Seq<Seq<N>>)
    ensures
        flat(a) == a.flatten(),
        flat(a + b) == flat(a) + flat(b),
        a.len() == 0 ==> flat(a).len() == 0,
        a.len() == 1 ==> flat(a) == a[0],
{
    lemma_flat_is_flatten(a);
    lemma_flat_is_flatten(b);
    lemma_flat_is_flatten(a + b);
    lemma_flatten_concat(a, b);
    a.lemma_flatten_one_element();
}

proof fn lemma_flat_is_flatten<N>(rows: Seq<Seq<N>>)
    ensures
        flat(rows) == rows.flatten(),
    decreases rows.len(),
{
    if rows.len() > 0 {
        lemma_flat_is_flatten(rows.drop_last());
        rows.drop_last().lemma_flatten_push(rows.last());
        assert(rows.drop_last().push(rows.last()) =~= rows);
    }
}

/// Flattening loses nothing and adds nothing: there are as many numbers as in all rows, and each
/// stands behind those of the rows before its own and those before it in its row.
pub proof fn flattening_keeps_every_number<N>(rows: Seq<Seq<N>>)
    ensures
        flat(rows).len() == numbers_before(rows, rows.len() as int),
        forall|i: int, j: int|
            0 <= i < rows.len() && 0 <= j < rows[i].len() ==> flat(rows)[numbers_before(rows, i)
                + j] == #[trigger] rows[i][j],
    decreases rows.len(),
{
    if rows.len() > 0 {
        let front = rows.drop_last();
        let n = rows.len() - 1;
        flattening_keeps_every_number(front);
        lemma_numbers_before_agree(front, rows, n);
        assert forall|i: int, j: int|
            0 <= i < rows.len() && 0 <= j < rows[i].len() implies flat(rows)[numbers_before(
            rows,
            i,
        ) + j] == #[trigger] rows[i][j] by {
            if i < n {
                lemma_numbers_before_agree(front, rows, i);
                lemma_numbers_before_agree(front, rows, i + 1);
                lemma_numbers_before_grow(front, i + 1, n);
                assert(front[i][j] == rows[i][j]);
                lemma_numbers_before_grow(front, 0, i);
            } else {
                assert(flat(rows)[flat(front).len() + j] == rows.last()[j]);
            }
        }
    }
}

proof fn lemma_numbers_before_agree<N>(front: Seq<Seq<N>>, rows: Seq<Seq<N>>, i: int)
    requires
        rows.len() > 0,
        front == rows.drop_last(),
        0 <= i <= front.len(),
    ensures
        numbers_before(front, i) == numbers_before(rows, i),
    decreases i,
{
    if i > 0 {
        lemma_numbers_before_agree(front, rows, i - 1);
    }
}

proof fn lemma_numbers_before_grow<N>(rows: Seq<Seq<N>>, i: int, j: int)
    requires
        0 <= i <= j,
    ensures
        0 <= numbers_before(rows, i) <= numbers_before(rows, j),
    decreases j,
{
    if i < j {
        lemma_numbers_before_grow(rows, i, j - 1);
    } else if j > 0 {
        lemma_numbers_before_grow(rows, i - 1, j - 1);
    }
}

impl<N: Copy> EmbeddingResponse<N> {
    /// Copies an embedding.
    pub fn copy(&self) -> (r: Self)
        ensures
            r@ == self@,
    {
        EmbeddingResponse { model: self.model.clone(), embeddings: copy_rows(&self.embeddings) }
    }
}

/// Whether the base64 text of so many bytes can be held.
pub open spec fn base64_fits(len: nat) -> bool {
    (len + 2) / 3 * 4 <= isize::MAX
}

/// The base64 text of a text, where it can be held.
pub open spec fn sealed(text: Seq<char>) -> Option<Seq<char>> {
    if base64_fits(encode_utf8(text).len()) {
        Some(base64_text(encode_utf8(text)))
    } else {
        None
    }
}

/// The fault of a text that is too long for base64.
pub open spec fn seal_fault() -> Seq<char> {
    "capacity overflow"@
}

/// Writes a text in base64, where it is not too long for that. What comes out decodes to the
/// text again.
pub fn seal(text: &str) -> (r: Option<String>)
    ensures
        sealed(text@) == match r {
            Some(s) => Some(s@),
            None => None,
        },
        r is Some ==> base64_bytes(r->0@) == Some(encode_utf8(text@)),
{
    let bytes = text.as_bytes();
    let groups: usize = bytes.len() / 3 + (if bytes.len() % 3 == 0 { 0usize } else { 1usize });
    let most: usize = isize::MAX as usize / 4;
    if groups <= most {
        Some(base64_encode(bytes))
    } else {
        None
    }
}

/// Where the work for an embedding stands.
#[derive(Debug)]
pub enum EmbedPhase<N> {
    /// Asked whether the embedding is kept.
    Checking,
    /// Asked for the embedding that is kept.
    Fetching,
    /// Having the embedding that is kept parsed.
    Decoding,
    /// Asked a server.
    Posting,
    /// Having the answer of the server written out.
    Encoding(EmbeddingResponse<N>),
    /// Keeping the answer of the server.
    Storing(EmbeddingResponse<N>),
}

pub enum EmbedPhaseView<N> {
    Checking,
    Fetching,
    Decoding,
    Posting,
    Encoding(EmbeddingResponseView<N>),
    Storing(EmbeddingResponseView<N>),
}

impl<N> View for EmbedPhase<N> {
    type V = EmbedPhaseView<N>;

    open spec fn view(&self) -> EmbedPhaseView<N> {
        match self {
            EmbedPhase::Checking => EmbedPhaseView::Checking,
            EmbedPhase::Fetching => EmbedPhaseView::Fetching,
            EmbedPhase::Decoding => EmbedPhaseView::Decoding,
            EmbedPhase::Posting => EmbedPhaseView::Posting,
            EmbedPhase::Encoding(e) => EmbedPhaseView::Encoding(e@),
            EmbedPhase::Storing(e) => EmbedPhaseView::Storing(e@),
        }
    }
}

/// The work for an embedding: the address asked, the request, the id and the time under which
/// the answer of a server is kept.
#[derive(Debug)]
pub struct EmbedRun<N> {
    pub url: String,
    pub body: EmbedRequestBody,
    pub id: u128,
    pub ttl: u64,
    pub phase: EmbedPhase<N>,
}

pub struct EmbedView<N> {
    pub url: Seq<char>,
    pub body: EmbedRequestBodyView,
    pub id: u128,
    pub ttl: u64,
    pub phase: EmbedPhaseView<N>,
}

impl<N> View for EmbedRun<N> {
    type V = EmbedView<N>;

    open spec fn view(&self) -> EmbedView<N> {
        EmbedView {
            url: self.url@,
            body: self.body@,
            id: self.id,
            ttl: self.ttl,
            phase: self.phase@,
        }
    }
}

/// The key of the embedding that is asked for.
pub open spec fn embed_key_in(body: EmbedRequestBodyView) -> Seq<char> {
    embed_key(hash_text(body.input), body.model)
}

/// The start of the work for an embedding by the server at `server_url`.
pub open spec fn embed_start<N>(
    server_url: Seq<char>,
    body: EmbedRequestBodyView,
    id: u128,
    ttl: u64,
) -> NextView<EmbedView<N>, N, EmbeddingResponseView<N>> {
    let url = server_url + "embed"@;
    if url_accepted(url) {
        NextView::Ask(
            EmbedView { url, body, id, ttl, phase: EmbedPhaseView::Checking },
            EffectView::Exists(embed_key_in(body)),
        )
    } else {
        NextView::Halt("URL"@)
    }
}

/// The work for an embedding after a reply: one that is kept is read back, and else a server is
/// asked, whose answer is kept under the id of the request.
pub open spec fn embed_next<N>(s: EmbedView<N>, r: ReplyView<N>) -> NextView<
    EmbedView<N>,
    N,
    EmbeddingResponseView<N>,
> {
    match s.phase {
        EmbedPhaseView::Checking => match r {
            ReplyView::Flag(true) => NextView::Ask(
                EmbedView { phase: EmbedPhaseView::Fetching, ..s },
                EffectView::Get(embed_key_in(s.body)),
            ),
            _ => NextView::Ask(
                EmbedView { phase: EmbedPhaseView::Posting, ..s },
                EffectView::PostEmbed { url: s.url, request: s.body },
            ),
        },
        EmbedPhaseView::Fetching => match r {
            ReplyView::Text(t) => match base64_bytes(t) {
                Some(b) => NextView::Ask(
                    EmbedView { phase: EmbedPhaseView::Decoding, ..s },
                    EffectView::DecodeEmbedding(b),
                ),
                None => NextView::Halt("decode proper"@),
            },
            _ => NextView::Halt("get response cache key"@),
        },
        EmbedPhaseView::Decoding => match r {
            ReplyView::Embedding(e) => NextView::Finish(e),
            _ => NextView::Halt("valid json"@),
        },
        EmbedPhaseView::Posting => match r {
            ReplyView::Embedding(e) => NextView::Ask(
                EmbedView { phase: EmbedPhaseView::Encoding(e), ..s },
                EffectView::EncodeEmbedding(e),
            ),
            ReplyView::Refused(_) => NextView::Halt("works"@),
            _ => NextView::Halt("Failed to send request"@),
        },
        EmbedPhaseView::Encoding(e) => match r {
            ReplyView::Text(t) => match sealed(t) {
                Some(v) => NextView::Ask(
                    EmbedView { phase: EmbedPhaseView::Storing(e), ..s },
                    EffectView::Put { key: uuid_text(s.id), value: v, ttl: s.ttl },
                ),
                None => NextView::Halt(seal_fault()),
            },
            _ => NextView::Halt(unwrap_fault()),
        },
        EmbedPhaseView::Storing(e) => match r {
            ReplyView::Done => NextView::Finish(e),
            _ => NextView::Halt("set val"@),
        },
    }
}

/// Starts the work for an embedding by the server at `server_url`.
pub fn embedding_request<N>(
    server_url: &String,
    body: EmbedRequestBody,
    id: u128,
    ttl: u64,
) -> (r: Next<EmbedRun<N>, N, EmbeddingResponse<N>>)
    ensures
        r@ == embed_start::<N>(server_url@, body@, id, ttl),
{
    let url = server_url.clone().concat("embed");
    if url_parses(url.as_str()) {
        let key = embed_key_of(body.input.as_str(), body.model.as_str());
        Next::Ask(
            EmbedRun { url, body, id, ttl, phase: EmbedPhase::Checking },
            Effect::Exists(key),
        )
    } else {
        Next::Halt("URL".to_owned())
    }
}

impl<N: Copy> EmbedRun<N> {
    /// Goes on with a reply.
    pub fn step(self, reply: Reply<N>) -> (r: Next<EmbedRun<N>, N, EmbeddingResponse<N>>)
        ensures
            r@ == embed_next(self@, reply@),
    {
        let EmbedRun { url, body, id, ttl, phase } = self;
        match phase {
            EmbedPhase::Checking => match reply {
                Reply::Flag(true) => {
                    let key = embed_key_of(body.input.as_str(), body.model.as_str());
                    Next::Ask(
                        EmbedRun { url, body, id, ttl, phase: EmbedPhase::Fetching },
                        Effect::Get(key),
                    )
                },
                _ => {
                    let effect = Effect::PostEmbed { url: url.clone(), request: body.clone() };
                    Next::Ask(EmbedRun { url, body, id, ttl, phase: EmbedPhase::Posting }, effect)
                },
            },
            EmbedPhase::Fetching => match reply {
                Reply::Text(t) => match base64_decode(t.as_str()) {
                    Some(b) => Next::Ask(
                        EmbedRun { url, body, id, ttl, phase: EmbedPhase::Decoding },
                        Effect::DecodeEmbedding(b),
                    ),
                    None => Next::Halt("decode proper".to_owned()),
                },
                _ => Next::Halt("get response cache key".to_owned()),
            },
            EmbedPhase::Decoding => match reply {
                Reply::Embedding(e) => Next::Finish(e),
                _ => Next::Halt("valid json".to_owned()),
            },
            EmbedPhase::Posting => match reply {
                Reply::Embedding(e) => {
                    let effect = Effect::EncodeEmbedding(e.copy());
                    Next::Ask(
                        EmbedRun { url, body, id, ttl, phase: EmbedPhase::Encoding(e) },
                        effect,
                    )
                },
                Reply::Refused(_) => Next::Halt("works".to_owned()),
                _ => Next::Halt("Failed to send request".to_owned()),
            },
            EmbedPhase::Encoding(e) => match reply {
                Reply::Text(t) => match seal(t.as_str()) {
                    Some(v) => Next::Ask(
                        EmbedRun { url, body, id, ttl, phase: EmbedPhase::Storing(e) },
                        Effect::Put { key: uuid_to_string(id), value: v, ttl },
                    ),
                    None => Next::Halt("capacity overflow".to_owned()),
                },
                _ => Next::Halt(unwrap_fault_text()),
            },
            EmbedPhase::Storing(e) => match reply {
                Reply::Done => Next::Finish(e),
                _ => Next::Halt("set val".to_owned()),
            },
        }
    }
}

/// The work for an embedding is at the address for embeddings of the server given, and looks first
/// for what is kept for that very text and model. It starts exactly where the address is a URL.
pub proof fn embeddings_are_looked_for_first<N>(
    server_url: Seq<char>,
    body: EmbedRequestBodyView,
    id: u128,
    ttl: u64,
)
    ensures
        embed_start::<N>(server_url, body, id, ttl) is Ask <==> url_accepted(server_url + "embed"@),
        !(embed_start::<N>(server_url, body, id, ttl) is Finish),
        embed_start::<N>(server_url, body, id, ttl) matches NextView::Ask(s, e) ==> {
            &&& s.url == server_url + "embed"@
            &&& s.body == body
            &&& s.id == id
            &&& s.ttl == ttl
            &&& s.phase is Checking
            &&& e == EffectView::<N>::Exists(embed_key(hash_text(body.input), body.model))
        },
{
}

/// What the work for an embedding asks for: what is kept for the text where something is, and else
/// a server; the answer of a server is written out and kept, in base64, under the id of the request.
/// It is the same work all along.
pub proof fn embeddings_are_got_as_asked<N>(s: EmbedView<N>, r: ReplyView<N>)
    ensures
        embed_next(s, r) matches NextView::Ask(t, e) ==> {
            &&& t.url == s.url
            &&& t.body == s.body
            &&& t.id == s.id
            &&& t.ttl == s.ttl
            &&& match s.phase {
                EmbedPhaseView::Checking => if r == ReplyView::<N>::Flag(true) {
                    &&& t.phase is Fetching
                    &&& e == EffectView::<N>::Get(embed_key(hash_text(s.body.input), s.body.model))
                } else {
                    &&& t.phase is Posting
                    &&& e matches EffectView::PostEmbed { url, request }
                    &&& url == s.url
                    &&& request.model == s.body.model
                    &&& request.input == s.body.input
                    &&& request.stream == s.body.stream
                },
                EmbedPhaseView::Fetching => {
                    &&& t.phase is Decoding
                    &&& r matches ReplyView::Text(x)
                    &&& e matches EffectView::DecodeEmbedding(b)
                    &&& base64_bytes(x) == Some(b)
                },
                EmbedPhaseView::Posting => {
                    &&& r matches ReplyView::Embedding(v)
                    &&& e == EffectView::<N>::EncodeEmbedding(v)
                    &&& t.phase == EmbedPhaseView::<N>::Encoding(v)
                },
                EmbedPhaseView::Encoding(v) => {
                    &&& t.phase == EmbedPhaseView::<N>::Storing(v)
                    &&& r matches ReplyView::Text(x)
                    &&& e matches EffectView::Put { key, value, ttl }
                    &&& key == uuid_text(s.id)
                    &&& value == base64_text(encode_utf8(x))
                    &&& ttl == s.ttl
                },
                _ => false,
            }
        },
{
}

/// An embedding comes out as it was told: by what was parsed of what is kept, or by a server, once
/// its answer is kept. The work fails exactly where a reply is of another kind, where what is kept
/// is no base64, and where the answer is too long for base64.
pub proof fn embeddings_come_out_as_told<N>(s: EmbedView<N>, r: ReplyView<N>)
    ensures
        embed_next(s, r) matches NextView::Finish(v) ==> {
            ||| s.phase is Decoding && r == ReplyView::<N>::Embedding(v)
            ||| s.phase == EmbedPhaseView::<N>::Storing(v) && r is Done
        },
        embed_next(s, r) is Halt <==> match s.phase {
            EmbedPhaseView::Checking => false,
            EmbedPhaseView::Fetching => !(r is Text && base64_bytes(r->Text_0) is Some),
            EmbedPhaseView::Decoding => !(r is Embedding),
            EmbedPhaseView::Posting => !(r is Embedding),
            EmbedPhaseView::Encoding(_) => !(r is Text && (encode_utf8(r->Text_0).len() + 2) / 3 * 4
                <= isize::MAX),
            EmbedPhaseView::Storing(_) => !(r is Done),
        },
        s.phase is Decoding && r is Embedding ==> embed_next(s, r) is Finish,
        s.phase is Storing && r is Done ==> embed_next(s, r) is Finish,
{
}

} // verus!
