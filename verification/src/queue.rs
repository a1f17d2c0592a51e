//! Serving the requests that wait.

use vstd::prelude::*;

use crate::clock::{clock_fault, clock_fault_text, stamp_in};
use crate::keys::{hash_text, prompt_key, prompt_key_of};
use crate::outside::{uuid_from_str, uuid_text, uuid_to_string, uuid_value};
use crate::protocol::{
    count_in, flag_in, text_in, unwrap_fault, unwrap_fault_text, Effect, EffectView, Next,
    NextView, Reply, ReplyView,
};
use crate::request::prompt_key_in;
use crate::scan::{scan_keys, scan_next, scan_start, KeyList, ScanRun, ScanView};
use crate::server::{
    begin_search, draw, draw_fits, pool_of, search_begin, search_next, search_pool, server_of,
    Search, SearchView, ServerSearch, ServerSearchView,
};
use crate::state::{job_of, State, StateView};
use crate::types::{text_of, texts_of, LLMServer, LLMServerView, RequestBody, RequestBodyView};

verus! {

/// A waiting request whose answer has an id.
pub struct Waiting {
    pub request: RequestBody,
    pub id: u128,
}

pub struct WaitingView {
    pub request: RequestBodyView,
    pub id: u128,
}

impl View for Waiting {
    type V = WaitingView;

    open spec fn view(&self) -> WaitingView {
        WaitingView { request: self.request@, id: self.id }
    }
}

/// What is being done about the key in turn.
pub enum TurnPhase {
    /// Asked for the id of the answer.
    ReadingId,
    /// Asked for the pending answer.
    ReadingRecord,
    /// Having the pending answer parsed.
    Decoding,
    /// Asked whether the prompt is answered or running.
    Checking { request: RequestBody, key: Option<String> },
    /// Removing a key whose prompt is answered or running.
    Dropping,
    /// Asked a server for its load.
    Searching { waiting: Waiting, search: ServerSearch },
    /// Running the job.
    Running(Waiting),
    /// Keeping the id of the answer under the prompt.
    Storing,
    /// Removing the key.
    Removing,
}

pub enum TurnPhaseView {
    ReadingId,
    ReadingRecord,
    Decoding,
    Checking { request: RequestBodyView, key: Option<Seq<char>> },
    Dropping,
    Searching { waiting: WaitingView, search: ServerSearchView },
    Running(WaitingView),
    Storing,
    Removing,
}

impl View for TurnPhase {
    type V = TurnPhaseView;

    open spec fn view(&self) -> TurnPhaseView {
        match self {
            TurnPhase::ReadingId => TurnPhaseView::ReadingId,
            TurnPhase::ReadingRecord => TurnPhaseView::ReadingRecord,
            TurnPhase::Decoding => TurnPhaseView::Decoding,
            TurnPhase::Checking { request, key } => TurnPhaseView::Checking {
                request: request@,
                key: match key {
                    Some(k) => Some(k@),
                    None => None,
                },
            },
            TurnPhase::Dropping => TurnPhaseView::Dropping,
            TurnPhase::Searching { waiting, search } => TurnPhaseView::Searching {
                waiting: waiting@,
                search: search@,
            },
            TurnPhase::Running(w) => TurnPhaseView::Running(w@),
            TurnPhase::Storing => TurnPhaseView::Storing,
            TurnPhase::Removing => TurnPhaseView::Removing,
        }
    }
}

/// Where the serving of the waiting requests stands.
pub enum PopPhase {
    /// Reading the clock.
    Clock,
    /// Collecting the keys of the waiting requests.
    Scanning { stamp: String, scan: ScanRun },
    /// Serving the request under a key, with the others still to come.
    Turn { stamp: String, key: String, rest: Vec<String>, phase: TurnPhase },
}

pub enum PopPhaseView {
    Clock,
    Scanning { stamp: Seq<char>, scan: ScanView },
    Turn { stamp: Seq<char>, key: Seq<char>, rest: Seq<Seq<char>>, phase: TurnPhaseView },
}

impl View for PopPhase {
    type V = PopPhaseView;

    open spec fn view(&self) -> PopPhaseView {
        match self {
            PopPhase::Clock => PopPhaseView::Clock,
            PopPhase::Scanning { stamp, scan } => PopPhaseView::Scanning {
                stamp: stamp@,
                scan: scan@,
            },
            PopPhase::Turn { stamp, key, rest, phase } => PopPhaseView::Turn {
                stamp: stamp@,
                key: key@,
                rest: texts_of(rest@),
                phase: phase@,
            },
        }
    }
}

/// The serving of the waiting requests.
pub struct PopRun {
    pub state: State,
    pub phase: PopPhase,
}

pub struct PopView {
    pub state: StateView,
    pub phase: PopPhaseView,
}

impl View for PopRun {
    type V = PopView;

    open spec fn view(&self) -> PopView {
        PopView { state: self.state@, phase: self.phase@ }
    }
}

/// The pattern of the keys of waiting requests.
pub open spec fn queue_pattern() -> Seq<char> {
    "queue-*"@
}

/// The start of the serving of the waiting requests.
pub open spec fn pop_start<N>(state: StateView) -> NextView<PopView, N, ()> {
    NextView::Ask(PopView { state, phase: PopPhaseView::Clock }, EffectView::Now)
}

/// The turn of the first of some keys, or the end where there is none.
pub open spec fn pop_turn<N>(
    state: StateView,
    stamp: Seq<char>,
    keys: Seq<Seq<char>>,
) -> NextView<PopView, N, ()> {
    if keys.len() > 0 {
        NextView::Ask(
            PopView {
                state,
                phase: PopPhaseView::Turn {
                    stamp,
                    key: keys[0],
                    rest: keys.skip(1),
                    phase: TurnPhaseView::ReadingId,
                },
            },
            EffectView::Get(keys[0]),
        )
    } else {
        NextView::Finish(())
    }
}

/// What follows from where the collecting of the keys stands.
pub open spec fn pop_scan<N>(
    state: StateView,
    stamp: Seq<char>,
    n: NextView<ScanView, N, Seq<Seq<char>>>,
) -> NextView<PopView, N, ()> {
    match n {
        NextView::Ask(scan, e) => NextView::Ask(
            PopView { state, phase: PopPhaseView::Scanning { stamp, scan } },
            e,
        ),
        NextView::Finish(keys) => pop_turn(state, stamp, keys),
        NextView::Halt(_) => NextView::Halt("scan available queue keys"@),
    }
}

/// What follows from where the search for a server stands: its next question, the job at the
/// server found, or the turn of the next key.
pub open spec fn pop_search<N>(
    state: StateView,
    stamp: Seq<char>,
    key: Seq<char>,
    rest: Seq<Seq<char>>,
    waiting: WaitingView,
    search: SearchView,
) -> NextView<PopView, N, ()> {
    match search {
        SearchView::Ask(t) => NextView::Ask(
            PopView {
                state,
                phase: PopPhaseView::Turn {
                    stamp,
                    key,
                    rest,
                    phase: TurnPhaseView::Searching { waiting, search: t },
                },
            },
            EffectView::Load(t.candidate.url),
        ),
        SearchView::Found(server) => NextView::Ask(
            PopView {
                state,
                phase: PopPhaseView::Turn {
                    stamp,
                    key,
                    rest,
                    phase: TurnPhaseView::Running(waiting),
                },
            },
            EffectView::Run(job_of(state, waiting.request, server, waiting.id, stamp)),
        ),
        SearchView::Exhausted => pop_turn(state, stamp, rest),
    }
}

/// The id that a pending answer carries.
pub open spec fn id_in(key: Option<Seq<char>>) -> Option<u128> {
    match key {
        Some(k) => uuid_value(k),
        None => uuid_value(Seq::empty()),
    }
}

/// The servers from which the next candidate is drawn on a reply; none where none is drawn.
pub open spec fn pop_pool<N>(s: PopView, r: ReplyView<N>) -> Option<Seq<LLMServerView>> {
    match s.phase {
        PopPhaseView::Turn { phase, .. } => match phase {
            TurnPhaseView::Checking { key, .. } => if !flag_in(r) && id_in(key) is Some {
                Some(s.state.servers)
            } else {
                None
            },
            TurnPhaseView::Searching { search, .. } => search_pool(search, count_in(r)),
            _ => None,
        },
        _ => None,
    }
}

/// The turn of a key after a reply: a request whose prompt is answered or running is dropped
/// from the queue; one that a server has room for is run, kept under its prompt and then
/// removed; any other goes on waiting.
pub open spec fn turn_next<N>(
    state: StateView,
    stamp: Seq<char>,
    key: Seq<char>,
    rest: Seq<Seq<char>>,
    phase: TurnPhaseView,
    r: ReplyView<N>,
    choice: Option<LLMServerView>,
) -> NextView<PopView, N, ()> {
    let now = |phase: TurnPhaseView|
        PopView { state, phase: PopPhaseView::Turn { stamp, key, rest, phase } };
    match phase {
        TurnPhaseView::ReadingId => NextView::Ask(
            now(TurnPhaseView::ReadingRecord),
            EffectView::Get(text_in(r)),
        ),
        TurnPhaseView::ReadingRecord => NextView::Ask(
            now(TurnPhaseView::Decoding),
            EffectView::DecodeResponse(text_in(r)),
        ),
        TurnPhaseView::Decoding => match r {
            ReplyView::Response(v) => match v.original_api_request {
                Some(request) => NextView::Ask(
                    now(TurnPhaseView::Checking { request, key: v.key }),
                    EffectView::Exists(prompt_key_in(request)),
                ),
                None => NextView::Halt(
                    "queued responses should have origin requests available"@,
                ),
            },
            _ => NextView::Halt("unmarshal api request from queue "@ + key),
        },
        TurnPhaseView::Checking { request, key: id_text } => if flag_in(r) {
            NextView::Ask(now(TurnPhaseView::Dropping), EffectView::Delete(key))
        } else {
            match id_in(id_text) {
                Some(id) => pop_search(
                    state,
                    stamp,
                    key,
                    rest,
                    WaitingView { request, id },
                    search_begin(state.servers, choice),
                ),
                None => NextView::Halt("queued response must have a key"@),
            }
        },
        TurnPhaseView::Dropping => match r {
            ReplyView::Done => pop_turn(state, stamp, rest),
            _ => NextView::Halt("removed in flight-already queued key"@),
        },
        TurnPhaseView::Searching { waiting, search } => pop_search(
            state,
            stamp,
            key,
            rest,
            waiting,
            search_next(search, count_in(r), choice),
        ),
        TurnPhaseView::Running(waiting) => NextView::Ask(
            now(TurnPhaseView::Storing),
            EffectView::Put {
                key: prompt_key_in(waiting.request),
                value: uuid_text(waiting.id),
                ttl: state.ttl,
            },
        ),
        TurnPhaseView::Storing => match r {
            ReplyView::Done => NextView::Ask(
                now(TurnPhaseView::Removing),
                EffectView::Delete(key),
            ),
            _ => NextView::Halt(unwrap_fault()),
        },
        TurnPhaseView::Removing => match r {
            ReplyView::Done => pop_turn(state, stamp, rest),
            _ => NextView::Halt("removed"@),
        },
    }
}

/// The serving of the waiting requests after a reply, with the candidate that was drawn where
/// one is.
pub open spec fn pop_next<N>(
    s: PopView,
    r: ReplyView<N>,
    choice: Option<LLMServerView>,
) -> NextView<PopView, N, ()> {
    match s.phase {
        PopPhaseView::Clock => match stamp_in(r) {
            Some(stamp) => pop_scan(s.state, stamp, scan_start::<N>(queue_pattern())),
            None => NextView::Halt(clock_fault()),
        },
        PopPhaseView::Scanning { stamp, scan } => pop_scan(s.state, stamp, scan_next(scan, r)),
        PopPhaseView::Turn { stamp, key, rest, phase } => turn_next(
            s.state,
            stamp,
            key,
            rest,
            phase,
            r,
            choice,
        ),
    }
}

/// Starts to serve the waiting requests.
pub fn pop_queue<N>(state: State) -> (r: Next<PopRun, N, ()>)
    ensures
        r@ == pop_start::<N>(state@),
{
    Next::Ask(PopRun { state, phase: PopPhase::Clock }, Effect::Now)
}

/// Takes the turn of the first of some keys.
fn turn<N>(state: State, stamp: String, keys: Vec<String>) -> (r: Next<PopRun, N, ()>)
    ensures
        r@ == pop_turn::<N>(state@, stamp@, texts_of(keys@)),
{
    let mut rest = keys;
    if rest.len() > 0 {
        let ghost all = texts_of(rest@);
        let key = rest.remove(0);
        assert(texts_of(rest@) =~= all.skip(1));
        let asked = key.clone();
        Next::Ask(
            PopRun {
                state,
                phase: PopPhase::Turn { stamp, key, rest, phase: TurnPhase::ReadingId },
            },
            Effect::Get(asked),
        )
    } else {
        Next::Finish(())
    }
}

/// Goes on with the collecting of the keys.
fn scanned<N>(state: State, stamp: String, next: Next<ScanRun, N, KeyList>) -> (r: Next<
    PopRun,
    N,
    (),
>)
    ensures
        r@ == pop_scan::<N>(state@, stamp@, next@),
{
    match next {
        Next::Ask(scan, e) => Next::Ask(
            PopRun { state, phase: PopPhase::Scanning { stamp, scan } },
            e,
        ),
        Next::Finish(list) => turn(state, stamp, list.keys),
        Next::Halt(_) => Next::Halt("scan available queue keys".to_owned()),
    }
}

/// Asks the next question of a search for a server, or does what its end asks for.
fn searched<N>(
    state: State,
    stamp: String,
    key: String,
    rest: Vec<String>,
    waiting: Waiting,
    search: Search,
) -> (r: Next<PopRun, N, ()>)
    ensures
        r@ == pop_search::<N>(state@, stamp@, key@, texts_of(rest@), waiting@, search@),
{
    match search {
        Search::Ask(search) => {
            let url = search.candidate.url.clone();
            let phase = TurnPhase::Searching { waiting, search };
            Next::Ask(
                PopRun { state, phase: PopPhase::Turn { stamp, key, rest, phase } },
                Effect::Load(url),
            )
        },
        Search::Found(server) => {
            let job = state.job(waiting.request.clone(), server, waiting.id, stamp.clone());
            let phase = TurnPhase::Running(waiting);
            Next::Ask(
                PopRun { state, phase: PopPhase::Turn { stamp, key, rest, phase } },
                Effect::Run(job),
            )
        },
        Search::Exhausted => turn(state, stamp, rest),
    }
}

/// Reads the id that a pending answer carries.
fn read_id(key: &Option<String>) -> (r: Option<u128>)
    ensures
        r == id_in(text_of(*key)),
{
    match key {
        Some(k) => uuid_from_str(k.as_str()),
        None => {
            proof {
                reveal_strlit("");
                assert(""@ =~= Seq::<char>::empty());
            }
            uuid_from_str("")
        },
    }
}

impl PopRun {
    /// The servers from which the next candidate is drawn on a reply; none where none is drawn.
    pub fn pool_after<N>(&self, reply: &Reply<N>) -> (r: Option<Vec<LLMServer>>)
        ensures
            pool_of(r) == pop_pool(self@, reply@),
    {
        match &self.phase {
            PopPhase::Turn { phase, .. } => match phase {
                TurnPhase::Checking { key, .. } => if !reply.flag() && read_id(key).is_some() {
                    Some(self.state.servers())
                } else {
                    None
                },
                TurnPhase::Searching { search, .. } => search.pool_after(reply.count()),
                _ => None,
            },
            _ => None,
        }
    }

    /// Goes on with a reply and, where one is drawn, the next candidate.
    #[verifier::rlimit(50)]
    pub fn resume<N>(self, reply: Reply<N>, choice: Option<LLMServer>) -> (r: Next<PopRun, N, ()>)
        ensures
            r@ == pop_next(self@, reply@, server_of(choice)),
    {
        let PopRun { state, phase } = self;
        match phase {
            PopPhase::Clock => match reply.stamp() {
                Some(stamp) => scanned(state, stamp, scan_keys("queue-*".to_owned())),
                None => Next::Halt(clock_fault_text()),
            },
            PopPhase::Scanning { stamp, scan } => scanned(state, stamp, scan.step(reply)),
            PopPhase::Turn { stamp, key, rest, phase } => {
                match phase {
                    TurnPhase::ReadingId => {
                        let phase = TurnPhase::ReadingRecord;
                        Next::Ask(
                            PopRun { state, phase: PopPhase::Turn { stamp, key, rest, phase } },
                            Effect::Get(reply.text()),
                        )
                    },
                    TurnPhase::ReadingRecord => {
                        let phase = TurnPhase::Decoding;
                        Next::Ask(
                            PopRun { state, phase: PopPhase::Turn { stamp, key, rest, phase } },
                            Effect::DecodeResponse(reply.text()),
                        )
                    },
                    TurnPhase::Decoding => match reply {
                        Reply::Response(v) => match v.original_api_request {
                            Some(request) => {
                                let prompt = prompt_key_of(
                                    request.prompt.as_str(),
                                    request.model.as_str(),
                                );
                                let phase = TurnPhase::Checking { request, key: v.key };
                                Next::Ask(
                                    PopRun {
                                        state,
                                        phase: PopPhase::Turn { stamp, key, rest, phase },
                                    },
                                    Effect::Exists(prompt),
                                )
                            },
                            None => Next::Halt(
                                "queued responses should have origin requests available".to_owned(),
                            ),
                        },
                        _ => Next::Halt(
                            "unmarshal api request from queue ".to_owned().concat(key.as_str()),
                        ),
                    },
                    TurnPhase::Checking { request, key: id_text } => if reply.flag() {
                        let asked = key.clone();
                        let phase = TurnPhase::Dropping;
                        Next::Ask(
                            PopRun { state, phase: PopPhase::Turn { stamp, key, rest, phase } },
                            Effect::Delete(asked),
                        )
                    } else {
                        match read_id(&id_text) {
                            Some(id) => {
                                let search = begin_search(state.servers(), choice);
                                searched(state, stamp, key, rest, Waiting { request, id }, search)
                            },
                            None => Next::Halt("queued response must have a key".to_owned()),
                        }
                    },
                    TurnPhase::Dropping => match reply {
                        Reply::Done => turn(state, stamp, rest),
                        _ => Next::Halt("removed in flight-already queued key".to_owned()),
                    },
                    TurnPhase::Searching { waiting, search } => searched(
                        state,
                        stamp,
                        key,
                        rest,
                        waiting,
                        search.resume(reply.count(), choice),
                    ),
                    TurnPhase::Running(waiting) => {
                        let effect = Effect::Put {
                            key: prompt_key_of(
                                waiting.request.prompt.as_str(),
                                waiting.request.model.as_str(),
                            ),
                            value: uuid_to_string(waiting.id),
                            ttl: state.redis_expiration,
                        };
                        let phase = TurnPhase::Storing;
                        Next::Ask(
                            PopRun { state, phase: PopPhase::Turn { stamp, key, rest, phase } },
                            effect,
                        )
                    },
                    TurnPhase::Storing => match reply {
                        Reply::Done => {
                            let asked = key.clone();
                            let phase = TurnPhase::Removing;
                            Next::Ask(
                                PopRun { state, phase: PopPhase::Turn { stamp, key, rest, phase } },
                                Effect::Delete(asked),
                            )
                        },
                        _ => Next::Halt(unwrap_fault_text()),
                    },
                    TurnPhase::Removing => match reply {
                        Reply::Done => turn(state, stamp, rest),
                        _ => Next::Halt("removed".to_owned()),
                    },
                }
            },
        }
    }

    /// Goes on with a reply, drawing the next candidate where one is needed.
    pub fn step<N>(self, reply: Reply<N>) -> (r: Next<PopRun, N, ()>)
        ensures
            exists|c: Option<LLMServerView>| #[trigger]
                draw_fits(pop_pool(self@, reply@), c) && r@ == pop_next(self@, reply@, c),
    {
        let choice = draw(&self.pool_after(&reply));
        assert(draw_fits(pop_pool(self@, reply@), server_of(choice)));
        self.resume(reply, choice)
    }
}

/// The serving of the waiting requests reads the clock, and then collects all keys that begin as
/// those of waiting requests do.
pub proof fn waiting_requests_are_collected<N>(
    state: StateView,
    r: ReplyView<N>,
    c: Option<LLMServerView>,
)
    ensures
        pop_start::<N>(state) matches NextView::Ask(s, e) && s.state == state && s.phase is Clock
            && e is Now,
        ({
            let n = pop_next(PopView { state, phase: PopPhaseView::Clock }, r, c);
            &&& stamp_in(r) is None <==> n is Halt
            &&& stamp_in(r) matches Some(stamp) ==> (n matches NextView::Ask(
                s,
                EffectView::Scan { cursor, pattern, count },
            ) && cursor == 0 && pattern == "queue-*"@ && count == 100 && s.state == state)
        }),
{
}

/// The keys have their turns one after the other: for each, what is kept under it is asked for
/// first, and when its turn is over the next one has its turn, or all is done.
pub proof fn turns_follow_in_order<N>(
    state: StateView,
    stamp: Seq<char>,
    key: Seq<char>,
    rest: Seq<Seq<char>>,
    phase: TurnPhaseView,
    c: Option<LLMServerView>,
)
    requires
        phase is Dropping || phase is Removing,
    ensures
        ({
            let n = pop_next::<N>(
                PopView { state, phase: PopPhaseView::Turn { stamp, key, rest, phase } },
                ReplyView::Done,
                c,
            );
            &&& rest.len() == 0 ==> n is Finish
            &&& rest.len() > 0 ==> (n matches NextView::Ask(s, EffectView::Get(k)) && k == rest[0]
                && s.state == state && (s.phase matches PopPhaseView::Turn {
                stamp: at,
                key: now,
                rest: left,
                phase: p,
            } && at == stamp && now == rest[0] && left == rest.skip(1) && p is ReadingId))
        }),
{
}

/// What the turn of a key asks for: the id under the key, the record under the id, the record
/// parsed, whether the prompt in it is answered or running; then the key is removed, or a server is
/// searched for, and the request that was recorded is run with the id that was recorded, kept under
/// its prompt and removed from the queue.
pub proof fn turns_ask_for_what_is_recorded<N>(
    state: StateView,
    stamp: Seq<char>,
    key: Seq<char>,
    rest: Seq<Seq<char>>,
    phase: TurnPhaseView,
    r: ReplyView<N>,
    c: Option<LLMServerView>,
)
    ensures
        ({
            let n = pop_next(
                PopView { state, phase: PopPhaseView::Turn { stamp, key, rest, phase } },
                r,
                c,
            );
            let text = match r {
                ReplyView::Text(t) => t,
                _ => Seq::empty(),
            };
            match phase {
                TurnPhaseView::ReadingId => n matches NextView::Ask(_, EffectView::Get(k)) && k
                    == text,
                TurnPhaseView::ReadingRecord => n matches NextView::Ask(
                    _,
                    EffectView::DecodeResponse(t),
                ) && t == text,
                TurnPhaseView::Decoding => {
                    &&& n is Halt <==> !(r is Response
                        && r->Response_0.original_api_request is Some)
                    &&& n matches NextView::Ask(s, e) ==> {
                        &&& r matches ReplyView::Response(v)
                        &&& v.original_api_request matches Some(b)
                        &&& e == EffectView::<N>::Exists(prompt_key(hash_text(b.prompt), b.model))
                        &&& s.phase matches PopPhaseView::Turn {
                            key: k,
                            rest: left,
                            phase: TurnPhaseView::Checking { request, key: id },
                            ..
                        }
                        &&& k == key
                        &&& left == rest
                        &&& request == b
                        &&& id == v.key
                    }
                },
                TurnPhaseView::Checking { key: id, .. } => {
                    &&& r == ReplyView::<N>::Flag(true) ==> (n matches NextView::Ask(_, e) && e
                        == EffectView::<N>::Delete(key))
                    &&& n is Halt <==> r != ReplyView::<N>::Flag(true) && uuid_value(
                        match id {
                            Some(k) => k,
                            None => Seq::empty(),
                        },
                    ) is None
                },
                TurnPhaseView::Running(waiting) => n matches NextView::Ask(
                    _,
                    EffectView::Put { key: k, value, ttl },
                ) && k == prompt_key(hash_text(waiting.request.prompt), waiting.request.model)
                    && value == uuid_text(waiting.id) && ttl == state.ttl,
                TurnPhaseView::Storing => {
                    &&& n is Halt <==> !(r is Done)
                    &&& n matches NextView::Ask(_, e) ==> e == EffectView::<N>::Delete(key)
                },
                TurnPhaseView::Dropping => n is Halt <==> !(r is Done),
                TurnPhaseView::Removing => n is Halt <==> !(r is Done),
                TurnPhaseView::Searching { .. } => !(n is Halt),
            }
        }),
{
}

} // verus!
