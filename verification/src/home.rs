//! The pages: what the start page lists, and how it is gathered.

use vstd::prelude::*;

use crate::protocol::{
    text_in, Content, Effect, EffectView, HttpReply, HttpReplyView, Next, NextView, Reply,
    ReplyView,
};
use crate::scan::{scan_keys, scan_next, scan_start, ScanRun, ScanView};
use crate::types::{
    responses_of, servers_of, texts_of, ApiResponse, ApiResponseView, LLMServer, LLMServerView,
};

verus! {

/// What the start page shows: the servers, the requests that wait, and those taken.
#[derive(Debug)]
pub struct HomeTemplate {
    pub possible_servers: Vec<LLMServer>,
    pub queued: Vec<ApiResponse>,
    pub prompts: Vec<ApiResponse>,
}

pub struct HomeTemplateView {
    pub servers: Seq<LLMServerView>,
    pub queued: Seq<ApiResponseView>,
    pub prompts: Seq<ApiResponseView>,
}

impl View for HomeTemplate {
    type V = HomeTemplateView;

    open spec fn view(&self) -> HomeTemplateView {
        HomeTemplateView {
            servers: servers_of(self.possible_servers@),
            queued: responses_of(self.queued@),
            prompts: responses_of(self.prompts@),
        }
    }
}

impl HomeTemplate {
    /// The start page for some servers and requests.
    pub fn new(
        possible_servers: Vec<LLMServer>,
        queued: Vec<ApiResponse>,
        prompts: Vec<ApiResponse>,
    ) -> (r: Self)
        ensures
            r.possible_servers == possible_servers,
            r.queued == queued,
            r.prompts == prompts,
    {
        HomeTemplate { possible_servers, queued, prompts }
    }
}

/// What the page of files shows.
#[derive(Debug)]
pub struct FilesTemplate<F> {
    pub files: Vec<F>,
}

impl<F> FilesTemplate<F> {
    /// The page of some files.
    pub fn new(files: Vec<F>) -> (r: Self)
        ensures
            r.files == files,
    {
        FilesTemplate { files }
    }
}

/// The page of instructions; it shows nothing that changes.
#[derive(Debug, Clone, Copy, PartialEq, Eq, Structural)]
pub struct DocTemplate {}

impl DocTemplate {
    /// The page of instructions.
    pub fn new() -> (r: Self)
        ensures
            r == (DocTemplate {  }),
    {
        DocTemplate {  }
    }
}

/// The answer with a page: always found, and HTML.
pub fn page_reply(html: String) -> (r: HttpReply)
    ensures
        r@ == (HttpReplyView { status: 200, content: Content::Html, body: html@ }),
        r.status == 200,
        r.content == Content::Html,
        r.body == html,
{
    HttpReply { status: 200, content: Content::Html, body: html }
}

/// The two lists of the start page.
#[derive(Debug, Clone, Copy, PartialEq, Eq, Structural)]
pub enum Listing {
    Queued,
    Prompts,
}

/// What is being read for the key in turn.
#[derive(Debug, Clone, Copy, PartialEq, Eq, Structural)]
pub enum ReadStep {
    /// Asked for the id of the answer.
    Id,
    /// Asked for the answer.
    Record,
    /// Having the answer parsed.
    Decoding,
}

/// Where the gathering for the start page stands.
#[derive(Debug)]
pub enum HomePhase {
    /// Collecting the keys of a list.
    Scanning { listing: Listing, scan: ScanRun },
    /// Reading for a key of a list, with the others still to come.
    Reading { listing: Listing, rest: Vec<String>, step: ReadStep },
}

pub enum HomePhaseView {
    Scanning { listing: Listing, scan: ScanView },
    Reading { listing: Listing, rest: Seq<Seq<char>>, step: ReadStep },
}

impl View for HomePhase {
    type V = HomePhaseView;

    open spec fn view(&self) -> HomePhaseView {
        match self {
            HomePhase::Scanning { listing, scan } => HomePhaseView::Scanning {
                listing: *listing,
                scan: scan@,
            },
            HomePhase::Reading { listing, rest, step } => HomePhaseView::Reading {
                listing: *listing,
                rest: texts_of(rest@),
                step: *step,
            },
        }
    }
}

/// The gathering for the start page: what it has so far, and where it stands.
#[derive(Debug)]
pub struct HomeRun {
    pub page: HomeTemplate,
    pub phase: HomePhase,
}

pub struct HomeView {
    pub page: HomeTemplateView,
    pub phase: HomePhaseView,
}

impl View for HomeRun {
    type V = HomeView;

    open spec fn view(&self) -> HomeView {
        HomeView { page: self.page@, phase: self.phase@ }
    }
}

/// The pattern of the keys of a list.
pub open spec fn listing_pattern(l: Listing) -> Seq<char> {
    match l {
        Listing::Queued => "queue-*"@,
        Listing::Prompts => "prompt-*"@,
    }
}

/// A page with one more answer in a list.
pub open spec fn listed(page: HomeTemplateView, l: Listing, v: ApiResponseView) -> HomeTemplateView {
    match l {
        Listing::Queued => HomeTemplateView { queued: page.queued.push(v), ..page },
        Listing::Prompts => HomeTemplateView { prompts: page.prompts.push(v), ..page },
    }
}

/// The reading for the first of some keys of a list; behind the last one the other list, and
/// then the page.
pub open spec fn home_turn<N>(
    page: HomeTemplateView,
    listing: Listing,
    keys: Seq<Seq<char>>,
) -> NextView<HomeView, N, HomeTemplateView> {
    if keys.len() > 0 {
        NextView::Ask(
            HomeView {
                page,
                phase: HomePhaseView::Reading { listing, rest: keys.skip(1), step: ReadStep::Id },
            },
            EffectView::Get(keys[0]),
        )
    } else if listing == Listing::Queued {
        home_list(page, Listing::Prompts)
    } else {
        NextView::Finish(page)
    }
}

/// The start of the collecting of the keys of a list.
pub open spec fn home_list<N>(page: HomeTemplateView, listing: Listing) -> NextView<
    HomeView,
    N,
    HomeTemplateView,
> {
    match scan_start::<N>(listing_pattern(listing)) {
        NextView::Ask(scan, effect) => NextView::Ask(
            HomeView { page, phase: HomePhaseView::Scanning { listing, scan } },
            effect,
        ),
        _ => NextView::Halt(Seq::empty()),
    }
}

/// The start of the gathering for the start page.
pub open spec fn home_start<N>(servers: Seq<LLMServerView>) -> NextView<
    HomeView,
    N,
    HomeTemplateView,
> {
    home_list(
        HomeTemplateView { servers, queued: Seq::empty(), prompts: Seq::empty() },
        Listing::Queued,
    )
}

/// The gathering after a reply. Keys that cannot be collected count as none; a taken request
/// whose answer is gone is left out; any other answer must parse.
pub open spec fn home_next<N>(s: HomeView, r: ReplyView<N>) -> NextView<
    HomeView,
    N,
    HomeTemplateView,
> {
    match s.phase {
        HomePhaseView::Scanning { listing, scan } => match scan_next(scan, r) {
            NextView::Ask(scan, effect) => NextView::Ask(
                HomeView { phase: HomePhaseView::Scanning { listing, scan }, ..s },
                effect,
            ),
            NextView::Finish(keys) => home_turn(s.page, listing, keys),
            NextView::Halt(_) => home_turn(s.page, listing, Seq::empty()),
        },
        HomePhaseView::Reading { listing, rest, step } => match step {
            ReadStep::Id => NextView::Ask(
                HomeView {
                    phase: HomePhaseView::Reading { listing, rest, step: ReadStep::Record },
                    ..s
                },
                EffectView::Get(text_in(r)),
            ),
            ReadStep::Record => if listing == Listing::Prompts && text_in(r).len() == 0 {
                home_turn(s.page, listing, rest)
            } else {
                NextView::Ask(
                    HomeView {
                        phase: HomePhaseView::Reading { listing, rest, step: ReadStep::Decoding },
                        ..s
                    },
                    EffectView::DecodeResponse(text_in(r)),
                )
            },
            ReadStep::Decoding => match r {
                ReplyView::Response(v) => home_turn(listed(s.page, listing, v), listing, rest),
                _ => NextView::Halt("response json is valid"@),
            },
        },
    }
}

/// Starts to gather for the start page.
pub fn home<N>(possible_servers: Vec<LLMServer>) -> (r: Next<HomeRun, N, HomeTemplate>)
    ensures
        r@ == home_start::<N>(servers_of(possible_servers@)),
{
    let page = HomeTemplate::new(possible_servers, Vec::new(), Vec::new());
    assert(responses_of(page.queued@) =~= Seq::<ApiResponseView>::empty());
    assert(responses_of(page.prompts@) =~= Seq::<ApiResponseView>::empty());
    list(page, Listing::Queued)
}

/// Starts to collect the keys of a list.
fn list<N>(page: HomeTemplate, listing: Listing) -> (r: Next<HomeRun, N, HomeTemplate>)
    ensures
        r@ == home_list::<N>(page@, listing),
{
    let pattern = match listing {
        Listing::Queued => "queue-*".to_owned(),
        Listing::Prompts => "prompt-*".to_owned(),
    };
    match scan_keys(pattern) {
        Next::Ask(scan, effect) => Next::Ask(
            HomeRun { page, phase: HomePhase::Scanning { listing, scan } },
            effect,
        ),
        _ => Next::Halt(String::new()),
    }
}

/// Reads for the first of some keys.
fn turn<N>(page: HomeTemplate, listing: Listing, keys: Vec<String>) -> (r: Next<
    HomeRun,
    N,
    HomeTemplate,
>)
    ensures
        r@ == home_turn::<N>(page@, listing, texts_of(keys@)),
{
    let mut rest = keys;
    if rest.len() > 0 {
        let ghost all = texts_of(rest@);
        let key = rest.remove(0);
        assert(texts_of(rest@) =~= all.skip(1));
        Next::Ask(
            HomeRun { page, phase: HomePhase::Reading { listing, rest, step: ReadStep::Id } },
            Effect::Get(key),
        )
    } else {
        match listing {
            Listing::Queued => list(page, Listing::Prompts),
            Listing::Prompts => Next::Finish(page),
        }
    }
}

/// Adds an answer to a list.
fn add_to(page: HomeTemplate, listing: Listing, v: ApiResponse) -> (r: HomeTemplate)
    ensures
        r@ == listed(page@, listing, v@),
{
    let HomeTemplate { possible_servers, queued, prompts } = page;
    let mut queued = queued;
    let mut prompts = prompts;
    match listing {
        Listing::Queued => {
            queued.push(v);
            assert(responses_of(queued@) =~= responses_of(page.queued@).push(v@));
        },
        Listing::Prompts => {
            prompts.push(v);
            assert(responses_of(prompts@) =~= responses_of(page.prompts@).push(v@));
        },
    }
    HomeTemplate::new(possible_servers, queued, prompts)
}

impl HomeRun {
    /// Goes on with a reply.
    pub fn step<N>(self, reply: Reply<N>) -> (r: Next<HomeRun, N, HomeTemplate>)
        ensures
            r@ == home_next(self@, reply@),
    {
        let HomeRun { page, phase } = self;
        match phase {
            HomePhase::Scanning { listing, scan } => match scan.step(reply) {
                Next::Ask(scan, effect) => Next::Ask(
                    HomeRun { page, phase: HomePhase::Scanning { listing, scan } },
                    effect,
                ),
                Next::Finish(found) => turn(page, listing, found.keys),
                Next::Halt(_) => {
                    let none: Vec<String> = Vec::new();
                    assert(texts_of(none@) =~= Seq::<Seq<char>>::empty());
                    turn(page, listing, none)
                },
            },
            HomePhase::Reading { listing, rest, step } => match step {
                ReadStep::Id => Next::Ask(
                    HomeRun {
                        page,
                        phase: HomePhase::Reading { listing, rest, step: ReadStep::Record },
                    },
                    Effect::Get(reply.text()),
                ),
                ReadStep::Record => {
                    let record = reply.text();
                    if listing == Listing::Prompts && record.as_str().is_empty() {
                        turn(page, listing, rest)
                    } else {
                        Next::Ask(
                            HomeRun {
                                page,
                                phase: HomePhase::Reading {
                                    listing,
                                    rest,
                                    step: ReadStep::Decoding,
                                },
                            },
                            Effect::DecodeResponse(record),
                        )
                    }
                },
                ReadStep::Decoding => match reply {
                    Reply::Response(v) => turn(add_to(page, listing, v), listing, rest),
                    _ => Next::Halt("response json is valid".to_owned()),
                },
            },
        }
    }
}

/// The start page begins with the servers and two empty lists; the keys of the waiting requests are
/// collected first, and then those of the taken ones.
pub proof fn both_lists_are_collected<N>(servers: Seq<LLMServerView>, page: HomeTemplateView)
    ensures
        home_start::<N>(servers) matches NextView::Ask(
            s,
            EffectView::Scan { cursor, pattern, count },
        ) && cursor == 0 && pattern == "queue-*"@ && count == 100 && s.page.servers == servers
            && s.page.queued.len() == 0 && s.page.prompts.len() == 0,
        home_turn::<N>(page, Listing::Queued, Seq::empty()) matches NextView::Ask(
            s,
            EffectView::Scan { cursor, pattern, count },
        ) && cursor == 0 && pattern == "prompt-*"@ && count == 100 && s.page == page,
        home_turn::<N>(page, Listing::Prompts, Seq::empty()) matches NextView::Finish(p) && p
            == page,
        listing_pattern(Listing::Queued) == "queue-*"@,
        listing_pattern(Listing::Prompts) == "prompt-*"@,
{
}

/// The page so far, of a gathering that is under way or done.
pub open spec fn page_in<N>(n: NextView<HomeView, N, HomeTemplateView>) -> Option<
    HomeTemplateView,
> {
    match n {
        NextView::Ask(s, _) => Some(s.page),
        NextView::Finish(p) => Some(p),
        NextView::Halt(_) => None,
    }
}

/// What a list has, it keeps: an answer that was parsed is added behind the others of its list, and
/// nothing else on the page changes at any step.
pub proof fn lists_only_grow<N>(s: HomeView, r: ReplyView<N>)
    ensures
        page_in(home_next(s, r)) matches Some(p) ==> {
            &&& p.servers == s.page.servers
            &&& match s.phase {
                HomePhaseView::Reading { listing, step: ReadStep::Decoding, .. } => {
                    &&& r matches ReplyView::Response(v)
                    &&& listing == Listing::Queued ==> p.queued == s.page.queued.push(v)
                        && p.prompts == s.page.prompts
                    &&& listing == Listing::Prompts ==> p.prompts == s.page.prompts.push(v)
                        && p.queued == s.page.queued
                },
                _ => p.queued == s.page.queued && p.prompts == s.page.prompts,
            }
        },
{
}

/// For a key of a list, first the id under the key is asked for, then what is kept under the id,
/// and then that text, whole, is parsed.
pub proof fn keys_lead_to_their_answers<N>(
    page: HomeTemplateView,
    listing: Listing,
    rest: Seq<Seq<char>>,
    keys: Seq<Seq<char>>,
    t: Seq<char>,
)
    requires
        keys.len() > 0,
        t.len() > 0,
    ensures
        home_turn::<N>(page, listing, keys) matches NextView::Ask(s, EffectView::Get(k)) && k
            == keys[0] && (s.phase matches HomePhaseView::Reading { listing: l, rest: left, step }
            && l == listing && left == keys.skip(1) && step == ReadStep::Id),
        home_next::<N>(
            HomeView { page, phase: HomePhaseView::Reading { listing, rest, step: ReadStep::Id } },
            ReplyView::Text(t),
        ) matches NextView::Ask(s, EffectView::Get(k)) && k == t && (
        s.phase matches HomePhaseView::Reading { listing: l, rest: left, step } && l == listing
            && left == rest && step == ReadStep::Record),
        home_next::<N>(
            HomeView {
                page,
                phase: HomePhaseView::Reading { listing, rest, step: ReadStep::Record },
            },
            ReplyView::Text(t),
        ) matches NextView::Ask(s, EffectView::DecodeResponse(x)) && x == t && (
        s.phase matches HomePhaseView::Reading { listing: l, rest: left, step } && l == listing
            && left == rest && step == ReadStep::Decoding),
{
}

/// The gathering fails exactly where an answer that is needed does not parse. Keys that cannot be
/// collected count as none, and a taken request whose answer is gone is passed over.
pub proof fn pages_fail_only_on_answers<N>(s: HomeView, r: ReplyView<N>)
    ensures
        home_next(s, r) is Halt <==> (s.phase matches HomePhaseView::Reading { step, .. } && step
            == ReadStep::Decoding && !(r is Response)),
        s.phase matches HomePhaseView::Scanning { listing, .. } ==> {
            &&& !(r is Page) && listing == Listing::Queued ==> (home_next(s, r) matches
            NextView::Ask(_, EffectView::Scan { pattern, .. }) && pattern == "prompt-*"@)
            &&& !(r is Page) && listing == Listing::Prompts ==> home_next(s, r) is Finish
        },
        s.phase matches HomePhaseView::Reading { listing, rest, step } ==> {
            let gone = step == ReadStep::Record && !(r is Text);
            &&& gone && listing == Listing::Queued ==> (home_next(s, r) matches NextView::Ask(
                _,
                EffectView::DecodeResponse(t),
            ) && t.len() == 0)
            &&& gone && listing == Listing::Prompts && rest.len() > 0 ==> (home_next(s, r) matches
            NextView::Ask(_, EffectView::Get(k)) && k == rest[0])
            &&& gone && listing == Listing::Prompts && rest.len() == 0 ==> home_next(s, r)
                is Finish
        },
{
}

} // verus!
