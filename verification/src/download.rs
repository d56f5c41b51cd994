//! Fetching the page of an entry: from the cache where it is there, else from the
//! site, waiting longer after each rate-limit response and giving up beyond a ceiling.
//!
//! The fetch is a state machine. Between two steps its driver does the one piece of
//! outside work that the state asks for and reports what came of it.

use crate::parser::{words_view, ParsedWord, ParsedWordView};
use crate::{is_fetchable, valid_link};
use vstd::arithmetic::power2::{lemma_pow2_unfold, lemma_pow2_pos, pow2};
use vstd::prelude::*;

verus! {

/// An entry whose page is in the cache.
#[derive(Debug, PartialEq, Eq)]
pub struct DefinedWord {
    pub name: String,
    pub path: String,
}

/// Mathematical model of a [`DefinedWord`].
pub struct DefinedWordView {
    pub name: Seq<char>,
    pub path: Seq<char>,
}

impl View for DefinedWord {
    type V = DefinedWordView;

    open spec fn view(&self) -> DefinedWordView {
        DefinedWordView { name: self.name@, path: self.path@ }
    }
}

impl Clone for DefinedWord {
    /// A copy with the same model.
    fn clone(&self) -> (copy: DefinedWord)
        ensures
            copy@ == self@,
    {
        DefinedWord { name: self.name.clone(), path: self.path.clone() }
    }
}

/// What every page address starts with.
pub open spec fn wiki_prefix() -> Seq<char> {
    "https://en.wiktionary.org/"@
}

/// The directory of the cache, with its separator.
pub open spec fn defs_prefix() -> Seq<char> {
    "./data/defs/"@
}

/// The suffix of a cached page.
pub open spec fn html_suffix() -> Seq<char> {
    ".html"@
}

/// The address of the page behind a link.
pub open spec fn url_of(link: Seq<char>) -> Seq<char> {
    wiki_prefix() + link
}

/// The cache path of the entry with the given name.
pub open spec fn path_of(name: Seq<char>) -> Seq<char> {
    defs_prefix() + name + html_suffix()
}

/// Two texts that are equal once put between the same two ends are equal.
pub proof fn lemma_framed_text_is_told_apart(
    before: Seq<char>,
    a: Seq<char>,
    b: Seq<char>,
    after: Seq<char>,
)
    requires
        before + a + after == before + b + after,
    ensures
        a == b,
{
    let left = before + a + after;
    let right = before + b + after;
    assert(a.len() == b.len()) by {
        assert(left.len() == before.len() + a.len() + after.len());
        assert(right.len() == before.len() + b.len() + after.len());
    }
    assert forall|i: int| 0 <= i < a.len() implies a[i] == b[i] by {
        assert(left[before.len() + i] == a[i]);
        assert(right[before.len() + i] == b[i]);
    }
    assert(a =~= b);
}

/// One cache path, one name: the pages of two entries lie at the same path only if the
/// entries have the same name.
pub proof fn lemma_path_tells_name(a: Seq<char>, b: Seq<char>)
    requires
        path_of(a) == path_of(b),
    ensures
        a == b,
{
    lemma_framed_text_is_told_apart(defs_prefix(), a, b, html_suffix());
}

/// The address of an entry's page: the site prefix followed by the entry's link.
pub fn word_to_url(word: &ParsedWord) -> (url: String)
    ensures
        url@ == url_of(word.link@),
{
    let mut url = String::from_str("https://en.wiktionary.org/");
    url.append(word.link.as_str());
    url
}

/// The cache path of an entry: it goes by the entry's name, never by its link.
pub fn word_to_path(word: &ParsedWord) -> (path: String)
    ensures
        path@ == path_of(word.name@),
{
    let mut path = String::from_str("./data/defs/");
    path.append(word.name.as_str());
    path.append(".html");
    path
}

/// The wait before the first request, in milliseconds.
pub const INITIAL_DELAY_MS: u64 = 100;

/// The longest wait before a request, in milliseconds.
pub const MAX_DELAY_MS: u64 = 600_000;

/// The status of a rate-limit response.
pub const TOO_MANY_REQUESTS: u16 = 429;

/// Why a fetch ended without a page.
#[derive(Clone, Copy, Debug, PartialEq, Eq, Structural)]
pub enum FetchError {
    /// The entry has no page: its link leads to the search and edit endpoint.
    Skip,
    /// The site still limited the rate when the next wait would pass the ceiling.
    RateLimitExhausted,
    /// The request or the reading of its answer failed on the way.
    TransportFailure,
    /// The site answered with a status that is neither a success nor a rate limit.
    UnexpectedStatus { status: u16 },
    /// The page was retrieved and could not be written to the cache.
    PersistFailure,
}

/// Where a fetch stands: which outside work it waits for.
#[derive(Debug, PartialEq, Eq)]
pub enum FetchState {
    /// For the cache to be looked up.
    Lookup,
    /// For a wait of `delay` milliseconds to end.
    Sleeping { delay: u64 },
    /// For the status of the request made after waiting `delay` milliseconds.
    Requesting { delay: u64 },
    /// For the body of a successful response.
    Reading,
    /// For `body` to be written to the cache.
    Writing { body: String },
    /// For nothing: the fetch has ended.
    Done { outcome: Result<String, FetchError> },
}

/// What the driver reports of the outside work it did.
#[derive(Debug, PartialEq, Eq)]
pub enum FetchEvent {
    /// The cache holds the page.
    CacheHit { contents: String },
    /// The cache does not hold the page.
    CacheMiss,
    /// The wait is over.
    Slept,
    /// The site answered with this status.
    Status { status: u16 },
    /// The body of the response was read.
    Body { text: String },
    /// The request, or the reading of the body, failed.
    TransportFailed,
    /// The page is in the cache.
    Written,
    /// The page could not be written to the cache.
    WriteFailed,
}

/// The outside work that a state asks for.
#[derive(Debug, PartialEq, Eq)]
pub enum FetchAction {
    /// Read the file at `path`; report `CacheHit` or `CacheMiss`.
    ReadCache { path: String },
    /// Wait for `millis` milliseconds; report `Slept`.
    Sleep { millis: u64 },
    /// Request `url`; report `Status` or `TransportFailed`.
    Get { url: String },
    /// Read the body of the response; report `Body` or `TransportFailed`.
    ReadBody,
    /// Write `contents` to the file at `path`; report `Written` or `WriteFailed`.
    WriteCache { path: String, contents: String },
    /// Nothing is left to do: the state holds the outcome.
    Finish,
}

/// Mathematical model of a [`FetchState`].
pub enum FetchStateView {
    Lookup,
    Sleeping { delay: u64 },
    Requesting { delay: u64 },
    Reading,
    Writing { body: Seq<char> },
    Done { outcome: Result<Seq<char>, FetchError> },
}

/// Mathematical model of a [`FetchEvent`].
pub enum FetchEventView {
    CacheHit { contents: Seq<char> },
    CacheMiss,
    Slept,
    Status { status: u16 },
    Body { text: Seq<char> },
    TransportFailed,
    Written,
    WriteFailed,
}

/// Mathematical model of a [`FetchAction`].
pub enum FetchActionView {
    ReadCache { path: Seq<char> },
    Sleep { millis: u64 },
    Get { url: Seq<char> },
    ReadBody,
    WriteCache { path: Seq<char>, contents: Seq<char> },
    Finish,
}

/// The model of the outcome of a fetch.
pub open spec fn outcome_view(outcome: Result<String, FetchError>) -> Result<
    Seq<char>,
    FetchError,
> {
    match outcome {
        Ok(page) => Ok(page@),
        Err(e) => Err(e),
    }
}

impl View for FetchState {
    type V = FetchStateView;

    open spec fn view(&self) -> FetchStateView {
        match self {
            FetchState::Lookup => FetchStateView::Lookup,
            FetchState::Sleeping { delay } => FetchStateView::Sleeping { delay: *delay },
            FetchState::Requesting { delay } => FetchStateView::Requesting { delay: *delay },
            FetchState::Reading => FetchStateView::Reading,
            FetchState::Writing { body } => FetchStateView::Writing { body: body@ },
            FetchState::Done { outcome } => FetchStateView::Done {
                outcome: outcome_view(*outcome),
            },
        }
    }
}

impl View for FetchEvent {
    type V = FetchEventView;

    open spec fn view(&self) -> FetchEventView {
        match self {
            FetchEvent::CacheHit { contents } => FetchEventView::CacheHit { contents: contents@ },
            FetchEvent::CacheMiss => FetchEventView::CacheMiss,
            FetchEvent::Slept => FetchEventView::Slept,
            FetchEvent::Status { status } => FetchEventView::Status { status: *status },
            FetchEvent::Body { text } => FetchEventView::Body { text: text@ },
            FetchEvent::TransportFailed => FetchEventView::TransportFailed,
            FetchEvent::Written => FetchEventView::Written,
            FetchEvent::WriteFailed => FetchEventView::WriteFailed,
        }
    }
}

impl View for FetchAction {
    type V = FetchActionView;

    open spec fn view(&self) -> FetchActionView {
        match self {
            FetchAction::ReadCache { path } => FetchActionView::ReadCache { path: path@ },
            FetchAction::Sleep { millis } => FetchActionView::Sleep { millis: *millis },
            FetchAction::Get { url } => FetchActionView::Get { url: url@ },
            FetchAction::ReadBody => FetchActionView::ReadBody,
            FetchAction::WriteCache { path, contents } => FetchActionView::WriteCache {
                path: path@,
                contents: contents@,
            },
            FetchAction::Finish => FetchActionView::Finish,
        }
    }
}

/// A success status: 200 to 299.
pub open spec fn is_success(status: u16) -> bool {
    200 <= status < 300
}

/// The state after a response with the given status to the request that was made
/// after waiting `delay`. A success leads on to the body. A rate limit doubles the wait,
/// unless the doubled wait would pass the ceiling: then the fetch ends. Every other
/// status ends it at once.
pub open spec fn after_status(delay: u64, status: u16) -> FetchStateView {
    if is_success(status) {
        FetchStateView::Reading
    } else if status != TOO_MANY_REQUESTS {
        FetchStateView::Done { outcome: Err(FetchError::UnexpectedStatus { status }) }
    } else if 2 * delay > MAX_DELAY_MS {
        FetchStateView::Done { outcome: Err(FetchError::RateLimitExhausted) }
    } else {
        FetchStateView::Sleeping { delay: (2 * delay) as u64 }
    }
}

/// The state that follows `state` on `event`, for the entry `word`. An event that does
/// not answer what the state waits for leaves the state as it is.
pub open spec fn next_state(
    word: ParsedWordView,
    state: FetchStateView,
    event: FetchEventView,
) -> FetchStateView {
    match (state, event) {
        (FetchStateView::Lookup, FetchEventView::CacheHit { contents }) => FetchStateView::Done {
            outcome: Ok(contents),
        },
        (FetchStateView::Lookup, FetchEventView::CacheMiss) => if is_fetchable(word.link) {
            FetchStateView::Sleeping { delay: INITIAL_DELAY_MS }
        } else {
            FetchStateView::Done { outcome: Err(FetchError::Skip) }
        },
        (FetchStateView::Sleeping { delay }, FetchEventView::Slept) => FetchStateView::Requesting {
            delay,
        },
        (FetchStateView::Requesting { delay }, FetchEventView::Status { status }) => after_status(
            delay,
            status,
        ),
        (FetchStateView::Requesting { delay }, FetchEventView::TransportFailed) => {
            FetchStateView::Done { outcome: Err(FetchError::TransportFailure) }
        },
        (FetchStateView::Reading, FetchEventView::Body { text }) => FetchStateView::Writing {
            body: text,
        },
        (FetchStateView::Reading, FetchEventView::TransportFailed) => FetchStateView::Done {
            outcome: Err(FetchError::TransportFailure),
        },
        (FetchStateView::Writing { body }, FetchEventView::Written) => FetchStateView::Done {
            outcome: Ok(body),
        },
        (FetchStateView::Writing { body }, FetchEventView::WriteFailed) => FetchStateView::Done {
            outcome: Err(FetchError::PersistFailure),
        },
        _ => state,
    }
}

/// The outside work that `state` asks for, for the entry `word`.
pub open spec fn pending_action(word: ParsedWordView, state: FetchStateView) -> FetchActionView {
    match state {
        FetchStateView::Lookup => FetchActionView::ReadCache { path: path_of(word.name) },
        FetchStateView::Sleeping { delay } => FetchActionView::Sleep { millis: delay },
        FetchStateView::Requesting { delay } => FetchActionView::Get { url: url_of(word.link) },
        FetchStateView::Reading => FetchActionView::ReadBody,
        FetchStateView::Writing { body } => FetchActionView::WriteCache {
            path: path_of(word.name),
            contents: body,
        },
        FetchStateView::Done { outcome } => FetchActionView::Finish,
    }
}

/// The state in which every fetch begins.
pub fn fetch_start() -> (state: FetchState)
    ensures
        state@ == FetchStateView::Lookup,
{
    FetchState::Lookup
}

/// The state after a response with the given status, see [`after_status`].
pub fn fetch_bounce_back(delay: u64, status: u16) -> (state: FetchState)
    ensures
        state@ == after_status(delay, status),
{
    if 200 <= status && status < 300 {
        FetchState::Reading
    } else if status != TOO_MANY_REQUESTS {
        FetchState::Done { outcome: Err(FetchError::UnexpectedStatus { status }) }
    } else if delay > MAX_DELAY_MS / 2 {
        FetchState::Done { outcome: Err(FetchError::RateLimitExhausted) }
    } else {
        FetchState::Sleeping { delay: 2 * delay }
    }
}

/// One step of the fetch of `word`: the state that follows `state` on `event`.
pub fn download_one(word: &ParsedWord, state: FetchState, event: FetchEvent) -> (next: FetchState)
    ensures
        next@ == next_state(word@, state@, event@),
{
    match (state, event) {
        (FetchState::Lookup, FetchEvent::CacheHit { contents }) => FetchState::Done {
            outcome: Ok(contents),
        },
        (FetchState::Lookup, FetchEvent::CacheMiss) => {
            if valid_link(word.link.as_str()) {
                FetchState::Sleeping { delay: INITIAL_DELAY_MS }
            } else {
                FetchState::Done { outcome: Err(FetchError::Skip) }
            }
        },
        (FetchState::Sleeping { delay }, FetchEvent::Slept) => FetchState::Requesting { delay },
        (FetchState::Requesting { delay }, FetchEvent::Status { status }) => fetch_bounce_back(
            delay,
            status,
        ),
        (FetchState::Requesting { delay }, FetchEvent::TransportFailed) => FetchState::Done {
            outcome: Err(FetchError::TransportFailure),
        },
        (FetchState::Reading, FetchEvent::Body { text }) => FetchState::Writing { body: text },
        (FetchState::Reading, FetchEvent::TransportFailed) => FetchState::Done {
            outcome: Err(FetchError::TransportFailure),
        },
        (FetchState::Writing { body }, FetchEvent::Written) => FetchState::Done {
            outcome: Ok(body),
        },
        (FetchState::Writing { body }, FetchEvent::WriteFailed) => FetchState::Done {
            outcome: Err(FetchError::PersistFailure),
        },
        (state, _) => state,
    }
}

/// The outside work that `state` asks for.
pub fn fetch_action(word: &ParsedWord, state: &FetchState) -> (action: FetchAction)
    ensures
        action@ == pending_action(word@, state@),
{
    match state {
        FetchState::Lookup => FetchAction::ReadCache { path: word_to_path(word) },
        FetchState::Sleeping { delay } => FetchAction::Sleep { millis: *delay },
        FetchState::Requesting { delay } => FetchAction::Get { url: word_to_url(word) },
        FetchState::Reading => FetchAction::ReadBody,
        FetchState::Writing { body } => FetchAction::WriteCache {
            path: word_to_path(word),
            contents: body.clone(),
        },
        FetchState::Done { outcome } => FetchAction::Finish,
    }
}

/// The state reached from `state` when the driver reports `events` one after the
/// other.
pub open spec fn run(
    word: ParsedWordView,
    state: FetchStateView,
    events: Seq<FetchEventView>,
) -> FetchStateView
    decreases events.len(),
{
    if events.len() == 0 {
        state
    } else {
        next_state(word, run(word, state, events.drop_last()), events.last())
    }
}

/// The action reaches out to the network.
pub open spec fn is_network(action: FetchActionView) -> bool {
    action is Get || action is ReadBody
}

/// The action changes the cache.
pub open spec fn is_write(action: FetchActionView) -> bool {
    action is WriteCache
}

/// No wait is longer than the ceiling, whether pending or just over.
pub open spec fn within_ceiling(state: FetchStateView) -> bool {
    match state {
        FetchStateView::Sleeping { delay } => delay <= MAX_DELAY_MS,
        FetchStateView::Requesting { delay } => delay <= MAX_DELAY_MS,
        _ => true,
    }
}

/// The state after `n` rate-limit responses in a row, counted from the first wait of a
/// fetch that missed the cache: each response came to the request that followed the
/// wait before it.
pub open spec fn after_rate_limits(n: nat) -> FetchStateView
    decreases n,
{
    if n == 0 {
        FetchStateView::Sleeping { delay: INITIAL_DELAY_MS }
    } else {
        match after_rate_limits((n - 1) as nat) {
            FetchStateView::Sleeping { delay } => after_status(delay, TOO_MANY_REQUESTS),
            ended => ended,
        }
    }
}

/// The events of a fetch that misses the cache and then meets `n` rate-limit
/// responses in a row.
pub open spec fn rate_limited_events(n: nat) -> Seq<FetchEventView>
    decreases n,
{
    if n == 0 {
        seq![FetchEventView::CacheMiss]
    } else {
        rate_limited_events((n - 1) as nat).push(FetchEventView::Slept).push(
            FetchEventView::Status { status: TOO_MANY_REQUESTS },
        )
    }
}

/// An ended fetch stays ended: whatever is reported then, the outcome stands.
pub proof fn lemma_done_is_final(
    word: ParsedWordView,
    outcome: Result<Seq<char>, FetchError>,
    events: Seq<FetchEventView>,
)
    ensures
        run(word, FetchStateView::Done { outcome }, events) == (FetchStateView::Done { outcome }),
    decreases events.len(),
{
    if events.len() > 0 {
        lemma_done_is_final(word, outcome, events.drop_last());
    }
}

/// A run can be cut in two: the state after all events is the state reached from the
/// state after the first `k` of them on the rest.
pub proof fn lemma_run_split(
    word: ParsedWordView,
    state: FetchStateView,
    events: Seq<FetchEventView>,
    k: int,
)
    requires
        0 <= k <= events.len(),
    ensures
        run(word, state, events) == run(word, run(word, state, events.take(k)), events.skip(k)),
    decreases events.len(),
{
    if k == events.len() {
        assert(events.take(k) == events);
    } else {
        let shorter = events.drop_last();
        lemma_run_split(word, state, shorter, k);
        assert(shorter.take(k) == events.take(k));
        assert(shorter.skip(k) == events.skip(k).drop_last());
    }
}

/// A page is handed out only when the cache holds it. A step ends a fetch with a page
/// in two cases alone: on a cache hit, with the cached contents, and on the report that
/// this very page was written to the cache.
pub proof fn lemma_page_comes_from_cache(
    word: ParsedWordView,
    state: FetchStateView,
    event: FetchEventView,
    page: Seq<char>,
)
    requires
        !(state is Done),
        next_state(word, state, event) == (FetchStateView::Done { outcome: Ok(page) }),
    ensures
        (state is Lookup && event == (FetchEventView::CacheHit { contents: page })) || (state == (
        FetchStateView::Writing { body: page }) && event is Written),
        state is Writing ==> pending_action(word, state) == (FetchActionView::WriteCache {
            path: path_of(word.name),
            contents: page,
        }),
{
}

/// A run of one event is one step.
pub proof fn lemma_run_one(word: ParsedWordView, state: FetchStateView, event: FetchEventView)
    ensures
        run(word, state, seq![event]) == next_state(word, state, event),
{
    assert(seq![event].drop_last().len() == 0);
    assert(run(word, state, seq![event].drop_last()) == state);
}

/// A run with one more event is the run followed by one step.
pub proof fn lemma_run_push(
    word: ParsedWordView,
    state: FetchStateView,
    events: Seq<FetchEventView>,
    event: FetchEventView,
)
    ensures
        run(word, state, events.push(event)) == next_state(word, run(word, state, events), event),
{
    assert(events.push(event).drop_last() == events);
}

/// A page in the cache is all that a fetch needs. Whatever the entry and whatever is
/// reported after the hit, the fetch first asks for the cache, ends with the cached
/// page as soon as the hit is reported, and at no point asks for the network or for a
/// write.
pub proof fn lemma_cache_hit_needs_no_network(
    word: ParsedWordView,
    contents: Seq<char>,
    later: Seq<FetchEventView>,
    k: int,
)
    requires
        0 <= k <= later.len() + 1,
    ensures
        ({
            let events = seq![FetchEventView::CacheHit { contents }] + later;
            let passed = run(word, FetchStateView::Lookup, events.take(k));
            &&& !is_network(pending_action(word, passed))
            &&& !is_write(pending_action(word, passed))
            &&& k >= 1 ==> passed == (FetchStateView::Done { outcome: Ok(contents) })
        }),
{
    let hit = FetchEventView::CacheHit { contents };
    let passed = (seq![hit] + later).take(k);
    if k >= 1 {
        assert(passed.take(1) == seq![hit]);
        lemma_run_split(word, FetchStateView::Lookup, passed, 1);
        lemma_run_one(word, FetchStateView::Lookup, hit);
        lemma_done_is_final(word, Ok(contents), passed.skip(1));
    }
}

/// An entry without a page is skipped. Where the link holds the marker and the cache
/// does not hold the page, the fetch ends with `Skip` as soon as the miss is reported,
/// and at no point asks for the network or for a write.
pub proof fn lemma_unfetchable_is_skipped(
    word: ParsedWordView,
    later: Seq<FetchEventView>,
    k: int,
)
    requires
        !is_fetchable(word.link),
        0 <= k <= later.len() + 1,
    ensures
        ({
            let events = seq![FetchEventView::CacheMiss] + later;
            let passed = run(word, FetchStateView::Lookup, events.take(k));
            &&& !is_network(pending_action(word, passed))
            &&& !is_write(pending_action(word, passed))
            &&& k >= 1 ==> passed == (FetchStateView::Done { outcome: Err(FetchError::Skip) })
        }),
{
    let miss = FetchEventView::CacheMiss;
    let passed = (seq![miss] + later).take(k);
    if k >= 1 {
        assert(passed.take(1) == seq![miss]);
        lemma_run_split(word, FetchStateView::Lookup, passed, 1);
        lemma_run_one(word, FetchStateView::Lookup, miss);
        lemma_done_is_final(word, Err(FetchError::Skip), passed.skip(1));
    }
}

/// One step keeps the waits within the ceiling.
pub proof fn lemma_step_within_ceiling(
    word: ParsedWordView,
    state: FetchStateView,
    event: FetchEventView,
)
    requires
        within_ceiling(state),
    ensures
        within_ceiling(next_state(word, state, event)),
{
}

/// No fetch ever waits longer than the ceiling: whatever is reported, a state that is
/// reached from the start waits for at most [`MAX_DELAY_MS`].
pub proof fn lemma_waits_within_ceiling(word: ParsedWordView, events: Seq<FetchEventView>)
    ensures
        within_ceiling(run(word, FetchStateView::Lookup, events)),
    decreases events.len(),
{
    if events.len() > 0 {
        lemma_waits_within_ceiling(word, events.drop_last());
        lemma_step_within_ceiling(
            word,
            run(word, FetchStateView::Lookup, events.drop_last()),
            events.last(),
        );
    }
}

/// The waits double. After `n` rate-limit responses in a row the fetch waits for
/// `INITIAL_DELAY_MS * 2^n` milliseconds before the next request, as long as that is
/// within the ceiling; from the first `n` for which it is not, the fetch has ended with
/// `RateLimitExhausted`, without that wait.
pub proof fn lemma_backoff_doubles(n: nat)
    ensures
        INITIAL_DELAY_MS * pow2(n) <= MAX_DELAY_MS ==> after_rate_limits(n) == (
        FetchStateView::Sleeping { delay: (INITIAL_DELAY_MS * pow2(n)) as u64 }),
        INITIAL_DELAY_MS * pow2(n) > MAX_DELAY_MS ==> after_rate_limits(n) == (
        FetchStateView::Done { outcome: Err(FetchError::RateLimitExhausted) }),
    decreases n,
{
    lemma_pow2_pos(n);
    if n == 0 {
        vstd::arithmetic::power2::lemma2_to64();
    } else {
        let m = (n - 1) as nat;
        lemma_backoff_doubles(m);
        lemma_pow2_unfold(n);
        lemma_pow2_pos(m);
        assert(INITIAL_DELAY_MS * pow2(n) == 2 * (INITIAL_DELAY_MS * pow2(m))) by (nonlinear_arith)
            requires
                pow2(n) == 2 * pow2(m),
        ;
    }
}

/// The thirteenth rate-limit response in a row ends the fetch: the waits before the
/// thirteen requests run from 100 to 409 600 milliseconds, and the next would be
/// 819 200.
pub proof fn lemma_gives_up_after_thirteen()
    ensures
        after_rate_limits(12) == (FetchStateView::Sleeping { delay: 409_600 }),
        after_rate_limits(13) == (FetchStateView::Done {
            outcome: Err(FetchError::RateLimitExhausted),
        }),
{
    vstd::arithmetic::power2::lemma2_to64();
    lemma_backoff_doubles(12);
    lemma_backoff_doubles(13);
}

/// [`after_rate_limits`] is what the machine does: for an entry with a page, the run
/// that misses the cache and then meets `n` rate-limit responses in a row ends in that
/// state.
pub proof fn lemma_rate_limited_run(word: ParsedWordView, n: nat)
    requires
        is_fetchable(word.link),
    ensures
        run(word, FetchStateView::Lookup, rate_limited_events(n)) == after_rate_limits(n),
    decreases n,
{
    if n == 0 {
        lemma_run_one(word, FetchStateView::Lookup, FetchEventView::CacheMiss);
    } else {
        let m = (n - 1) as nat;
        lemma_rate_limited_run(word, m);
        lemma_backoff_doubles(m);
        let before = rate_limited_events(m);
        let slept = before.push(FetchEventView::Slept);
        lemma_run_push(word, FetchStateView::Lookup, before, FetchEventView::Slept);
        lemma_run_push(
            word,
            FetchStateView::Lookup,
            slept,
            FetchEventView::Status { status: TOO_MANY_REQUESTS },
        );
    }
}

/// The event answers what the state waits for. An ended fetch waits for nothing.
pub open spec fn answers(state: FetchStateView, event: FetchEventView) -> bool {
    match state {
        FetchStateView::Lookup => event is CacheHit || event is CacheMiss,
        FetchStateView::Sleeping { delay } => event is Slept,
        FetchStateView::Requesting { delay } => event is Status || event is TransportFailed,
        FetchStateView::Reading => event is Body || event is TransportFailed,
        FetchStateView::Writing { body } => event is Written || event is WriteFailed,
        FetchStateView::Done { outcome } => false,
    }
}

/// Every report of a run answers what the fetch waited for at that point.
pub open spec fn is_answered(
    word: ParsedWordView,
    state: FetchStateView,
    events: Seq<FetchEventView>,
) -> bool {
    forall|k: int|
        0 <= k < events.len() ==> answers(run(word, state, events.take(k)), #[trigger] events[k])
}

/// How often a wait can still be doubled without passing the ceiling.
pub open spec fn doublings_left(delay: u64) -> nat
    decreases MAX_DELAY_MS - delay,
{
    if delay == 0 || 2 * delay > MAX_DELAY_MS {
        0
    } else {
        1 + doublings_left((2 * delay) as u64)
    }
}

/// The most reports that a state can still take before the fetch has ended.
pub open spec fn steps_left(state: FetchStateView) -> nat {
    match state {
        FetchStateView::Lookup => 5 + 2 * doublings_left(INITIAL_DELAY_MS),
        FetchStateView::Sleeping { delay } => 4 + 2 * doublings_left(delay),
        FetchStateView::Requesting { delay } => 3 + 2 * doublings_left(delay),
        FetchStateView::Reading => 2,
        FetchStateView::Writing { body } => 1,
        FetchStateView::Done { outcome } => 0,
    }
}

/// A pending wait is not empty, so that doubling it makes it longer.
pub open spec fn waits_some(state: FetchStateView) -> bool {
    match state {
        FetchStateView::Sleeping { delay } => delay >= 1,
        FetchStateView::Requesting { delay } => delay >= 1,
        _ => true,
    }
}

/// A report that answers what was asked brings the fetch nearer to its end.
pub proof fn lemma_step_makes_progress(
    word: ParsedWordView,
    state: FetchStateView,
    event: FetchEventView,
)
    requires
        waits_some(state),
        answers(state, event),
    ensures
        waits_some(next_state(word, state, event)),
        steps_left(next_state(word, state, event)) < steps_left(state),
{
}

/// Every fetch ends. A run from the start in which every report answers what was
/// asked keeps its waits non-empty and has used up as many of the steps that were left
/// at the start as it has reports.
pub proof fn lemma_answered_run_uses_steps(word: ParsedWordView, events: Seq<FetchEventView>)
    requires
        is_answered(word, FetchStateView::Lookup, events),
    ensures
        waits_some(run(word, FetchStateView::Lookup, events)),
        steps_left(run(word, FetchStateView::Lookup, events)) + events.len() <= steps_left(
            FetchStateView::Lookup,
        ),
    decreases events.len(),
{
    if events.len() > 0 {
        let before = events.drop_last();
        assert forall|k: int| 0 <= k < before.len() implies answers(
            run(word, FetchStateView::Lookup, before.take(k)),
            #[trigger] before[k],
        ) by {
            assert(before.take(k) == events.take(k));
            assert(before[k] == events[k]);
        }
        lemma_answered_run_uses_steps(word, before);
        assert(events.take(events.len() - 1) == before);
        assert(answers(run(word, FetchStateView::Lookup, before), events[events.len() - 1]));
        lemma_step_makes_progress(
            word,
            run(word, FetchStateView::Lookup, before),
            events.last(),
        );
    }
}

/// A fetch takes at most twenty-nine reports: the lookup, thirteen waits with their
/// requests, the body and the write.
pub proof fn lemma_fetch_ends_within_bound(word: ParsedWordView, events: Seq<FetchEventView>)
    requires
        is_answered(word, FetchStateView::Lookup, events),
    ensures
        events.len() <= 29,
        events.len() == 29 ==> run(word, FetchStateView::Lookup, events) is Done,
{
    lemma_answered_run_uses_steps(word, events);
    assert(doublings_left(INITIAL_DELAY_MS) == 12) by {
        reveal_with_fuel(doublings_left, 14);
    }
}

/// The model of a cached entry: its name and its cache path.
pub open spec fn defined_word(word: ParsedWordView) -> DefinedWordView {
    DefinedWordView { name: word.name, path: path_of(word.name) }
}

/// The entries whose pages the cache holds, in their order. `cached` tells of each
/// entry, by position, whether its page is there; an entry without a flag counts as
/// absent.
pub open spec fn defined_words(words: Seq<ParsedWordView>, cached: Seq<bool>) -> Seq<
    DefinedWordView,
>
    decreases words.len(),
{
    if words.len() == 0 {
        Seq::empty()
    } else {
        let before = defined_words(words.drop_last(), cached);
        let last = words.len() - 1;
        if last < cached.len() && cached[last] {
            before.push(defined_word(words.last()))
        } else {
            before
        }
    }
}

/// The models of a sequence of cached entries, in order.
pub open spec fn defined_view(words: Seq<DefinedWord>) -> Seq<DefinedWordView> {
    Seq::new(words.len(), |i: int| words[i]@)
}

/// Lists the entries whose pages are in the cache, each with its cache path.
pub fn download_all(words: Vec<ParsedWord>, cached: &[bool]) -> (defined: Vec<DefinedWord>)
    ensures
        defined_view(defined@) == defined_words(words_view(words@), cached@),
{
    let ghost all = words_view(words@);
    let mut defined: Vec<DefinedWord> = Vec::new();
    let mut i: usize = 0;
    while i < words.len()
        invariant
            i <= words.len(),
            all == words_view(words@),
            defined_view(defined@) == defined_words(all.take(i as int), cached@),
        decreases words.len() - i,
    {
        assert(all.take(i + 1).drop_last() == all.take(i as int));
        if i < cached.len() && cached[i] {
            let path = word_to_path(&words[i]);
            let name = words[i].name.clone();
            defined.push(DefinedWord { name, path });
        }
        i += 1;
    }
    assert(all.take(words.len() as int) == all);
    defined
}

} // verus!
