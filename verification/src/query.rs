//! The decisions of a rate-limited search on AniList: answering from the
//! cache, recovering from a failed request, taking an answer in, and pacing
//! the requests.
//!
//! The caller performs the requests and the waits; each function here takes
//! what happened and says what to do next.
use vstd::prelude::*;

use crate::cache::MediaCache;
use crate::responses::{Medum, find_id, first_match};
use crate::text::{parse_unsigned, parsed_unsigned};

verus! {

/// Attempts beyond this number give up instead of stopping the program.
pub const MAX_RETRIES: u8 = 5;

/// The least number of seconds between the start of one search and the next.
pub const PACE_SECONDS: u64 = 2;

/// Below this many remaining requests the caller warns.
pub const LOW_QUOTA: u32 = 30;

/// What the cache says about a title.
#[derive(Debug, Clone, Copy, PartialEq, Eq)]
pub enum Lookup {
    /// The title was searched before; this is the id found then.
    Cached(Option<u64>),
    /// The title has not been searched yet.
    Missing,
}

/// The cache's answer for `name`.
pub open spec fn cached_answer(cache: Map<Seq<char>, Seq<Medum>>, name: Seq<char>) -> Lookup {
    if cache.contains_key(name) {
        Lookup::Cached(first_match(name, cache[name]))
    } else {
        Lookup::Missing
    }
}

/// Answers a search from the cache when the title was searched before: the
/// id of the first manga known under `name` among the media stored for it.
pub fn lookup(cache: &MediaCache, name: &str) -> (r: Lookup)
    ensures
        r == cached_answer(cache@, name@),
{
    match cache.get(name) {
        Some(media) => Lookup::Cached(find_id(name, media.as_slice())),
        None => Lookup::Missing,
    }
}

/// Takes in the media that a search for `name` returned: stores them in the
/// cache under `name` and gives the id of the first manga known under `name`.
pub fn accept_answer(cache: &mut MediaCache, name: String, media: Vec<Medum>) -> (r: Option<u64>)
    ensures
        r == first_match(name@, media@),
        final(cache)@ == old(cache)@.insert(name@, media@),
{
    let found = find_id(name.as_str(), media.as_slice());
    cache.insert(name, media);
    found
}

/// A search request that failed.
#[derive(Debug, Clone, PartialEq, Eq)]
pub enum Failure {
    /// AniList answered with an error status; `retry_after` is the
    /// `retry-after` header of the answer, if it had one.
    Status { code: u16, retry_after: Option<String> },
    /// The request did not reach AniList or its answer did not come back.
    Transport,
}

/// What to do after a failed search.
#[derive(Debug, Clone, Copy, PartialEq, Eq)]
pub enum Recovery {
    /// Wait `seconds`, then search again as attempt `attempt`.
    WaitThenRetry { seconds: u64, attempt: u8 },
    /// Wait until `PACE_SECONDS` have passed since the request was sent, then
    /// search again as attempt `attempt`.
    PaceThenRetry { attempt: u8 },
    /// Wait until `PACE_SECONDS` have passed since the request was sent, then
    /// give up on the title.
    PaceThenGiveUp,
    /// Give up on the title.
    GiveUp,
    /// Stop: the failure is not one that a search recovers from.
    Abort,
}

/// Whether a search has been retried more often than `MAX_RETRIES`.
pub open spec fn retries_exhausted(attempt: Option<u8>) -> bool {
    attempt matches Some(n) && n > MAX_RETRIES
}

/// The attempt number that a retried search carries: that of the search that
/// failed, `0` for a first search. It is not advanced.
pub open spec fn retry_attempt(attempt: Option<u8>) -> u8 {
    match attempt {
        Some(n) => n,
        None => 0,
    }
}

/// What a failed search leads to.
///
/// Status 429 (too many requests) waits as long as the `retry-after` header
/// says and retries; without a readable header the search stops. Status 500
/// paces and retries, or gives up once the retries are exhausted. Any other
/// status, and a transport failure, stop the search, or give up once the
/// retries are exhausted.
pub open spec fn recovery_for(failure: Failure, attempt: Option<u8>) -> Recovery {
    match failure {
        Failure::Status { code, retry_after } => if code == 429 {
            match retry_after {
                Some(h) => match parsed_unsigned(h@, u64::MAX as int) {
                    Some(v) => Recovery::WaitThenRetry { seconds: v as u64, attempt: retry_attempt(attempt) },
                    None => Recovery::Abort,
                },
                None => Recovery::Abort,
            }
        } else if code == 500 {
            if retries_exhausted(attempt) {
                Recovery::PaceThenGiveUp
            } else {
                Recovery::PaceThenRetry { attempt: retry_attempt(attempt) }
            }
        } else if retries_exhausted(attempt) {
            Recovery::GiveUp
        } else {
            Recovery::Abort
        },
        Failure::Transport => if retries_exhausted(attempt) {
            Recovery::GiveUp
        } else {
            Recovery::Abort
        },
    }
}

fn exhausted(attempt: Option<u8>) -> (r: bool)
    ensures
        r == retries_exhausted(attempt),
{
    match attempt {
        Some(n) => n > MAX_RETRIES,
        None => false,
    }
}

fn next_attempt(attempt: Option<u8>) -> (r: u8)
    ensures
        r == retry_attempt(attempt),
{
    match attempt {
        Some(n) => n,
        None => 0,
    }
}

/// Decides what to do after a failed search that was attempt `attempt`
/// (`None` for a first search).
pub fn recover(failure: &Failure, attempt: Option<u8>) -> (r: Recovery)
    ensures
        r == recovery_for(*failure, attempt),
{
    match failure {
        Failure::Status { code, retry_after } => {
            if *code == 429 {
                match retry_after {
                    Some(h) => match parse_unsigned(h.as_str(), u64::MAX) {
                        Some(v) => Recovery::WaitThenRetry { seconds: v, attempt: next_attempt(attempt) },
                        None => Recovery::Abort,
                    },
                    None => Recovery::Abort,
                }
            } else if *code == 500 {
                if exhausted(attempt) {
                    Recovery::PaceThenGiveUp
                } else {
                    Recovery::PaceThenRetry { attempt: next_attempt(attempt) }
                }
            } else if exhausted(attempt) {
                Recovery::GiveUp
            } else {
                Recovery::Abort
            }
        },
        Failure::Transport => {
            if exhausted(attempt) {
                Recovery::GiveUp
            } else {
                Recovery::Abort
            }
        },
    }
}

/// The number of requests left, as the `x-ratelimit-remaining` header says;
/// `0` when the header is missing or does not hold a `u32`.
pub open spec fn quota_from_header(header: Option<Seq<char>>) -> u32 {
    match header {
        Some(h) => match parsed_unsigned(h, u32::MAX as int) {
            Some(v) => v as u32,
            None => 0,
        },
        None => 0,
    }
}

/// Reads the number of requests left from the `x-ratelimit-remaining` header.
pub fn remaining_quota(header: Option<&str>) -> (r: u32)
    ensures
        r == quota_from_header(match header {
            Some(h) => Some(h@),
            None => None,
        }),
{
    match header {
        Some(h) => match parse_unsigned(h, u32::MAX as u64) {
            Some(v) => v as u32,
            None => 0,
        },
        None => 0,
    }
}

/// Whether so few requests are left that the caller should warn.
pub fn quota_is_low(remaining: u32) -> (r: bool)
    ensures
        r == (remaining < LOW_QUOTA),
{
    remaining < LOW_QUOTA
}

/// Nanoseconds in a second.
pub const NANOS_PER_SEC: u32 = 1_000_000_000;

/// The length of a duration given as whole seconds and nanoseconds.
pub open spec fn duration_nanos(secs: u64, nanos: u32) -> int {
    secs * 1_000_000_000 + nanos
}

/// How long to wait so that `seconds` have passed since a request was sent,
/// `elapsed` being the time since then: `seconds` less `elapsed`, or nothing
/// when that much time has passed already. Durations are whole seconds and
/// nanoseconds below one second.
pub fn pause_after(seconds: u64, elapsed_secs: u64, elapsed_nanos: u32) -> (r: (u64, u32))
    requires
        elapsed_nanos < NANOS_PER_SEC,
    ensures
        r.1 < NANOS_PER_SEC,
        duration_nanos(elapsed_secs, elapsed_nanos) <= seconds * 1_000_000_000 ==> duration_nanos(r.0, r.1)
            == seconds * 1_000_000_000 - duration_nanos(elapsed_secs, elapsed_nanos),
        duration_nanos(elapsed_secs, elapsed_nanos) > seconds * 1_000_000_000 ==> r == (0u64, 0u32),
{
    let total: u128 = (seconds as u128) * 1_000_000_000;
    let elapsed: u128 = (elapsed_secs as u128) * 1_000_000_000 + (elapsed_nanos as u128);
    if elapsed > total {
        return (0, 0);
    }
    let left: u128 = total - elapsed;
    let secs: u128 = left / 1_000_000_000;
    let nanos: u128 = left % 1_000_000_000;
    assert(secs <= seconds) by (nonlinear_arith)
        requires
            left <= seconds * 1_000_000_000,
            secs == left / 1_000_000_000,
    ;
    (secs as u64, nanos as u32)
}

/// A search in progress: the title searched for and the attempt it is
/// (`None` for a first search).
#[derive(Debug, Clone, PartialEq, Eq)]
pub struct Search {
    pub name: String,
    pub attempt: Option<u8>,
}

/// What happened since the last step of a search.
#[derive(Debug, Clone, PartialEq, Eq)]
pub enum SearchEvent {
    /// The search starts, or starts over after a wait.
    Begin,
    /// The request that was sent came back with these media.
    Answered(Vec<Medum>),
    /// The request that was sent failed.
    Failed(Failure),
}

/// What the caller does next in a search.
#[derive(Debug, Clone, Copy, PartialEq, Eq)]
pub enum SearchStep {
    /// The search is over; this is its result.
    Finish(Option<u64>),
    /// Send the search request for the title, and report how it went.
    Send,
    /// Wait `seconds`, then begin again.
    WaitThenBegin { seconds: u64 },
    /// Wait until `PACE_SECONDS` have passed since the request was sent, then
    /// begin again.
    PaceThenBegin,
    /// Wait until `PACE_SECONDS` have passed since the request was sent; the
    /// search is then over with this result.
    PaceThenFinish(Option<u64>),
    /// Stop: the failure is not one that a search recovers from.
    Abort,
}

/// One step of a search: the cache after it, the attempt number after it,
/// and what the caller does next.
///
/// Beginning answers from the cache when the title was searched before, and
/// sends a request otherwise. An answer is stored in the cache and its id is
/// returned after pacing. A failure is handled as `recovery_for` says; a
/// retry carries the attempt number that `recovery_for` gives.
pub open spec fn step_outcome(
    cache: Map<Seq<char>, Seq<Medum>>,
    name: Seq<char>,
    attempt: Option<u8>,
    event: SearchEvent,
) -> (Map<Seq<char>, Seq<Medum>>, Option<u8>, SearchStep) {
    match event {
        SearchEvent::Begin => match cached_answer(cache, name) {
            Lookup::Cached(found) => (cache, attempt, SearchStep::Finish(found)),
            Lookup::Missing => (cache, attempt, SearchStep::Send),
        },
        SearchEvent::Answered(media) => (
            cache.insert(name, media@),
            attempt,
            SearchStep::PaceThenFinish(first_match(name, media@)),
        ),
        SearchEvent::Failed(failure) => match recovery_for(failure, attempt) {
            Recovery::WaitThenRetry { seconds, attempt: a } => (
                cache,
                Some(a),
                SearchStep::WaitThenBegin { seconds },
            ),
            Recovery::PaceThenRetry { attempt: a } => (cache, Some(a), SearchStep::PaceThenBegin),
            Recovery::PaceThenGiveUp => (cache, attempt, SearchStep::PaceThenFinish(None)),
            Recovery::GiveUp => (cache, attempt, SearchStep::Finish(None)),
            Recovery::Abort => (cache, attempt, SearchStep::Abort),
        },
    }
}

impl Search {
    /// A search for `name` that is attempt `attempt`.
    pub fn new(name: String, attempt: Option<u8>) -> (r: Self)
        ensures
            r.name == name,
            r.attempt == attempt,
    {
        Search { name, attempt }
    }

    /// Takes one step of the search: updates the cache and the attempt number
    /// and says what to do next, as `step_outcome` states.
    pub fn step(&mut self, cache: &mut MediaCache, event: SearchEvent) -> (r: SearchStep)
        ensures
            final(self).name == old(self).name,
            (final(cache)@, final(self).attempt, r) == step_outcome(
                old(cache)@,
                old(self).name@,
                old(self).attempt,
                event,
            ),
    {
        match event {
            SearchEvent::Begin => match lookup(cache, self.name.as_str()) {
                Lookup::Cached(found) => SearchStep::Finish(found),
                Lookup::Missing => SearchStep::Send,
            },
            SearchEvent::Answered(media) => {
                let found = accept_answer(cache, self.name.clone(), media);
                SearchStep::PaceThenFinish(found)
            },
            SearchEvent::Failed(failure) => match recover(&failure, self.attempt) {
                Recovery::WaitThenRetry { seconds, attempt } => {
                    self.attempt = Some(attempt);
                    SearchStep::WaitThenBegin { seconds }
                },
                Recovery::PaceThenRetry { attempt } => {
                    self.attempt = Some(attempt);
                    SearchStep::PaceThenBegin
                },
                Recovery::PaceThenGiveUp => SearchStep::PaceThenFinish(None),
                Recovery::GiveUp => SearchStep::Finish(None),
                Recovery::Abort => SearchStep::Abort,
            },
        }
    }
}

/// No step of a search removes a title from the cache or changes what it
/// holds for another title than the one searched.
pub proof fn law_cache_only_grows(
    cache: Map<Seq<char>, Seq<Medum>>,
    name: Seq<char>,
    attempt: Option<u8>,
    event: SearchEvent,
    other: Seq<char>,
)
    ensures
        cache.contains_key(other) ==> step_outcome(cache, name, attempt, event).0.contains_key(other),
        other != name ==> step_outcome(cache, name, attempt, event).0.contains_key(other)
            == cache.contains_key(other),
        other != name && cache.contains_key(other) ==> step_outcome(cache, name, attempt, event).0[other]
            == cache[other],
{
}

/// A request is sent only for a title that the cache does not hold; once an
/// answer for the title was taken in, beginning a search for it again ends at
/// once with the id that was returned, without a request.
pub proof fn law_searched_once(
    cache: Map<Seq<char>, Seq<Medum>>,
    name: Seq<char>,
    attempt: Option<u8>,
    later: Option<u8>,
    media: Vec<Medum>,
)
    ensures
        (step_outcome(cache, name, attempt, SearchEvent::Begin).2 == SearchStep::Send) == !cache.contains_key(name),
        ({
            let (after, _, done) = step_outcome(cache, name, attempt, SearchEvent::Answered(media));
            &&& done == SearchStep::PaceThenFinish(first_match(name, media@))
            &&& step_outcome(after, name, later, SearchEvent::Begin).2 == SearchStep::Finish(first_match(name, media@))
        }),
{
}

/// A transport failure, or an error status other than 429 and 500, stops
/// the program unless the search is an attempt beyond `MAX_RETRIES` (5), in
/// which case the title is given up; a first search (`None`) always stops.
/// Neither ever retries.
pub proof fn law_unrecoverable_failures(code: u16, retry_after: Option<String>, attempt: Option<u8>)
    requires
        code != 429 && code != 500,
    ensures
        recovery_for(Failure::Transport, attempt) == (if attempt matches Some(n) && n > 5 {
            Recovery::GiveUp
        } else {
            Recovery::Abort
        }),
        recovery_for(Failure::Status { code, retry_after }, attempt) == (if attempt matches Some(n) && n > 5 {
            Recovery::GiveUp
        } else {
            Recovery::Abort
        }),
        recovery_for(Failure::Transport, None) == Recovery::Abort,
{
}

/// Status 429 never gives up: with a `retry-after` header that holds a
/// number it waits that many seconds and retries, otherwise it stops.
/// Status 500 always waits for the pace, then retries unless the search is
/// an attempt beyond 5.
pub proof fn law_recoverable_failures(retry_after: Option<String>, attempt: Option<u8>)
    ensures
        recovery_for(Failure::Status { code: 429, retry_after }, attempt) matches Recovery::WaitThenRetry {
            seconds,
            ..
        } ==> retry_after matches Some(h) && parsed_unsigned(h@, u64::MAX as int) == Some(seconds as int),
        recovery_for(Failure::Status { code: 429, retry_after }, attempt) is WaitThenRetry
            || recovery_for(Failure::Status { code: 429, retry_after }, attempt) is Abort,
        recovery_for(Failure::Status { code: 500, retry_after }, attempt) == (if attempt matches Some(n) && n > 5 {
            Recovery::PaceThenGiveUp
        } else {
            Recovery::PaceThenRetry { attempt: match attempt { Some(n) => n, None => 0u8 } }
        }),
{
    if let Some(h) = retry_after {
        crate::text::lemma_parsed_unsigned_range(h@, u64::MAX as int);
    }
}

/// Only an answer changes the cache, and it stores exactly that answer under
/// the title searched: beginning a search and handling a failure leave the
/// cache as it was.
pub proof fn law_only_answers_fill_the_cache(
    cache: Map<Seq<char>, Seq<Medum>>,
    name: Seq<char>,
    attempt: Option<u8>,
    failure: Failure,
    media: Vec<Medum>,
)
    ensures
        step_outcome(cache, name, attempt, SearchEvent::Begin).0 == cache,
        step_outcome(cache, name, attempt, SearchEvent::Failed(failure)).0 == cache,
        step_outcome(cache, name, attempt, SearchEvent::Answered(media)).0 == cache.insert(name, media@),
{
}

/// A title that the cache does not hold is sent for, and after a failure and
/// whatever wait follows it, beginning again sends it again.
pub proof fn law_resend_after_failure(
    cache: Map<Seq<char>, Seq<Medum>>,
    name: Seq<char>,
    attempt: Option<u8>,
    failure: Failure,
)
    requires
        !cache.contains_key(name),
    ensures
        ({
            let (c1, a1, first) = step_outcome(cache, name, attempt, SearchEvent::Begin);
            let (c2, a2, _) = step_outcome(c1, name, a1, SearchEvent::Failed(failure));
            let (c3, _, again) = step_outcome(c2, name, a2, SearchEvent::Begin);
            &&& first == SearchStep::Send
            &&& again == SearchStep::Send
            &&& c3 == cache
        }),
{
}

/// After an answer for `name` was taken in, the cache answers `name` with the
/// id that was returned then, and answers every other title as before.
pub proof fn law_lookup_after_answer(
    cache: Map<Seq<char>, Seq<Medum>>,
    name: Seq<char>,
    media: Seq<Medum>,
    other: Seq<char>,
)
    ensures
        cached_answer(cache.insert(name, media), name) == Lookup::Cached(first_match(name, media)),
        other != name ==> cached_answer(cache.insert(name, media), other) == cached_answer(cache, other),
{
}

/// A retried search carries the attempt number of the search that failed
/// (`0` for a first search): the number is never advanced.
pub proof fn law_retry_keeps_attempt(failure: Failure, attempt: Option<u8>)
    ensures
        recovery_for(failure, attempt) matches Recovery::WaitThenRetry { attempt: a, .. } ==> a == retry_attempt(attempt),
        recovery_for(failure, attempt) matches Recovery::PaceThenRetry { attempt: a } ==> a == retry_attempt(attempt),
{
}

/// Once the retries are exhausted, a failure other than status 429 never
/// stops the program and never retries: the title is given up.
pub proof fn law_exhausted_gives_up(failure: Failure, attempt: Option<u8>)
    requires
        retries_exhausted(attempt),
        !(failure matches Failure::Status { code, .. } && code == 429),
    ensures
        recovery_for(failure, attempt) == Recovery::GiveUp || recovery_for(failure, attempt)
            == Recovery::PaceThenGiveUp,
{
}

/// Status 500 is always retried while retries remain, and the attempt number
/// of a first search never reaches the point where it is given up.
pub proof fn law_server_error_retried(retry_after: Option<String>, attempt: Option<u8>)
    requires
        !retries_exhausted(attempt),
    ensures
        recovery_for(Failure::Status { code: 500, retry_after }, attempt) == (Recovery::PaceThenRetry {
            attempt: retry_attempt(attempt),
        }),
        !retries_exhausted(Some(retry_attempt(attempt))),
{
}

} // verus!
