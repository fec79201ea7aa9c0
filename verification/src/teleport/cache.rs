//! The rules of the cache that keeps the directory of a proxy between
//! invocations: where it lies, when it is stale, and what is done next.

use vstd::prelude::*;
use vstd::string::*;
use crate::error::BeamError;
use crate::text::contains;
use crate::text::occurs_in;
use crate::text::text_eq;

verus! {

/// The file of the cached directory of `proxy`, below the home directory.
pub open spec fn spec_cache_file(proxy: Seq<char>) -> Seq<char> {
    ".beam/cache/"@ + proxy + ".json"@
}

/// The file of the cached directory of `proxy`, below the home directory:
/// one file for each proxy.
pub fn cache_file(proxy: &str) -> (res: String)
    ensures
        res@ == spec_cache_file(proxy@),
{
    let mut res = String::from_str(".beam/cache/");
    res.append(proxy);
    res.append(".json");
    res
}

/// Whether a cache that was written at `written_at` is too old at `now`,
/// where it may live for `ttl` seconds. At the end of its time it is still
/// fresh.
pub open spec fn expired(written_at: u64, now: u64, ttl: u64) -> bool {
    now > written_at + ttl
}

/// Whether the directory is fetched anew: where no cache exists, where the
/// user asks for it, and where the cache is too old.
pub open spec fn spec_is_stale(
    present: bool,
    force_refresh: bool,
    written_at: u64,
    now: u64,
    ttl: u64,
) -> bool {
    !present || force_refresh || expired(written_at, now, ttl)
}

/// Whether a cache that was written at `written_at` is too old at `now`,
/// where it may live for `ttl` seconds.
pub fn is_expired(written_at: u64, now: u64, ttl: u64) -> (res: bool)
    ensures
        res == expired(written_at, now, ttl),
        res <==> now > written_at + ttl,
        now == written_at + ttl ==> !res,
{
    now > written_at && now - written_at > ttl
}

/// Whether the directory is fetched anew.
pub fn is_stale(present: bool, force_refresh: bool, written_at: u64, now: u64, ttl: u64) -> (res:
    bool)
    ensures
        res == spec_is_stale(present, force_refresh, written_at, now, ttl),
{
    !present || force_refresh || is_expired(written_at, now, ttl)
}

/// What the directory tool prints where the proxy lists no node.
pub open spec fn no_nodes() -> Seq<char> {
    "null\n"@
}

/// Whether `listing` is what the directory tool prints where the proxy
/// lists no node.
pub fn lists_no_nodes(listing: &str) -> (res: bool)
    ensures
        res == (listing@ == no_nodes()),
{
    text_eq(listing, "null\n")
}

/// How far the request for the directory has come.
#[derive(Clone, Copy, Debug, PartialEq, Eq, Structural)]
pub enum CacheState {
    /// Nothing is known of the cache yet.
    Idle,
    /// The cache is fresh and is being read.
    Reading,
    /// The directory is being fetched.
    Fetching,
    /// The request is answered, with nodes or with a failure.
    Finished,
}

/// What happened outside since the last step.
#[derive(Debug, PartialEq, Eq)]
pub enum CacheEvent {
    /// The cache file was looked at.
    Probed { present: bool, written_at: u64, now: u64 },
    /// The cache file was read; `parsed` says whether it holds a list of nodes.
    Read { parsed: bool },
    /// The directory tool printed `listing`.
    Listed { listing: String },
    /// The directory tool asked for a login.
    Unauthorized,
    /// The directory tool could not reach the directory.
    Unreachable,
}

/// What is done outside before the next step.
#[derive(Clone, Copy, Debug, PartialEq, Eq, Structural)]
pub enum CacheAction {
    /// Read the cache file and parse it.
    ReadCache,
    /// Run the directory tool.
    Fetch,
    /// Write the listing to the cache file, a new file in the place of the
    /// old one, and hand out its nodes.
    Store,
    /// Hand out the nodes that were read.
    Deliver,
    /// Give up with the failure.
    Fail(BeamError),
    /// Nothing: the event does not belong to the state.
    Wait,
}

/// What an event is to the rules, with the listing as its characters.
pub enum EventView {
    Probed { present: bool, written_at: u64, now: u64 },
    Read { parsed: bool },
    Listed { listing: Seq<char> },
    Unauthorized,
    Unreachable,
}

impl View for CacheEvent {
    type V = EventView;

    open spec fn view(&self) -> EventView {
        match self {
            CacheEvent::Probed { present, written_at, now } => EventView::Probed {
                present: *present,
                written_at: *written_at,
                now: *now,
            },
            CacheEvent::Read { parsed } => EventView::Read { parsed: *parsed },
            CacheEvent::Listed { listing } => EventView::Listed { listing: listing@ },
            CacheEvent::Unauthorized => EventView::Unauthorized,
            CacheEvent::Unreachable => EventView::Unreachable,
        }
    }
}

/// Whether what the directory tool complains of is a missing login.
pub open spec fn asks_for_login(complaint: Seq<char>) -> bool {
    occurs_in("not logged in"@, complaint) || occurs_in("Not logged in"@, complaint) || occurs_in(
        "access denied"@,
        complaint,
    )
}

/// What a run of the directory tool is to the rules: the listing that it
/// printed where it succeeded; else a missing login where it complains of
/// one, and a directory out of reach in every other case.
pub open spec fn spec_fetch_event(
    succeeded: bool,
    printed: Seq<char>,
    complaint: Seq<char>,
) -> EventView {
    if succeeded {
        EventView::Listed { listing: printed }
    } else if asks_for_login(complaint) {
        EventView::Unauthorized
    } else {
        EventView::Unreachable
    }
}

/// What a run of the directory tool is to the rules, given whether it
/// succeeded, what it printed and what it complained of.
pub fn fetch_event(succeeded: bool, printed: String, complaint: &str) -> (res: CacheEvent)
    ensures
        res@ == spec_fetch_event(succeeded, printed@, complaint@),
{
    if succeeded {
        CacheEvent::Listed { listing: printed }
    } else if contains(complaint, "not logged in") || contains(complaint, "Not logged in")
        || contains(complaint, "access denied") {
        CacheEvent::Unauthorized
    } else {
        CacheEvent::Unreachable
    }
}

/// Whether a request that ended with `failure` is made once more with the
/// cache set aside: it is where the cache could not be read.
pub fn refreshes(failure: BeamError) -> (res: bool)
    ensures
        res == (failure == BeamError::CacheCorrupt),
{
    match failure {
        BeamError::CacheCorrupt => true,
        _ => false,
    }
}

/// The state and the action that follow `event` in `state`, where the cache
/// may live for `ttl` seconds and `force_refresh` sets it aside.
///
/// A stale cache is fetched anew, a fresh one is read. A cache that does
/// not hold a list of nodes is a failure, as is a listing without nodes and
/// a directory that does not answer. A listing with nodes is stored.
pub open spec fn spec_step(state: CacheState, event: EventView, ttl: u64, force_refresh: bool) -> (
    CacheState,
    CacheAction,
) {
    match (state, event) {
        (CacheState::Idle, EventView::Probed { present, written_at, now }) => if spec_is_stale(
            present,
            force_refresh,
            written_at,
            now,
            ttl,
        ) {
            (CacheState::Fetching, CacheAction::Fetch)
        } else {
            (CacheState::Reading, CacheAction::ReadCache)
        },
        (CacheState::Reading, EventView::Read { parsed }) => if parsed {
            (CacheState::Finished, CacheAction::Deliver)
        } else {
            (CacheState::Finished, CacheAction::Fail(BeamError::CacheCorrupt))
        },
        (CacheState::Fetching, EventView::Listed { listing }) => if listing == no_nodes() {
            (CacheState::Finished, CacheAction::Fail(BeamError::EmptyDirectory))
        } else {
            (CacheState::Finished, CacheAction::Store)
        },
        (CacheState::Fetching, EventView::Unauthorized) => (
            CacheState::Finished,
            CacheAction::Fail(BeamError::AuthRequired),
        ),
        (CacheState::Fetching, EventView::Unreachable) => (
            CacheState::Finished,
            CacheAction::Fail(BeamError::DirectoryUnavailable),
        ),
        _ => (state, CacheAction::Wait),
    }
}

/// The state and the action that follow `event` in `state`.
pub fn step(state: CacheState, event: &CacheEvent, ttl: u64, force_refresh: bool) -> (res: (
    CacheState,
    CacheAction,
))
    ensures
        res == spec_step(state, event@, ttl, force_refresh),
{
    match state {
        CacheState::Idle => match event {
            CacheEvent::Probed { present, written_at, now } => {
                if is_stale(*present, force_refresh, *written_at, *now, ttl) {
                    (CacheState::Fetching, CacheAction::Fetch)
                } else {
                    (CacheState::Reading, CacheAction::ReadCache)
                }
            },
            _ => (state, CacheAction::Wait),
        },
        CacheState::Reading => match event {
            CacheEvent::Read { parsed } => {
                if *parsed {
                    (CacheState::Finished, CacheAction::Deliver)
                } else {
                    (CacheState::Finished, CacheAction::Fail(BeamError::CacheCorrupt))
                }
            },
            _ => (state, CacheAction::Wait),
        },
        CacheState::Fetching => match event {
            CacheEvent::Listed { listing } => {
                if lists_no_nodes(listing.as_str()) {
                    (CacheState::Finished, CacheAction::Fail(BeamError::EmptyDirectory))
                } else {
                    (CacheState::Finished, CacheAction::Store)
                }
            },
            CacheEvent::Unauthorized => (
                CacheState::Finished,
                CacheAction::Fail(BeamError::AuthRequired),
            ),
            CacheEvent::Unreachable => (
                CacheState::Finished,
                CacheAction::Fail(BeamError::DirectoryUnavailable),
            ),
            _ => (state, CacheAction::Wait),
        },
        CacheState::Finished => (state, CacheAction::Wait),
    }
}

/// A cache that exists and is not set aside is stale exactly after the end
/// of its time: at the end itself it is still read. The directory is
/// fetched exactly where the cache is stale; a fresh cache is read, and
/// what follows the reading neither fetches nor stores.
pub proof fn lemma_stale_after_ttl(written_at: u64, now: u64, ttl: u64, read: EventView)
    ensures
        spec_is_stale(true, false, written_at, now, ttl) <==> now > written_at + ttl,
        spec_step(
            CacheState::Idle,
            EventView::Probed { present: true, written_at, now },
            ttl,
            false,
        ) == (if now > written_at + ttl {
            (CacheState::Fetching, CacheAction::Fetch)
        } else {
            (CacheState::Reading, CacheAction::ReadCache)
        }),
        now == written_at + ttl ==> spec_step(
            CacheState::Idle,
            EventView::Probed { present: true, written_at, now },
            ttl,
            false,
        ) == (CacheState::Reading, CacheAction::ReadCache),
        spec_step(CacheState::Reading, read, ttl, false).1 != CacheAction::Fetch,
        spec_step(CacheState::Reading, read, ttl, false).1 != CacheAction::Store,
        read == (EventView::Read { parsed: true }) ==> spec_step(
            CacheState::Reading,
            read,
            ttl,
            false,
        ) == (CacheState::Finished, CacheAction::Deliver),
{
}

/// A request that sets the cache aside never reads it, so that it cannot
/// end with a cache that cannot be read: the refresh after such a failure
/// is the only one.
pub proof fn lemma_refresh_reads_no_cache(event: EventView, next: EventView, ttl: u64)
    ensures
        event is Probed ==> spec_step(CacheState::Idle, event, ttl, true) == (
            CacheState::Fetching,
            CacheAction::Fetch,
        ),
        spec_step(CacheState::Fetching, next, ttl, true).1 != CacheAction::ReadCache,
        spec_step(CacheState::Fetching, next, ttl, true).1 != CacheAction::Fail(
            BeamError::CacheCorrupt,
        ),
{
}

/// The directory is fetched at most once for a request, and it is stored
/// only after it was fetched: the only step to `Fetching` starts in `Idle`,
/// and the only step with `Store` starts in `Fetching`.
pub proof fn lemma_one_fetch(state: CacheState, event: EventView, ttl: u64, force_refresh: bool)
    ensures
        spec_step(state, event, ttl, force_refresh).1 == CacheAction::Fetch ==> state
            == CacheState::Idle && spec_step(state, event, ttl, force_refresh).0
            == CacheState::Fetching,
        spec_step(state, event, ttl, force_refresh).1 == CacheAction::Store ==> state
            == CacheState::Fetching,
        spec_step(state, event, ttl, force_refresh).0 == CacheState::Idle ==> state
            == CacheState::Idle,
        state == CacheState::Finished ==> spec_step(state, event, ttl, force_refresh) == (
            CacheState::Finished,
            CacheAction::Wait,
        ),
{
}

} // verus!
