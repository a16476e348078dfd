//! Rules of the resolve stage.
//!
//! A light API is asked first, a heavier program after it. Successes are
//! cached; failures only where they will last.

use crate::config::{FloatBits, USER_AGENT};
use crate::media::url::TweetLink;
use crate::pipeline::errors::{io_error_text, Error, ResolveError};
use crate::pipeline::process::JsonSubprocessError;
use crate::pipeline::types::{safe_extension, sanitize_extension, MediaType, ResolvedMedia};
use crate::text::{
    contains, decimal, decimal_of, first_piece, holds_within, is_white, last_piece,
    lemma_contains_is_within, lemma_first_part, lemma_last_piece, lemma_split_parts, lines,
    lines_of, lower, lower_str, same, split, split_once, split_str, starts_with, str_contains,
    str_starts_with, trim, trim_str, unicode_lower, unicode_lower_str, views,
};
use vstd::prelude::*;
use vstd::string::StringExecFns;

verus! {

/// Sizes of the resolver caches.
#[derive(Debug, Clone, Copy)]
pub struct ResolverCacheStats {
    pub positive_entries: u64,
    pub negative_entries: u64,
}

// ---------------------------------------------------------------------------
// Which failures last
// ---------------------------------------------------------------------------
/// A parse failure that lasts: the text, in lower case, does not speak of a
/// body that broke off.
pub open spec fn parse_text_lasts(text: Seq<char>) -> bool {
    !(contains(text, "eof"@) || contains(text, "unexpected end"@) || contains(
        text,
        "unterminated"@,
    ) || contains(text, "truncated"@) || contains(text, "partial"@))
}

/// Words of a failure that may pass.
pub open spec fn names_passing_failure(text: Seq<char>) -> bool {
    ||| contains(text, "timed out"@)
    ||| contains(text, "timeout"@)
    ||| contains(text, "rate limit"@)
    ||| contains(text, "429"@)
    ||| contains(text, "network"@)
    ||| contains(text, "connection"@)
    ||| contains(text, "temporar"@)
    ||| contains(text, "server"@)
}

/// Words of a tweet that cannot be had.
pub open spec fn names_lasting_failure(text: Seq<char>) -> bool {
    ||| contains(text, "private"@)
    ||| contains(text, "protected"@)
    ||| contains(text, "not found"@)
    ||| contains(text, "no media"@)
    ||| contains(text, "unavailable"@)
    ||| contains(text, "does not exist"@)
}

/// A process failure that lasts, by its error output in lower case.
pub open spec fn process_text_lasts(text: Seq<char>) -> bool {
    !names_passing_failure(text) && names_lasting_failure(text)
}

/// Whether a failure is worth remembering.
pub open spec fn lasts(error: ResolveError) -> bool {
    match error {
        ResolveError::HttpStatus(code) => code == 404,
        ResolveError::ParseFailed(message) => parse_text_lasts(unicode_lower(message@)),
        ResolveError::ProcessFailed { stderr, .. } => process_text_lasts(unicode_lower(stderr@)),
    }
}

/// Judge the text of a parse failure, given in lower case.
pub fn durable_parse_text(lowered: &str) -> (r: bool)
    ensures
        r == parse_text_lasts(lowered@),
{
    !(str_contains(lowered, "eof") || str_contains(lowered, "unexpected end") || str_contains(
        lowered,
        "unterminated",
    ) || str_contains(lowered, "truncated") || str_contains(lowered, "partial"))
}

/// Judge the error output of a failed process, given in lower case.
pub fn durable_process_text(lowered: &str) -> (r: bool)
    ensures
        r == process_text_lasts(lowered@),
{
    if str_contains(lowered, "timed out") || str_contains(lowered, "timeout") || str_contains(
        lowered,
        "rate limit",
    ) || str_contains(lowered, "429") || str_contains(lowered, "network") || str_contains(
        lowered,
        "connection",
    ) || str_contains(lowered, "temporar") || str_contains(lowered, "server") {
        return false;
    }
    str_contains(lowered, "private") || str_contains(lowered, "protected") || str_contains(
        lowered,
        "not found",
    ) || str_contains(lowered, "no media") || str_contains(lowered, "unavailable") || str_contains(
        lowered,
        "does not exist",
    )
}

/// Whether a failure is remembered: passing ones, such as timeouts and rate
/// limits, are not.
pub fn should_negative_cache(error: &ResolveError) -> (r: bool)
    ensures
        r == lasts(*error),
{
    match error {
        ResolveError::HttpStatus(code) => *code == 404,
        ResolveError::ParseFailed(message) => {
            let lowered = unicode_lower_str(message.as_str());
            durable_parse_text(lowered.as_str())
        },
        ResolveError::ProcessFailed { stderr, .. } => {
            let lowered = unicode_lower_str(stderr.as_str());
            durable_process_text(lowered.as_str())
        },
    }
}

// ---------------------------------------------------------------------------
// The chain
// ---------------------------------------------------------------------------
/// Where a resolve stands.
#[derive(Debug)]
pub enum ResolvePhase {
    NegativeLookup,
    PositiveLookup,
    Api,
    Permit { remembered: Option<ResolveError> },
    Program { remembered: Option<ResolveError> },
    Over,
}

/// What a step of a resolve brought.
#[derive(Debug)]
pub enum ResolveEvent {
    /// The entry of the failure cache.
    Negative { entry: Option<ResolveError> },
    /// The entry of the success cache.
    Positive { entry: Option<ResolvedMedia> },
    /// What the API or the program answered.
    Answer { result: Result<ResolvedMedia, ResolveError> },
    /// Whether the program may run.
    PermitGranted { granted: bool },
}

/// What to write to a cache.
#[derive(Debug)]
pub enum CacheWrite {
    Success,
    Failure { error: ResolveError },
}

/// What to do next.
#[derive(Debug)]
pub enum ResolveAction {
    LookUpPositive,
    AskApi,
    AcquirePermit,
    RunProgram,
    /// Write the cache, where something is to be written, and return.
    Finish { write: Option<CacheWrite>, result: Result<ResolvedMedia, Error> },
    /// The event does not fit the phase.
    Ignore,
}

/// One resolve through caches, API and program.
#[derive(Debug)]
pub struct ResolveWalk {
    pub phase: ResolvePhase,
}

/// The failure of a resolver.
pub open spec fn resolver_failure(resolver: &'static str, source: ResolveError) -> Error {
    Error::ResolveFailed { resolver, source }
}

/// `e` is the failure that no permit could be had.
pub open spec fn is_permit_failure(e: Error) -> bool {
    e matches Error::ResolveFailed {
        resolver,
        source: ResolveError::ProcessFailed { exit_code: None, stderr },
    } && resolver == "yt-dlp" && stderr@ == "ytdlp semaphore closed"@
}

impl ResolveWalk {
    /// Begin with the failure cache.
    pub fn new() -> (r: Self)
        ensures
            r.phase is NegativeLookup,
    {
        ResolveWalk { phase: ResolvePhase::NegativeLookup }
    }

    /// Phase and action after an event.
    pub open spec fn is_next(&self, event: ResolveEvent, next: ResolvePhase, action: ResolveAction) -> bool {
        match (self.phase, event) {
            (ResolvePhase::NegativeLookup, ResolveEvent::Negative { entry: Some(error) }) => {
                &&& next is Over
                &&& action == (ResolveAction::Finish {
                    write: None,
                    result: Err(resolver_failure("negative-cache", error)),
                })
            },
            (ResolvePhase::NegativeLookup, ResolveEvent::Negative { entry: None }) => {
                &&& next is PositiveLookup
                &&& action is LookUpPositive
            },
            (ResolvePhase::PositiveLookup, ResolveEvent::Positive { entry: Some(media) }) => {
                &&& next is Over
                &&& action == (ResolveAction::Finish { write: None, result: Ok(media) })
            },
            (ResolvePhase::PositiveLookup, ResolveEvent::Positive { entry: None }) => {
                &&& next is Api
                &&& action is AskApi
            },
            (ResolvePhase::Api, ResolveEvent::Answer { result: Ok(media) }) => {
                &&& next is Over
                &&& action == (ResolveAction::Finish {
                    write: Some(CacheWrite::Success),
                    result: Ok(media),
                })
            },
            (ResolvePhase::Api, ResolveEvent::Answer { result: Err(error) }) => {
                &&& next == (ResolvePhase::Permit {
                    remembered: if lasts(error) {
                        Some(error)
                    } else {
                        None
                    },
                })
                &&& action is AcquirePermit
            },
            (ResolvePhase::Permit { remembered }, ResolveEvent::PermitGranted { granted: true }) => {
                &&& next == (ResolvePhase::Program { remembered })
                &&& action is RunProgram
            },
            (ResolvePhase::Permit { .. }, ResolveEvent::PermitGranted { granted: false }) => {
                &&& next is Over
                &&& action matches ResolveAction::Finish { write: None, result: Err(e) }
                    && is_permit_failure(e)
            },
            (ResolvePhase::Program { .. }, ResolveEvent::Answer { result: Ok(media) }) => {
                &&& next is Over
                &&& action == (ResolveAction::Finish {
                    write: Some(CacheWrite::Success),
                    result: Ok(media),
                })
            },
            (ResolvePhase::Program { remembered }, ResolveEvent::Answer { result: Err(error) }) => {
                &&& next is Over
                &&& action == (ResolveAction::Finish {
                    write: if lasts(error) {
                        Some(CacheWrite::Failure { error })
                    } else {
                        match remembered {
                            Some(earlier) => Some(CacheWrite::Failure { error: earlier }),
                            None => None,
                        }
                    },
                    result: Err(resolver_failure("yt-dlp", error)),
                })
            },
            _ => next == self.phase && action is Ignore,
        }
    }

    /// Take in what a step brought and say what to do next.
    pub fn on_event(&mut self, event: ResolveEvent) -> (action: ResolveAction)
        ensures
            old(self).is_next(event, final(self).phase, action),
    {
        let mut phase = ResolvePhase::Over;
        std::mem::swap(&mut phase, &mut self.phase);
        match (phase, event) {
            (ResolvePhase::NegativeLookup, ResolveEvent::Negative { entry }) => match entry {
                Some(error) => ResolveAction::Finish {
                    write: None,
                    result: Err(Error::ResolveFailed { resolver: "negative-cache", source: error }),
                },
                None => {
                    self.phase = ResolvePhase::PositiveLookup;
                    ResolveAction::LookUpPositive
                },
            },
            (ResolvePhase::PositiveLookup, ResolveEvent::Positive { entry }) => match entry {
                Some(media) => ResolveAction::Finish { write: None, result: Ok(media) },
                None => {
                    self.phase = ResolvePhase::Api;
                    ResolveAction::AskApi
                },
            },
            (ResolvePhase::Api, ResolveEvent::Answer { result }) => match result {
                Ok(media) => ResolveAction::Finish {
                    write: Some(CacheWrite::Success),
                    result: Ok(media),
                },
                Err(error) => {
                    let remembered = if should_negative_cache(&error) {
                        Some(error)
                    } else {
                        None
                    };
                    self.phase = ResolvePhase::Permit { remembered };
                    ResolveAction::AcquirePermit
                },
            },
            (ResolvePhase::Permit { remembered }, ResolveEvent::PermitGranted { granted }) => {
                if granted {
                    self.phase = ResolvePhase::Program { remembered };
                    ResolveAction::RunProgram
                } else {
                    ResolveAction::Finish {
                        write: None,
                        result: Err(
                            Error::ResolveFailed {
                                resolver: "yt-dlp",
                                source: ResolveError::ProcessFailed {
                                    exit_code: None,
                                    stderr: "ytdlp semaphore closed".to_owned(),
                                },
                            },
                        ),
                    }
                }
            },
            (ResolvePhase::Program { remembered }, ResolveEvent::Answer { result }) => match result {
                Ok(media) => ResolveAction::Finish {
                    write: Some(CacheWrite::Success),
                    result: Ok(media),
                },
                Err(error) => {
                    let write = if should_negative_cache(&error) {
                        Some(CacheWrite::Failure { error: error.duplicate() })
                    } else {
                        match remembered {
                            Some(earlier) => Some(CacheWrite::Failure { error: earlier }),
                            None => None,
                        }
                    };
                    ResolveAction::Finish {
                        write,
                        result: Err(Error::ResolveFailed { resolver: "yt-dlp", source: error }),
                    }
                },
            },
            (phase, _) => {
                self.phase = phase;
                ResolveAction::Ignore
            },
        }
    }

    /// What is remembered along the way is a lasting failure.
    pub open spec fn wf(&self) -> bool {
        match self.phase {
            ResolvePhase::Permit { remembered: Some(e) } => lasts(e),
            ResolvePhase::Program { remembered: Some(e) } => lasts(e),
            _ => true,
        }
    }
}

/// Only successes enter the success cache and only lasting failures enter the
/// failure cache, whatever the steps bring.
pub proof fn lemma_caches_hold_what_lasts(
    walk: ResolveWalk,
    event: ResolveEvent,
    next: ResolvePhase,
    action: ResolveAction,
)
    requires
        walk.wf(),
        walk.is_next(event, next, action),
    ensures
        (ResolveWalk { phase: next }).wf(),
        action matches ResolveAction::Finish { write: Some(CacheWrite::Success), result }
            ==> result is Ok,
        action matches ResolveAction::Finish { write: Some(CacheWrite::Failure { error }), result }
            ==> result is Err && lasts(error),
{
}

// ---------------------------------------------------------------------------
// The API
// ---------------------------------------------------------------------------
/// One medium that the API lists.
#[derive(Debug)]
pub struct VxMedia {
    pub url: String,
    pub media_type: String,
    pub duration_millis: Option<u64>,
    pub width: Option<u32>,
    pub height: Option<u32>,
}

/// The address that the API is asked at.
pub fn vx_api_url(link: &TweetLink) -> (s: String)
    ensures
        s@ == "https://api.vxtwitter.com/"@ + link.user@ + "/status/"@ + decimal(
            link.tweet_id.0 as nat,
        ),
{
    let mut s = "https://api.vxtwitter.com/".to_owned();
    s.append(link.user.as_str());
    s.append("/status/");
    s.append(decimal_of(link.tweet_id.0).as_str());
    s
}

/// Video before GIF before stills.
pub open spec fn media_rank(media_type: Seq<char>) -> int {
    if media_type == "video"@ {
        0
    } else if media_type == "gif"@ {
        1
    } else if media_type == "image"@ || media_type == "photo"@ {
        2
    } else {
        3
    }
}

fn rank_of(media_type: &str) -> (r: u8)
    ensures
        r == media_rank(media_type@),
{
    if same(media_type, "video") {
        0
    } else if same(media_type, "gif") {
        1
    } else if same(media_type, "image") || same(media_type, "photo") {
        2
    } else {
        3
    }
}

/// `i` is the first of the best-ranked media.
pub open spec fn is_best_media(media: Seq<VxMedia>, i: int) -> bool {
    &&& 0 <= i < media.len()
    &&& forall|j: int|
        0 <= j < media.len() ==> media_rank(media[i].media_type@) <= media_rank(
            (#[trigger] media[j]).media_type@,
        )
    &&& forall|j: int|
        0 <= j < i ==> media_rank(media[i].media_type@) < media_rank(
            (#[trigger] media[j]).media_type@,
        )
}

/// `e` says that there is no media.
pub open spec fn is_parse_failure(e: ResolveError, text: Seq<char>) -> bool {
    e matches ResolveError::ParseFailed(t) && t@ == text
}

/// The place of the medium to use.
pub fn select_best_media(media: &Vec<VxMedia>) -> (r: Result<usize, ResolveError>)
    ensures
        r is Ok <==> media@.len() > 0,
        r matches Ok(i) ==> is_best_media(media@, i as int),
        r matches Err(e) ==> is_parse_failure(e, "no media"@),
{
    if media.len() == 0 {
        return Err(ResolveError::ParseFailed("no media".to_owned()));
    }
    let mut best: usize = 0;
    let mut best_rank: u8 = rank_of(media[0].media_type.as_str());
    let mut i: usize = 1;
    while i < media.len()
        invariant
            1 <= i <= media@.len(),
            best < i,
            best_rank == media_rank(media@[best as int].media_type@),
            forall|j: int|
                0 <= j < i ==> best_rank <= media_rank((#[trigger] media@[j]).media_type@),
            forall|j: int|
                0 <= j < best ==> best_rank < media_rank((#[trigger] media@[j]).media_type@),
        decreases media@.len() - i,
    {
        let rank = rank_of(media[i].media_type.as_str());
        if rank < best_rank {
            best = i;
            best_rank = rank;
        }
        i = i + 1;
    }
    Ok(best)
}

pub open spec fn size_of_media(width: Option<u32>, height: Option<u32>) -> Option<(u32, u32)> {
    match (width, height) {
        (Some(w), Some(h)) => Some((w, h)),
        _ => None,
    }
}

/// Put the API's medium together; `extension` is raw, `duration` the seconds.
pub fn vx_resolved(media: &VxMedia, extension: &str, duration: Option<FloatBits>) -> (r:
    ResolvedMedia)
    ensures
        r.url@ == media.url@,
        r.media_type == (if media.media_type@ == "image"@ || media.media_type@ == "photo"@ {
            MediaType::Image
        } else {
            MediaType::Video
        }),
        r.duration == duration,
        r.resolution == size_of_media(media.width, media.height),
        r.extension@ == safe_extension(extension@),
        !r.needs_container_fix,
{
    let is_image = same(media.media_type.as_str(), "image") || same(
        media.media_type.as_str(),
        "photo",
    );
    let resolution: Option<(u32, u32)> = match (media.width, media.height) {
        (Some(w), Some(h)) => Some((w, h)),
        _ => None,
    };
    ResolvedMedia {
        url: media.url.clone(),
        media_type: if is_image {
            MediaType::Image
        } else {
            MediaType::Video
        },
        duration,
        resolution,
        extension: sanitize_extension(extension),
        needs_container_fix: false,
    }
}

/// The API did not answer in time.
pub fn vx_timeout() -> (e: ResolveError)
    ensures
        e matches ResolveError::ProcessFailed { exit_code: None, stderr } && stderr@
            == "vxtwitter timed out"@,
{
    ResolveError::ProcessFailed { exit_code: None, stderr: "vxtwitter timed out".to_owned() }
}

// ---------------------------------------------------------------------------
// Extensions
// ---------------------------------------------------------------------------
/// What stands behind the last dot of the last path segment, before the query;
/// nothing where there is no dot or nothing behind it.
pub open spec fn url_extension(url: Seq<char>) -> Option<Seq<char>> {
    let file = split(split(url, '?')[0], '/').last();
    let pieces = split(file, '.');
    if pieces.last() == file || pieces.last().len() == 0 {
        None
    } else {
        Some(unicode_lower(pieces.last()))
    }
}

pub open spec fn text_of(t: Option<String>) -> Option<Seq<char>> {
    match t {
        Some(s) => Some(s@),
        None => None,
    }
}

/// The extension in an address.
pub fn extension_from_url(url: &str) -> (r: Option<String>)
    ensures
        text_of(r) == url_extension(url@),
{
    let path = first_piece(url, '?');
    let file = last_piece(path.as_str(), '/');
    let ext = last_piece(file.as_str(), '.');
    if same(ext.as_str(), file.as_str()) || ext.as_str().is_empty() {
        return None;
    }
    Some(unicode_lower_str(ext.as_str()))
}

/// The value of a `format` pair.
pub open spec fn format_value(pair: Seq<char>) -> Option<Seq<char>> {
    match pair.index_of_first('=') {
        Some(i) => if lower(pair.take(i)) == "format"@ && pair.skip(i + 1).len() > 0 {
            Some(lower(pair.skip(i + 1)))
        } else {
            None
        },
        None => None,
    }
}

/// The first `format` value of a list of pairs.
pub open spec fn first_format(pairs: Seq<Seq<char>>, i: int) -> Option<Seq<char>>
    decreases pairs.len() - i,
{
    if 0 <= i < pairs.len() {
        match format_value(pairs[i]) {
            Some(v) => Some(v),
            None => first_format(pairs, i + 1),
        }
    } else {
        None
    }
}

/// The query of an address.
pub open spec fn query_of(url: Seq<char>) -> Option<Seq<char>> {
    match url.index_of_first('?') {
        Some(i) => Some(url.skip(i + 1)),
        None => None,
    }
}

/// The extension that the query names.
pub open spec fn query_extension(url: Seq<char>) -> Option<Seq<char>> {
    match query_of(url) {
        Some(query) => first_format(split(query, '&'), 0),
        None => None,
    }
}

fn pair_format(pair: &str) -> (r: Option<String>)
    ensures
        text_of(r) == format_value(pair@),
{
    proof {
        pair@.index_of_first_ensures('=');
    }
    match split_once(pair, '=') {
        Some((key, value)) => {
            proof {
                lemma_first_part(pair@, '=', key@, value@);
            }
            if same(lower_str(key.as_str()).as_str(), "format") && !value.as_str().is_empty() {
                Some(lower_str(value.as_str()))
            } else {
                None
            }
        },
        None => None,
    }
}

/// The extension that a `format` pair of the query names.
pub fn extension_from_query_format(url: &str) -> (r: Option<String>)
    ensures
        text_of(r) == query_extension(url@),
{
    proof {
        url@.index_of_first_ensures('?');
    }
    let query = match split_once(url, '?') {
        Some((path, query)) => {
            proof {
                lemma_first_part(url@, '?', path@, query@);
            }
            query
        },
        None => {
            return None;
        },
    };
    let pairs = split_str(query.as_str(), '&');
    let ghost all = views(pairs@);
    let mut i: usize = 0;
    while i < pairs.len()
        invariant
            i <= pairs@.len(),
            all == views(pairs@),
            query_extension(url@) == first_format(all, 0),
            first_format(all, 0) == first_format(all, i as int),
        decreases pairs@.len() - i,
    {
        assert(all[i as int] == pairs@[i as int]@);
        if let Some(value) = pair_format(pairs[i].as_str()) {
            return Some(value);
        }
        i = i + 1;
    }
    None
}

/// The extension that the API's answer gives away: in the path, in the query,
/// or by the type.
pub open spec fn metadata_extension(media_type: Seq<char>, url: Seq<char>) -> Option<Seq<char>> {
    if url_extension(url) is Some {
        url_extension(url)
    } else if query_extension(url) is Some {
        query_extension(url)
    } else if media_type == "gif"@ {
        Some("gif"@)
    } else {
        None
    }
}

pub fn extension_from_vxtwitter_metadata(media_type: &str, url: &str) -> (r: Option<String>)
    ensures
        text_of(r) == metadata_extension(media_type@, url@),
{
    if let Some(ext) = extension_from_url(url) {
        return Some(ext);
    }
    if let Some(ext) = extension_from_query_format(url) {
        return Some(ext);
    }
    if same(media_type, "gif") {
        Some("gif".to_owned())
    } else {
        None
    }
}

/// The extensions that are taken from an address as they stand.
pub open spec fn is_plain_extension(ext: Seq<char>) -> bool {
    ||| ext == "mp4"@
    ||| ext == "webm"@
    ||| ext == "gif"@
    ||| ext == "jpg"@
    ||| ext == "jpeg"@
    ||| ext == "png"@
    ||| ext == "webp"@
}

/// What stands behind the last dot of an address, before a query in it.
pub open spec fn bare_extension(url: Seq<char>) -> Seq<char> {
    split(split(url, '.').last(), '?')[0]
}

/// A known extension at the end of an address; without one the server has to
/// be asked.
pub fn plain_url_extension(url: &str) -> (r: Option<String>)
    ensures
        text_of(r) == (if is_plain_extension(bare_extension(url@)) {
            Some(bare_extension(url@))
        } else {
            None
        }),
{
    let tail = last_piece(url, '.');
    let ext = first_piece(tail.as_str(), '?');
    let e = ext.as_str();
    if same(e, "mp4") || same(e, "webm") || same(e, "gif") || same(e, "jpg") || same(e, "jpeg")
        || same(e, "png") || same(e, "webp") {
        Some(ext)
    } else {
        None
    }
}

/// The extension for a media type that the server states.
pub open spec fn mime_extension(mime: Seq<char>) -> Seq<char> {
    let base = trim(split(mime, ';')[0]);
    if base == "video/mp4"@ {
        "mp4"@
    } else if base == "video/webm"@ {
        "webm"@
    } else if base == "video/quicktime"@ {
        "mov"@
    } else if base == "image/jpeg"@ {
        "jpg"@
    } else if base == "image/png"@ {
        "png"@
    } else if base == "image/webp"@ {
        "webp"@
    } else if base == "image/gif"@ {
        "gif"@
    } else if split(base, '/').len() > 1 {
        split(base, '/')[1]
    } else {
        "mp4"@
    }
}

pub fn extension_from_mime_type(mime_type: &str) -> (s: String)
    ensures
        s@ == mime_extension(mime_type@),
{
    let first = first_piece(mime_type, ';');
    let base = trim_str(first.as_str());
    let b = base.as_str();
    if same(b, "video/mp4") {
        "mp4".to_owned()
    } else if same(b, "video/webm") {
        "webm".to_owned()
    } else if same(b, "video/quicktime") {
        "mov".to_owned()
    } else if same(b, "image/jpeg") {
        "jpg".to_owned()
    } else if same(b, "image/png") {
        "png".to_owned()
    } else if same(b, "image/webp") {
        "webp".to_owned()
    } else if same(b, "image/gif") {
        "gif".to_owned()
    } else {
        let pieces = split_str(b, '/');
        assert(views(pieces@).len() == pieces@.len());
        if pieces.len() > 1 {
            assert(views(pieces@)[1] == pieces@[1]@);
            pieces[1].clone()
        } else {
            "mp4".to_owned()
        }
    }
}

/// The extension for a kind of media.
pub open spec fn kind_extension(media_type: Seq<char>) -> Seq<char> {
    if media_type == "gif"@ {
        "gif"@
    } else if media_type == "image"@ || media_type == "photo"@ {
        "jpg"@
    } else {
        "mp4"@
    }
}

/// The extension where the address has none: what the server stated, else by
/// the kind of media.
pub fn inferred_extension(media_type: &str, stated_mime: Option<&str>) -> (s: String)
    ensures
        s@ == (match stated_mime {
            Some(mime) => mime_extension(mime@),
            None => kind_extension(media_type@),
        }),
{
    match stated_mime {
        Some(mime) => extension_from_mime_type(mime),
        None => {
            if same(media_type, "gif") {
                "gif".to_owned()
            } else if same(media_type, "image") || same(media_type, "photo") {
                "jpg".to_owned()
            } else {
                "mp4".to_owned()
            }
        },
    }
}

// ---------------------------------------------------------------------------
// The program
// ---------------------------------------------------------------------------
/// One downloadable format; the bitrate is held by its bits.
#[derive(Debug)]
pub struct YtDlpFormat {
    pub url: Option<String>,
    pub ext: Option<String>,
    pub vcodec: Option<String>,
    pub acodec: Option<String>,
    pub tbr: Option<FloatBits>,
}

/// What the program printed.
#[derive(Debug)]
pub struct YtDlpOutput {
    pub url: Option<String>,
    pub formats: Vec<YtDlpFormat>,
    pub duration: Option<FloatBits>,
    pub width: Option<u32>,
    pub height: Option<u32>,
    pub ext: Option<String>,
    pub thumbnail: Option<String>,
}

/// The program's arguments.
pub fn ytdlp_args(link: &TweetLink) -> (v: Vec<String>)
    ensures
        views(v@) == seq![
            "--dump-json"@,
            "--no-warnings"@,
            "--no-playlist"@,
            "--no-check-certificate"@,
            "--user-agent"@,
            USER_AGENT@,
            "--extractor-args"@,
            "twitter:api=syndication"@,
            link.canonical_url@,
        ],
{
    let mut v: Vec<String> = Vec::new();
    v.push("--dump-json".to_owned());
    v.push("--no-warnings".to_owned());
    v.push("--no-playlist".to_owned());
    v.push("--no-check-certificate".to_owned());
    v.push("--user-agent".to_owned());
    v.push(USER_AGENT.to_owned());
    v.push("--extractor-args".to_owned());
    v.push("twitter:api=syndication".to_owned());
    v.push(link.canonical_url().to_owned());
    assert(views(v@) =~= seq![
        "--dump-json"@,
        "--no-warnings"@,
        "--no-playlist"@,
        "--no-check-certificate"@,
        "--user-agent"@,
        USER_AGENT@,
        "--extractor-args"@,
        "twitter:api=syndication"@,
        link.canonical_url@,
    ]);
    v
}

/// A failure to run the program, as a resolve failure.
pub fn ytdlp_process_error(error: JsonSubprocessError) -> (e: ResolveError)
    ensures
        e matches ResolveError::ProcessFailed { exit_code: None, stderr } && match error {
            JsonSubprocessError::Io(_) => true,
            JsonSubprocessError::Timeout => stderr@ == "yt-dlp timed out"@,
            JsonSubprocessError::OutputLimit { stderr_tail } => stderr@
                == "yt-dlp output exceeded limit: "@ + stderr_tail@,
        },
{
    let stderr = match error {
        JsonSubprocessError::Io(error) => io_error_text(&error),
        JsonSubprocessError::Timeout => "yt-dlp timed out".to_owned(),
        JsonSubprocessError::OutputLimit { stderr_tail } => {
            let mut s = "yt-dlp output exceeded limit: ".to_owned();
            s.append(stderr_tail.as_str());
            s
        },
    };
    ResolveError::ProcessFailed { exit_code: None, stderr }
}

/// The program ended with a failure: its first line of error output counts.
pub fn ytdlp_exit_error(exit_code: Option<i32>, stderr_tail: &str) -> (e: ResolveError)
    ensures
        e matches ResolveError::ProcessFailed { exit_code: code, stderr } && code == exit_code
            && stderr@ == (if lines(stderr_tail@).len() > 0 {
            lines(stderr_tail@)[0]
        } else {
            "unknown error"@
        }),
{
    let all = lines_of(stderr_tail);
    assert(views(all@).len() == all@.len());
    let stderr = if all.len() > 0 {
        assert(views(all@)[0] == all@[0]@);
        all[0].clone()
    } else {
        "unknown error".to_owned()
    };
    ResolveError::ProcessFailed { exit_code, stderr }
}

/// The extensions of images.
pub open spec fn is_image_ext(ext: Seq<char>) -> bool {
    ext == "jpg"@ || ext == "jpeg"@ || ext == "png"@ || ext == "webp"@ || ext == "gif"@
}

pub fn is_image_extension(ext: &str) -> (r: bool)
    ensures
        r == is_image_ext(ext@),
{
    same(ext, "jpg") || same(ext, "jpeg") || same(ext, "png") || same(ext, "webp") || same(
        ext,
        "gif",
    )
}

pub open spec fn text_or(t: Option<String>, other: Seq<char>) -> Seq<char> {
    match t {
        Some(s) => s@,
        None => other,
    }
}

/// H.264 with AAC: such a file can be uploaded as it is.
pub open spec fn upload_ready(f: YtDlpFormat) -> bool {
    let v = text_or(f.vcodec, ""@);
    let a = text_or(f.acodec, ""@);
    &&& starts_with(v, "avc"@) || contains(v, "h264"@)
    &&& starts_with(a, "mp4a"@) || contains(a, "aac"@)
}

fn text_or_empty(t: &Option<String>) -> (s: String)
    ensures
        s@ == text_or(*t, ""@),
{
    match t {
        Some(s) => s.clone(),
        None => "".to_owned(),
    }
}

pub fn is_upload_compatible(format: &YtDlpFormat) -> (r: bool)
    ensures
        r == upload_ready(*format),
{
    let v = text_or_empty(&format.vcodec);
    let a = text_or_empty(&format.acodec);
    let is_h264 = str_starts_with(v.as_str(), "avc") || str_contains(v.as_str(), "h264");
    let is_aac = str_starts_with(a.as_str(), "mp4a") || str_contains(a.as_str(), "aac");
    is_h264 && is_aac
}

/// A format that can be downloaded as video.
pub open spec fn is_candidate(f: YtDlpFormat) -> bool {
    f.url is Some && !(f.vcodec matches Some(v) && v@ == "none"@)
}

/// The place of a number in the total order of IEEE 754: negative numbers,
/// from the largest bits down, before positive ones.
pub open spec fn float_place(bits: u64) -> int {
    if bits < 0x8000_0000_0000_0000 {
        bits + 0x8000_0000_0000_0000
    } else {
        0xffff_ffff_ffff_ffff - bits
    }
}

/// The bitrate's place; a missing one is zero.
pub open spec fn rate_place(f: YtDlpFormat) -> int {
    match f.tbr {
        Some(b) => float_place(b.bits),
        None => float_place(0),
    }
}

/// `a` goes before `b`: ready for upload first, then by bitrate, then the
/// later one.
pub open spec fn goes_before(a: YtDlpFormat, i: int, b: YtDlpFormat, j: int) -> bool {
    if upload_ready(a) != upload_ready(b) {
        upload_ready(a)
    } else if rate_place(a) != rate_place(b) {
        rate_place(a) > rate_place(b)
    } else {
        i > j
    }
}

/// `i` is the best of the candidates.
pub open spec fn is_best_format(formats: Seq<YtDlpFormat>, i: int) -> bool {
    &&& 0 <= i < formats.len()
    &&& is_candidate(formats[i])
    &&& forall|j: int|
        0 <= j < formats.len() && j != i && is_candidate(#[trigger] formats[j]) ==> goes_before(
            formats[i],
            i,
            formats[j],
            j,
        )
}

fn float_place_of(bits: u64) -> (r: u64)
    ensures
        r == float_place(bits),
{
    if bits < 0x8000_0000_0000_0000 {
        bits + 0x8000_0000_0000_0000
    } else {
        0xffff_ffff_ffff_ffff - bits
    }
}

fn format_is_candidate(format: &YtDlpFormat) -> (r: bool)
    ensures
        r == is_candidate(*format),
{
    let no_video = match &format.vcodec {
        Some(v) => same(v.as_str(), "none"),
        None => false,
    };
    format.url.is_some() && !no_video
}

fn format_rate_place(format: &YtDlpFormat) -> (r: u64)
    ensures
        r == rate_place(*format),
{
    match format.tbr {
        Some(b) => float_place_of(b.bits),
        None => float_place_of(0),
    }
}

/// The best downloadable format, by place.
pub fn best_format(formats: &Vec<YtDlpFormat>) -> (r: Option<usize>)
    ensures
        r matches Some(i) ==> is_best_format(formats@, i as int),
        r is None ==> forall|j: int|
            0 <= j < formats@.len() ==> !is_candidate(#[trigger] formats@[j]),
{
    let mut best: Option<usize> = None;
    let mut i: usize = 0;
    while i < formats.len()
        invariant
            i <= formats@.len(),
            best matches Some(b) ==> b < i && is_candidate(formats@[b as int]) && forall|j: int|
                0 <= j < i && j != b && is_candidate(#[trigger] formats@[j]) ==> goes_before(
                    formats@[b as int],
                    b as int,
                    formats@[j],
                    j,
                ),
            best is None ==> forall|j: int| 0 <= j < i ==> !is_candidate(#[trigger] formats@[j]),
        decreases formats@.len() - i,
    {
        if format_is_candidate(&formats[i]) {
            let better = match best {
                None => true,
                Some(b) => {
                    let ready_new = is_upload_compatible(&formats[i]);
                    let ready_old = is_upload_compatible(&formats[b]);
                    let rate_new = format_rate_place(&formats[i]);
                    let rate_old = format_rate_place(&formats[b]);
                    if ready_new != ready_old {
                        ready_new
                    } else {
                        rate_new >= rate_old
                    }
                },
            };
            if better {
                best = Some(i);
            }
        }
        i = i + 1;
    }
    best
}

/// Address, raw extension and kind of the media to fetch.
#[derive(Debug)]
pub struct SelectedFormat {
    pub url: String,
    pub ext: String,
    pub is_image: bool,
}

fn text_or_mp4(t: &Option<String>) -> (s: String)
    ensures
        s@ == text_or(*t, "mp4"@),
{
    match t {
        Some(s) => s.clone(),
        None => "mp4".to_owned(),
    }
}

/// Choose what to fetch: a direct address, else the best format, else the
/// thumbnail of an image tweet.
pub fn select_best_format(output: &YtDlpOutput) -> (r: Result<SelectedFormat, ResolveError>)
    ensures
        output.url matches Some(url) ==> (r matches Ok(s) && s.url@ == url@ && s.ext@ == text_or(
            output.ext,
            "mp4"@,
        ) && s.is_image == is_image_ext(text_or(output.ext, "mp4"@))),
        output.url is None ==> match r {
            Ok(s) => {
                ||| exists|i: int| #[trigger]
                    is_best_format(output.formats@, i) && s.url@ == output.formats@[i].url->0@
                        && s.ext@ == text_or(output.formats@[i].ext, "mp4"@) && !s.is_image
                ||| (forall|j: int|
                    0 <= j < output.formats@.len() ==> !is_candidate(
                        #[trigger] output.formats@[j],
                    )) && (output.thumbnail matches Some(t) && s.url@ == t@ && s.is_image && s.ext@
                    == (match url_extension(t@) {
                    Some(e) => e,
                    None => "jpg"@,
                }))
            },
            Err(e) => is_parse_failure(e, "no formats"@) && output.thumbnail is None && forall|
                j: int,
            |
                0 <= j < output.formats@.len() ==> !is_candidate(#[trigger] output.formats@[j]),
        },
{
    if let Some(url) = &output.url {
        let ext = text_or_mp4(&output.ext);
        let is_image = is_image_extension(ext.as_str());
        return Ok(SelectedFormat { url: url.clone(), ext, is_image });
    }
    if let Some(i) = best_format(&output.formats) {
        let format = &output.formats[i];
        assert(is_best_format(output.formats@, i as int));
        if let Some(url) = &format.url {
            return Ok(
                SelectedFormat {
                    url: url.clone(),
                    ext: text_or_mp4(&format.ext),
                    is_image: false,
                },
            );
        }
        return Err(ResolveError::ParseFailed("format missing url".to_owned()));
    }
    if let Some(thumbnail) = &output.thumbnail {
        let ext = match extension_from_url(thumbnail.as_str()) {
            Some(e) => e,
            None => "jpg".to_owned(),
        };
        return Ok(SelectedFormat { url: thumbnail.clone(), ext, is_image: true });
    }
    Err(ResolveError::ParseFailed("no formats".to_owned()))
}

/// No two formats tie: the choice is the only one.
pub proof fn lemma_best_format_is_unique(formats: Seq<YtDlpFormat>, i: int, j: int)
    requires
        is_best_format(formats, i),
        is_best_format(formats, j),
    ensures
        i == j,
{
    if i != j {
        assert(is_candidate(formats[i]));
        assert(is_candidate(formats[j]));
        assert(goes_before(formats[i], i, formats[j], j));
        assert(goes_before(formats[j], j, formats[i], i));
    }
}

/// Put the program's answer together.
pub fn ytdlp_resolved(output: &YtDlpOutput, selected: SelectedFormat) -> (r: ResolvedMedia)
    ensures
        r.url@ == selected.url@,
        r.media_type == (if selected.is_image {
            MediaType::Image
        } else {
            MediaType::Video
        }),
        r.duration == output.duration,
        r.resolution == size_of_media(output.width, output.height),
        r.extension@ == safe_extension(selected.ext@),
        !r.needs_container_fix,
{
    let resolution: Option<(u32, u32)> = match (output.width, output.height) {
        (Some(w), Some(h)) => Some((w, h)),
        _ => None,
    };
    ResolvedMedia {
        extension: sanitize_extension(selected.ext.as_str()),
        url: selected.url,
        media_type: if selected.is_image {
            MediaType::Image
        } else {
            MediaType::Video
        },
        duration: output.duration,
        resolution,
        needs_container_fix: false,
    }
}

// ---------------------------------------------------------------------------
// What the choice of a format keeps
// ---------------------------------------------------------------------------
/// The bits of a bitrate; a missing one is zero.
pub open spec fn rate_bits(f: YtDlpFormat) -> u64 {
    match f.tbr {
        Some(rate) => rate.bits,
        None => 0,
    }
}

/// One number is no smaller than another, by their bits: the sign bit marks
/// negative numbers, whose order is turned round.
pub open spec fn no_smaller(a: u64, b: u64) -> bool {
    if a < 0x8000_0000_0000_0000 {
        b >= 0x8000_0000_0000_0000 || a >= b
    } else {
        b >= 0x8000_0000_0000_0000 && a <= b
    }
}

/// Of the formats that can be downloaded, one that is ready for upload is
/// never passed over for one that is not. Of two that are equally ready, the
/// one with the strictly lower bitrate is never chosen, and of two with the
/// same bitrate the later one is.
pub proof fn lemma_best_format_has_highest_bitrate(formats: Seq<YtDlpFormat>, i: int, j: int)
    requires
        is_best_format(formats, i),
        0 <= j < formats.len(),
        formats[j].url is Some,
        formats[j].vcodec matches Some(codec) ==> codec@ != "none"@,
    ensures
        upload_ready(formats[j]) ==> upload_ready(formats[i]),
        upload_ready(formats[i]) == upload_ready(formats[j]) ==> no_smaller(
            rate_bits(formats[i]),
            rate_bits(formats[j]),
        ),
        upload_ready(formats[i]) == upload_ready(formats[j]) && rate_bits(formats[i]) == rate_bits(
            formats[j],
        ) ==> j <= i,
{
    assert(is_candidate(formats[j]));
    if i != j {
        assert(goes_before(formats[i], i, formats[j], j));
    }
}

/// What is chosen can be downloaded and has a picture.
pub proof fn lemma_best_format_is_downloadable(formats: Seq<YtDlpFormat>, i: int)
    requires
        is_best_format(formats, i),
    ensures
        0 <= i < formats.len(),
        formats[i].url is Some,
        formats[i].vcodec matches Some(codec) ==> codec@ != "none"@,
{
}

/// Ready for upload is exactly H.264 with AAC: both codecs are named, and each
/// by one of its two names.
pub proof fn lemma_upload_ready_is_h264_with_aac(f: YtDlpFormat)
    ensures
        upload_ready(f) <==> (f.vcodec matches Some(v) && (f.acodec matches Some(a) && {
            &&& seq!['a', 'v', 'c'].is_prefix_of(v@) || holds_within(v@, seq!['h', '2', '6', '4'])
            &&& seq!['m', 'p', '4', 'a'].is_prefix_of(a@) || holds_within(a@, seq!['a', 'a', 'c'])
        })),
{
    reveal_strlit("");
    reveal_strlit("avc");
    reveal_strlit("h264");
    reveal_strlit("mp4a");
    reveal_strlit("aac");
    assert("avc"@ =~= seq!['a', 'v', 'c']);
    assert("h264"@ =~= seq!['h', '2', '6', '4']);
    assert("mp4a"@ =~= seq!['m', 'p', '4', 'a']);
    assert("aac"@ =~= seq!['a', 'a', 'c']);
    let v = text_or(f.vcodec, ""@);
    let a = text_or(f.acodec, ""@);
    assert(starts_with(v, "avc"@) == seq!['a', 'v', 'c'].is_prefix_of(v));
    assert(starts_with(a, "mp4a"@) == seq!['m', 'p', '4', 'a'].is_prefix_of(a));
    lemma_contains_is_within(v, "h264"@);
    lemma_contains_is_within(a, "aac"@);
    if f.vcodec is None {
        assert(v.len() == 0);
        assert(!contains(v, "h264"@));
    }
    if f.acodec is None {
        assert(a.len() == 0);
        assert(!contains(a, "aac"@));
    }
}

// ---------------------------------------------------------------------------
// What a resolve keeps
// ---------------------------------------------------------------------------
/// Words of failures that may pass.
pub open spec fn passing_words() -> Seq<Seq<char>> {
    seq![
        "timed out"@, "timeout"@, "rate limit"@, "429"@, "network"@, "connection"@, "temporar"@,
        "server"@,
    ]
}

/// Words of media that cannot be had.
pub open spec fn lasting_words() -> Seq<Seq<char>> {
    seq!["private"@, "protected"@, "not found"@, "no media"@, "unavailable"@, "does not exist"@]
}

/// Words of an answer that broke off.
pub open spec fn broken_off_words() -> Seq<Seq<char>> {
    seq!["eof"@, "unexpected end"@, "unterminated"@, "truncated"@, "partial"@]
}

/// One of the words stands in a text.
pub open spec fn speaks_of(text: Seq<char>, words: Seq<Seq<char>>) -> bool {
    exists|i: int| 0 <= i < words.len() && #[trigger] contains(text, words[i])
}

/// A failure is remembered exactly where it will come again: the tweet is not
/// there, the program says that it cannot be had and nothing of the network, or
/// the answer came whole and made no sense.
pub proof fn lemma_only_lasting_failures_are_remembered(error: ResolveError)
    ensures
        match error {
            ResolveError::HttpStatus(code) => lasts(error) <==> code == 404,
            ResolveError::ProcessFailed { stderr, .. } => lasts(error) <==> speaks_of(
                unicode_lower(stderr@),
                lasting_words(),
            ) && !speaks_of(unicode_lower(stderr@), passing_words()),
            ResolveError::ParseFailed(message) => lasts(error) <==> !speaks_of(
                unicode_lower(message@),
                broken_off_words(),
            ),
        },
{
    match error {
        ResolveError::ProcessFailed { stderr, .. } => {
            let t = unicode_lower(stderr@);
            let p = passing_words();
            let l = lasting_words();
            if names_passing_failure(t) {
                assert(contains(t, p[0]) || contains(t, p[1]) || contains(t, p[2])
                    || contains(t, p[3]) || contains(t, p[4]) || contains(t, p[5])
                    || contains(t, p[6]) || contains(t, p[7]));
            }
            if names_lasting_failure(t) {
                assert(contains(t, l[0]) || contains(t, l[1]) || contains(t, l[2])
                    || contains(t, l[3]) || contains(t, l[4]) || contains(t, l[5]));
            }
        },
        ResolveError::ParseFailed(message) => {
            let t = unicode_lower(message@);
            let b = broken_off_words();
            if !parse_text_lasts(t) {
                assert(contains(t, b[0]) || contains(t, b[1]) || contains(t, b[2])
                    || contains(t, b[3]) || contains(t, b[4]));
            }
        },
        _ => {},
    }
}

/// A video is chosen before a GIF, a GIF before a still, and a still before
/// anything else; of one kind the first.
pub proof fn lemma_moving_media_go_first(media: Seq<VxMedia>, i: int, j: int)
    requires
        is_best_media(media, i),
        0 <= j < media.len(),
    ensures
        ({
            let chosen = media[i].media_type@;
            let other = media[j].media_type@;
            let is_still = |kind: Seq<char>| kind == "image"@ || kind == "photo"@;
            &&& other == "video"@ ==> chosen == "video"@
            &&& other == "gif"@ ==> chosen == "video"@ || chosen == "gif"@
            &&& is_still(other) ==> chosen == "video"@ || chosen == "gif"@ || is_still(chosen)
            &&& other == chosen ==> i <= j
        }),
{
    reveal_strlit("video");
    reveal_strlit("gif");
    reveal_strlit("image");
    reveal_strlit("photo");
    assert("video"@.len() == 5);
    assert("gif"@.len() == 3);
    assert("image"@.len() == 5);
    assert("photo"@.len() == 5);
    assert("video"@[0] != "image"@[0]);
    assert("video"@[0] != "photo"@[0]);
    assert("image"@[0] != "photo"@[0]);
    assert(media_rank(media[i].media_type@) <= media_rank(media[j].media_type@));
    if j < i {
        assert(media_rank(media[i].media_type@) < media_rank(media[j].media_type@));
    }
}

/// What a resolve returns is what a cache held or a resolver answered. Answers
/// go into the cache, what came out of it does not. A failure of the API is
/// never the end, and the program runs only with a permit.
pub proof fn lemma_resolves_return_what_was_answered(
    walk: ResolveWalk,
    event: ResolveEvent,
    next: ResolvePhase,
    action: ResolveAction,
)
    requires
        walk.is_next(event, next, action),
    ensures
        action matches ResolveAction::Finish { result: Ok(media), write } ==> match event {
            ResolveEvent::Positive { entry } => entry == Some(media) && write is None,
            ResolveEvent::Answer { result } => result == Ok::<ResolvedMedia, ResolveError>(media)
                && write == Some(CacheWrite::Success),
            _ => false,
        },
        action matches ResolveAction::Finish { result: Err(_), .. } ==> match event {
            ResolveEvent::Negative { entry } => entry is Some,
            ResolveEvent::Answer { result } => result is Err && walk.phase is Program,
            ResolveEvent::PermitGranted { granted } => !granted,
            _ => false,
        },
        (walk.phase is Api && (event matches ResolveEvent::Answer { result } && result is Err))
            ==> action is AcquirePermit,
        action is RunProgram ==> event == (ResolveEvent::PermitGranted { granted: true }),
        action is AskApi ==> event == (ResolveEvent::Positive { entry: None }),
        action is LookUpPositive ==> event == (ResolveEvent::Negative { entry: None }),
        action matches ResolveAction::Finish { write: Some(CacheWrite::Failure { error }), .. }
            ==> (event matches ResolveEvent::Answer { result: Err(e) } && (e == error || !lasts(
            e,
        ))),
        action matches ResolveAction::Finish { result: Err(Error::ResolveFailed { source, .. }), .. }
            ==> (event matches ResolveEvent::Answer { result: Err(e) } ==> source == e) && (
        event matches ResolveEvent::Negative { entry: Some(e) } ==> source == e),
{
}

/// A still is an image by its extension too, and moving media are not, but for
/// GIFs.
pub proof fn lemma_kinds_have_fitting_extensions(kind: Seq<char>)
    ensures
        is_image_ext(kind_extension(kind)) <==> kind == "gif"@ || kind == "image"@ || kind
            == "photo"@,
        kind == "gif"@ <==> kind_extension(kind) == "gif"@,
        !is_image_ext(kind_extension(kind)) ==> kind_extension(kind) == "mp4"@,
{
    reveal_strlit("gif");
    reveal_strlit("jpg");
    reveal_strlit("jpeg");
    reveal_strlit("png");
    reveal_strlit("webp");
    reveal_strlit("mp4");
    reveal_strlit("image");
    reveal_strlit("photo");
    assert("gif"@.len() == 3);
    assert("jpg"@.len() == 3);
    assert("jpeg"@.len() == 4);
    assert("png"@.len() == 3);
    assert("webp"@.len() == 4);
    assert("mp4"@.len() == 3);
    assert("image"@.len() == 5);
    assert("photo"@.len() == 5);
    assert("gif"@[0] != "jpg"@[0]);
    assert("gif"@[0] != "png"@[0]);
    assert("gif"@[0] != "mp4"@[0]);
    assert("jpg"@[0] != "png"@[0]);
    assert("jpg"@[0] != "mp4"@[0]);
    assert("jpeg"@[0] != "webp"@[0]);
    assert("png"@[0] != "mp4"@[0]);
    assert("image"@[0] != "photo"@[0]);
}

// ---------------------------------------------------------------------------
// Extensions of addresses
// ---------------------------------------------------------------------------
/// The extension of an address is what stands behind the last dot of its last
/// part, in lower case, whatever stands before and whatever the query is.
pub proof fn lemma_extension_ends_the_path(
    path: Seq<char>,
    stem: Seq<char>,
    ext: Seq<char>,
    query: Seq<char>,
)
    requires
        ext.len() > 0,
        !path.contains('?'),
        !stem.contains('?') && !stem.contains('/'),
        !ext.contains('?') && !ext.contains('/') && !ext.contains('.'),
    ensures
        url_extension(path + seq!['/'] + (stem + seq!['.'] + ext)) == Some(unicode_lower(ext)),
        url_extension(path + seq!['/'] + (stem + seq!['.'] + ext) + seq!['?'] + query) == Some(
            unicode_lower(ext),
        ),
        !stem.contains('.') ==> url_extension(path + seq!['/'] + stem) is None,
{
    let file = stem + seq!['.'] + ext;
    let url = path + seq!['/'] + file;
    assert forall|i: int| 0 <= i < file.len() implies file[i] != '/' && file[i] != '?' by {
        if i < stem.len() {
            assert(stem.contains(stem[i]));
        } else if i > stem.len() {
            assert(ext.contains(ext[i - stem.len() - 1]));
        }
    }
    assert forall|i: int| 0 <= i < url.len() implies url[i] != '?' by {
        if i < path.len() {
            assert(path.contains(path[i]));
        } else if i > path.len() {
            assert(url[i] == file[i - path.len() - 1]);
        }
    }
    lemma_split_parts(url, '?', query);
    lemma_last_piece(path, '/', file);
    lemma_last_piece(stem, '.', ext);
    let bare = path + seq!['/'] + stem;
    assert forall|i: int| 0 <= i < bare.len() implies bare[i] != '?' by {
        if i < path.len() {
            assert(path.contains(path[i]));
        } else if i > path.len() {
            assert(stem.contains(stem[i - path.len() - 1]));
        }
    }
    lemma_split_parts(bare, '?', query);
    lemma_last_piece(path, '/', stem);
    if !stem.contains('.') {
        lemma_split_parts(stem, '.', stem);
    }
}

/// What a server states is read without its parameters; the known types have
/// their usual extension, and another one is called after its second half.
pub proof fn lemma_types_have_their_usual_extension(
    mime: Seq<char>,
    parameters: Seq<char>,
    kind: Seq<char>,
    sub: Seq<char>,
)
    requires
        !mime.contains(';'),
        kind.len() > 0 && !kind.contains('/') && !kind.contains(';') && !is_white(kind[0]),
        sub.len() > 0 && !sub.contains('/') && !sub.contains(';') && !is_white(sub.last()),
    ensures
        mime_extension(mime + seq![';'] + parameters) == mime_extension(mime),
        trim(mime) == "video/mp4"@ ==> mime_extension(mime) == "mp4"@,
        trim(mime) == "video/webm"@ ==> mime_extension(mime) == "webm"@,
        trim(mime) == "video/quicktime"@ ==> mime_extension(mime) == "mov"@,
        trim(mime) == "image/jpeg"@ ==> mime_extension(mime) == "jpg"@,
        trim(mime) == "image/png"@ ==> mime_extension(mime) == "png"@,
        trim(mime) == "image/webp"@ ==> mime_extension(mime) == "webp"@,
        trim(mime) == "image/gif"@ ==> mime_extension(mime) == "gif"@,
        mime_extension(kind + seq!['/'] + sub) == sub || mime_extension(kind + seq!['/'] + sub)
            == "jpg"@ || mime_extension(kind + seq!['/'] + sub) == "mov"@,
        sub != "jpeg"@ && sub != "quicktime"@ ==> mime_extension(kind + seq!['/'] + sub) == sub,
{
    reveal_strlit("video/mp4");
    reveal_strlit("video/webm");
    reveal_strlit("video/quicktime");
    reveal_strlit("image/jpeg");
    reveal_strlit("image/png");
    reveal_strlit("image/webp");
    reveal_strlit("image/gif");
    assert("video/mp4"@.len() == 9);
    assert("video/webm"@.len() == 10);
    assert("video/quicktime"@.len() == 15);
    assert("image/jpeg"@.len() == 10);
    assert("image/png"@.len() == 9);
    assert("image/webp"@.len() == 10);
    assert("image/gif"@.len() == 9);
    assert("video/mp4"@[0] != "image/png"@[0]);
    assert("video/mp4"@[0] != "image/gif"@[0]);
    assert("video/webm"@[0] != "image/jpeg"@[0]);
    assert("video/webm"@[0] != "image/webp"@[0]);
    assert("image/jpeg"@[6] != "image/webp"@[6]);
    assert("image/png"@[6] != "image/gif"@[6]);
    reveal_strlit("mp4");
    reveal_strlit("webm");
    reveal_strlit("mov");
    reveal_strlit("jpg");
    reveal_strlit("png");
    reveal_strlit("webp");
    reveal_strlit("gif");
    reveal_strlit("jpeg");
    reveal_strlit("quicktime");
    lemma_split_parts(mime, ';', parameters);
    let full = kind + seq!['/'] + sub;
    assert(!full.contains(';')) by {
        assert forall|i: int| 0 <= i < full.len() implies full[i] != ';' by {
            if i < kind.len() {
                assert(kind.contains(kind[i]));
            } else if i > kind.len() {
                assert(sub.contains(sub[i - kind.len() - 1]));
            }
        }
    }
    lemma_split_parts(full, ';', parameters);
    assert(full[0] == kind[0]);
    assert(full.last() == sub.last());
    assert(trim(full) == full);
    lemma_split_parts(kind, '/', sub);
    lemma_split_parts(sub, '/', sub);
    assert(split(full, '/') =~= seq![kind, sub]);
    if full == "video/mp4"@ {
        lemma_second_half(kind, sub, 5, "mp4"@);
    }
    if full == "video/webm"@ {
        lemma_second_half(kind, sub, 5, "webm"@);
    }
    if full == "video/quicktime"@ {
        lemma_second_half(kind, sub, 5, "quicktime"@);
    }
    if full == "image/jpeg"@ {
        lemma_second_half(kind, sub, 5, "jpeg"@);
    }
    if full == "image/png"@ {
        lemma_second_half(kind, sub, 5, "png"@);
    }
    if full == "image/webp"@ {
        lemma_second_half(kind, sub, 5, "webp"@);
    }
    if full == "image/gif"@ {
        lemma_second_half(kind, sub, 5, "gif"@);
    }
}

proof fn lemma_second_half(kind: Seq<char>, sub: Seq<char>, at: int, half: Seq<char>)
    requires
        !kind.contains('/'),
        !sub.contains('/'),
        0 <= at < (kind + seq!['/'] + sub).len(),
        (kind + seq!['/'] + sub)[at] == '/',
        half =~= (kind + seq!['/'] + sub).skip(at + 1),
    ensures
        sub == half,
{
    let full = kind + seq!['/'] + sub;
    if at < kind.len() {
        assert(kind.contains(kind[at]));
    }
    if at > kind.len() {
        assert(sub.contains(sub[at - kind.len() - 1]));
    }
    assert(full.skip(at + 1) =~= sub);
}

/// The path tells the extension before the query, the query before the kind.
pub proof fn lemma_path_goes_before_query(media_type: Seq<char>, url: Seq<char>)
    ensures
        url_extension(url) is Some ==> metadata_extension(media_type, url) == url_extension(url),
        url_extension(url) is None && query_extension(url) is Some ==> metadata_extension(
            media_type,
            url,
        ) == query_extension(url),
        url_extension(url) is None && query_extension(url) is None ==> (metadata_extension(
            media_type,
            url,
        ) is Some <==> media_type == "gif"@),
        metadata_extension("gif"@, url) is Some,
        url_extension(url) is None && query_extension(url) is None ==> metadata_extension(
            "gif"@,
            url,
        ) == Some("gif"@),
{
}

/// The format that a query names is the value of its first pair of that name,
/// in lower case.
pub proof fn lemma_queries_name_their_format(value: Seq<char>, other: Seq<char>, rest: Seq<Seq<char>>)
    requires
        value.len() > 0,
        !other.contains('='),
    ensures
        format_value("format="@ + value) == Some(lower(value)),
        format_value("FORMAT="@ + value) == Some(lower(value)),
        format_value("name="@ + value) is None,
        format_value("format="@) is None,
        format_value(other) is None,
        first_format(seq!["format="@ + value] + rest, 0) == Some(lower(value)),
{
    reveal_strlit("format=");
    reveal_strlit("FORMAT=");
    reveal_strlit("name=");
    reveal_strlit("format");
    reveal_strlit("name");
    assert("format="@.len() == 7);
    assert("FORMAT="@.len() == 7);
    assert("name="@.len() == 5);
    assert("format"@.len() == 6);
    assert("name"@.len() == 4);
    assert("format="@[0] != "FORMAT="@[0]);
    let f = "format"@;
    let n = "name"@;
    let big = "FORMAT="@.take(6);
    assert("format="@ + value =~= f + seq!['='] + value);
    assert("name="@ + value =~= n + seq!['='] + value);
    assert("FORMAT="@ + value =~= big + seq!['='] + value);
    assert("format="@ =~= f + seq!['='] + Seq::<char>::empty());
    assert(!f.contains('=') && !n.contains('=') && !big.contains('='));
    lemma_first_part("format="@ + value, '=', f, value);
    lemma_first_part("name="@ + value, '=', n, value);
    lemma_first_part("FORMAT="@ + value, '=', big, value);
    lemma_first_part("format="@, '=', f, Seq::empty());
    assert(lower(f) =~= f);
    assert(lower(n) =~= n);
    assert(lower(big) =~= f);
    other.index_of_first_ensures('=');
    let pairs = seq!["format="@ + value] + rest;
    assert(pairs[0] == "format="@ + value);
}

/// Images are known by five extensions; what is taken from an address as it
/// stands is one of these or a video's.
pub proof fn lemma_known_extensions(ext: Seq<char>)
    ensures
        is_image_ext("jpg"@) && is_image_ext("jpeg"@) && is_image_ext("png"@) && is_image_ext(
            "webp"@,
        ) && is_image_ext("gif"@),
        is_image_ext(ext) ==> ext.len() == 3 || ext.len() == 4,
        !is_image_ext("mp4"@) && !is_image_ext("webm"@) && !is_image_ext("mov"@),
        is_plain_extension(ext) <==> is_image_ext(ext) || ext == "mp4"@ || ext == "webm"@,
{
    reveal_strlit("jpg");
    reveal_strlit("jpeg");
    reveal_strlit("png");
    reveal_strlit("webp");
    reveal_strlit("gif");
    reveal_strlit("mp4");
    reveal_strlit("webm");
    reveal_strlit("mov");
    assert("jpg"@.len() == 3);
    assert("jpeg"@.len() == 4);
    assert("png"@.len() == 3);
    assert("webp"@.len() == 4);
    assert("gif"@.len() == 3);
    assert("mp4"@.len() == 3);
    assert("webm"@.len() == 4);
    assert("mov"@.len() == 3);
    assert("jpg"@[0] != "png"@[0]);
    assert("jpg"@[0] != "gif"@[0]);
    assert("jpg"@[0] != "mp4"@[0]);
    assert("jpg"@[0] != "mov"@[0]);
    assert("jpeg"@[0] != "webp"@[0]);
    assert("jpeg"@[0] != "webm"@[0]);
    assert("png"@[0] != "gif"@[0]);
    assert("png"@[0] != "mp4"@[0]);
    assert("png"@[0] != "mov"@[0]);
    assert("webp"@[3] != "webm"@[3]);
    assert("gif"@[0] != "mp4"@[0]);
    assert("gif"@[0] != "mov"@[0]);
    assert("mp4"@[1] != "mov"@[1]);
}

/// A size is known where both sides are.
pub proof fn lemma_sizes_have_both_sides(w: u32, h: u32)
    ensures
        size_of_media(Some(w), Some(h)) == Some((w, h)),
        size_of_media(None, Some(h)) is None,
        size_of_media(Some(w), None) is None,
        size_of_media(None, None) is None,
{
}

/// Failures carry their own text.
pub proof fn lemma_parse_failures_carry_their_text(e: ResolveError, text: Seq<char>, other: Seq<char>)
    requires
        is_parse_failure(e, text),
    ensures
        e is ParseFailed,
        e.text() == "parse failed: "@ + text,
        is_parse_failure(e, other) ==> other == text,
{
}

/// A program that may not run fails without an exit code, under its own name.
pub proof fn lemma_refused_permits_fail_under_their_name(e: Error)
    requires
        is_permit_failure(e),
    ensures
        e matches Error::ResolveFailed { resolver, source } && resolver == "yt-dlp" && (
        source matches ResolveError::ProcessFailed { exit_code, stderr } && exit_code is None
            && stderr@ == "ytdlp semaphore closed"@),
{
}

/// What stands behind the last dot of an address is its bare extension, without
/// a query; the query's own format is the first that it names.
pub proof fn lemma_bare_extension_and_query(
    front: Seq<char>,
    ext: Seq<char>,
    query: Seq<char>,
    value: Seq<char>,
)
    requires
        !ext.contains('.') && !ext.contains('?'),
        !query.contains('.'),
        value.len() > 0,
        !value.contains('&') && !value.contains('?'),
        !front.contains('?'),
    ensures
        bare_extension(front + seq!['.'] + ext) == ext,
        bare_extension(front + seq!['.'] + (ext + seq!['?'] + query)) == ext,
        query_extension(front + seq!['?'] + ("format="@ + value)) == Some(lower(value)),
        query_extension(front) is None,
{
    reveal_strlit("format=");
    lemma_last_piece(front, '.', ext);
    lemma_split_parts(ext, '?', query);
    let tail = ext + seq!['?'] + query;
    assert forall|i: int| 0 <= i < tail.len() implies tail[i] != '.' by {
        if i < ext.len() {
            assert(ext.contains(ext[i]));
        } else if i > ext.len() {
            assert(query.contains(query[i - ext.len() - 1]));
        }
    }
    lemma_last_piece(front, '.', tail);
    let pair = "format="@ + value;
    assert forall|i: int| 0 <= i < pair.len() implies pair[i] != '&' by {
        if i >= 7 {
            assert(value.contains(value[i - 7]));
        }
    }
    lemma_split_parts(pair, '&', pair);
    lemma_first_part(front + seq!['?'] + pair, '?', front, pair);
    lemma_queries_name_their_format(value, Seq::empty(), Seq::empty());
    front.index_of_first_ensures('?');
    assert(split(pair, '&')[0] == pair);
}

} // verus!
