use vstd::prelude::*;

use crate::model::FeedEntry;
use crate::model::ParsedFeed;
use crate::model::ParsedFeedView;
use crate::model::PollError;
use crate::model::ProcessedFeed;
use crate::select::select_since;
use crate::select::select_top;
use crate::select::since_items;
use crate::select::top_items;
use crate::time::parse_rfc3339_secs;
use crate::time::rfc3339_secs;

verus! {

/// What a fetched document parses to — its title, and its entries'
/// titles, first links and dates — or nothing when the bytes are not a
/// feed. The outcome depends on the bytes alone.
pub uninterp spec fn feed_parse(body: Seq<u8>) -> Option<ParsedFeedView>;

/// Relies on feed_rs's `parser::parse`, which accepts or rejects bytes
/// on their content alone, and on chrono's `DateTime::timestamp` for
/// the entries' dates as whole seconds since the Unix epoch. An entry
/// without a title or without links gets the empty string for the
/// missing part.
#[verifier::external_body]
pub(crate) fn parse_feed(body: &[u8]) -> (r: Option<ParsedFeed>)
    ensures
        r is Some <==> feed_parse(body@) is Some,
        r matches Some(f) ==> feed_parse(body@) == Some(f@),
{
    let f = match feed_rs::parser::parse(body) {
        Ok(f) => f,
        Err(_) => return None,
    };
    let entries = f.entries.into_iter().map(|e| FeedEntry {
        title: e.title.map_or(String::new(), |t| t.content),
        link: e.links.into_iter().next().map_or(String::new(), |l| l.href),
        updated: e.updated.map(|d| d.timestamp()),
        published: e.published.map(|d| d.timestamp()),
    }).collect();
    Some(ParsedFeed { title: f.title.map(|t| t.content), entries })
}

/// Process one fetched document in top-N mode: parse it, demand a feed
/// title, and report the first `num` entries in document order.
///
/// Succeeds exactly when the bytes parse as a feed that carries a
/// title; a titleless feed is unusable for reporting and is refused
/// rather than patched over.
pub fn process_feed_top(body: &[u8], num: usize) -> (r: Result<ProcessedFeed, PollError>)
    ensures
        match r {
            Ok(pf) => {
                &&& feed_parse(body@) matches Some(fv)
                &&& fv.title matches Some(t)
                &&& pf@.title == t
                &&& pf@.items == top_items(fv.entries, num as int)
            },
            Err(e) => match e {
                PollError::ParseError => feed_parse(body@) is None,
                PollError::MalformedFeed => {
                    &&& feed_parse(body@) matches Some(fv)
                    &&& fv.title is None
                },
                _ => false,
            },
        },
{
    let parsed = match parse_feed(body) {
        Some(p) => p,
        None => {
            return Err(PollError::ParseError);
        },
    };
    let ParsedFeed { title, entries } = parsed;
    let title = match title {
        Some(t) => t,
        None => {
            return Err(PollError::MalformedFeed);
        },
    };
    let items = select_top(&entries, num);
    Ok(ProcessedFeed { title, items })
}

/// Process one fetched document in since-timestamp mode: parse it, read
/// the source's stored last-checked time, demand a feed title, and
/// report the entries strictly newer than that time, by the capped
/// prefix rule, or the single nothing-new line.
///
/// Succeeds exactly when the bytes parse as a feed with a title and the
/// stored timestamp is valid RFC 3339; each failure names its cause,
/// and none of them touches any other source of the same poll pass.
pub fn process_feed_since(body: &[u8], last_accessed: &str) -> (r: Result<
    ProcessedFeed,
    PollError,
>)
    ensures
        match r {
            Ok(pf) => {
                &&& feed_parse(body@) matches Some(fv)
                &&& rfc3339_secs(last_accessed@) matches Some(t)
                &&& fv.title matches Some(ti)
                &&& pf@.title == ti
                &&& pf@.items == since_items(fv.entries, t)
            },
            Err(e) => match e {
                PollError::ParseError => feed_parse(body@) is None,
                PollError::BadTimestamp => {
                    &&& feed_parse(body@) is Some
                    &&& rfc3339_secs(last_accessed@) is None
                },
                PollError::MalformedFeed => {
                    &&& feed_parse(body@) matches Some(fv)
                    &&& rfc3339_secs(last_accessed@) is Some
                    &&& fv.title is None
                },
                _ => false,
            },
        },
{
    let parsed = match parse_feed(body) {
        Some(p) => p,
        None => {
            return Err(PollError::ParseError);
        },
    };
    let reference = match parse_rfc3339_secs(last_accessed) {
        Some(t) => t,
        None => {
            return Err(PollError::BadTimestamp);
        },
    };
    let ParsedFeed { title, entries } = parsed;
    let title = match title {
        Some(t) => t,
        None => {
            return Err(PollError::MalformedFeed);
        },
    };
    let items = select_since(&entries, reference);
    Ok(ProcessedFeed { title, items })
}

} // verus!
