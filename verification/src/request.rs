//! Requests to the remote side: where they go, how a response is read, and
//! how long to wait when the remote side throttles.

use vstd::prelude::*;
use crate::model::Text;

verus! {

/// The root of every address that the crawl asks for.
pub const BASE_URL: &'static str = "https://discord.com/api/v10";

/// The name under which the crawl makes itself known to the remote side.
pub const USER_AGENT: &'static str = "MessageScraperBot (1.0.0)";

/// The most messages that one page holds. Every request for a page asks for
/// as many, in the address that [`page_url`] builds.
pub const PAGE_LIMIT: usize = 100;

/// Added to every wait that the remote side asks for: a tenth of a second,
/// in nanoseconds. With it a clock that runs a little fast does not end the
/// wait too early.
pub const RETRY_PAD_NANOS: u64 = 100_000_000;

/// The status that stands for success.
pub const STATUS_OK: u16 = 200;

/// The status by which the remote side throttles.
pub const STATUS_TOO_MANY_REQUESTS: u16 = 429;

/// How a response is to be read, by its status.
#[derive(Debug, Clone, Copy, PartialEq, Eq, Structural)]
pub enum StatusClass {
    /// The body holds what was asked for.
    Success,
    /// The remote side asks to wait and to ask again.
    Throttled,
    /// The remote side refuses, and the body says why.
    Rejected,
}

/// The class of a status: 200 is success, 429 throttles, every other status
/// is a refusal.
pub open spec fn status_class(status: u16) -> StatusClass {
    if status == STATUS_OK {
        StatusClass::Success
    } else if status == STATUS_TOO_MANY_REQUESTS {
        StatusClass::Throttled
    } else {
        StatusClass::Rejected
    }
}

/// Tells how a response with the given status is to be read.
pub fn classify_status(status: u16) -> (class: StatusClass)
    ensures
        class == status_class(status),
{
    if status == STATUS_OK {
        StatusClass::Success
    } else if status == STATUS_TOO_MANY_REQUESTS {
        StatusClass::Throttled
    } else {
        StatusClass::Rejected
    }
}

/// The wait after throttling, in nanoseconds: what the remote side asked
/// for and the pad, or the longest wait there is where the sum would pass it.
pub open spec fn backoff(retry_after_nanos: u64) -> u64 {
    if retry_after_nanos + RETRY_PAD_NANOS <= u64::MAX {
        (retry_after_nanos + RETRY_PAD_NANOS) as u64
    } else {
        u64::MAX
    }
}

/// How long to wait before asking again, in nanoseconds, when the remote
/// side asked for `retry_after_nanos`.
pub fn backoff_nanos(retry_after_nanos: u64) -> (wait: u64)
    ensures
        wait == backoff(retry_after_nanos),
        wait >= retry_after_nanos,
{
    retry_after_nanos.saturating_add(RETRY_PAD_NANOS)
}

/// The address of a channel's metadata.
pub open spec fn channel_url_text(channel_id: Text) -> Text {
    BASE_URL@ + "/channels/"@ + channel_id
}

/// The address of a page of a channel's messages: the newest ones where
/// `before` is absent, else those older than the message that it names.
pub open spec fn page_url_text(channel_id: Text, before: Option<Text>) -> Text {
    let newest = channel_url_text(channel_id) + "/messages?limit=100"@;
    match before {
        Some(cursor) => newest + "&before="@ + cursor,
        None => newest,
    }
}

/// Builds the address of a channel's metadata.
pub fn channel_url(channel_id: &str) -> (url: String)
    ensures
        url@ == channel_url_text(channel_id@),
{
    let mut url = String::from_str(BASE_URL);
    url.append("/channels/");
    url.append(channel_id);
    url
}

/// Builds the address of a page of a channel's messages.
pub fn page_url(channel_id: &str, before: Option<&str>) -> (url: String)
    ensures
        url@ == page_url_text(channel_id@, before.deep_view()),
{
    let mut url = channel_url(channel_id);
    url.append("/messages?limit=100");
    match before {
        Some(cursor) => {
            url.append("&before=");
            url.append(cursor);
        },
        None => {},
    }
    url
}

} // verus!
