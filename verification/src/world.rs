//! The world that a crawl runs in, as contracts see it: the remote side
//! with its channels, and the store.
//!
//! Nothing here is executable. It says what the crawl takes for granted of
//! the remote side and of the store, and what a run of the crawl is when
//! the driver reports just that. The laws of the crate are stated over it.

use vstd::prelude::*;
use crate::crawl::{CrawlView, FetchedView, StoredView};
use crate::model::{ChannelView, MessageView, Text};
use crate::request::PAGE_LIMIT;
use crate::store::StoreView;

verus! {

/// A channel on the remote side.
pub struct RemoteChannel {
    pub info: ChannelView,
    /// Every message of the channel, the newest first.
    pub history: Seq<MessageView>,
}

/// Whether no two messages of the history share an identifier.
pub open spec fn distinct_ids(history: Seq<MessageView>) -> bool {
    forall|i: int, j: int|
        0 <= i < j < history.len() ==> (#[trigger] history[i]).id != (#[trigger] history[j]).id
}

/// Whether the history holds a message with this identifier at `at`.
pub open spec fn found_at(history: Seq<MessageView>, id: Text, at: int) -> bool {
    0 <= at < history.len() && history[at].id == id
}

/// Whether the history holds a message with this identifier.
pub open spec fn holds(history: Seq<MessageView>, id: Text) -> bool {
    exists|at: int| found_at(history, id, at)
}

/// A place at which the history holds a message with this identifier,
/// where it holds one.
pub open spec fn place(history: Seq<MessageView>, id: Text) -> int {
    choose|at: int| found_at(history, id, at)
}

/// Whether the message with the first identifier is older than the one
/// with the second: it stands later in the history.
pub open spec fn older(history: Seq<MessageView>, id: Text, than: Text) -> bool {
    exists|i: int, j: int| j < i && found_at(history, id, i) && found_at(history, than, j)
}

/// Where in the history the page after `before` starts: at the newest
/// message where `before` is absent, else behind the message that it
/// names. Past a message that the history does not hold nothing is left.
pub open spec fn page_start(history: Seq<MessageView>, before: Option<Text>) -> int {
    match before {
        None => 0,
        Some(cursor) => if holds(history, cursor) {
            place(history, cursor) + 1
        } else {
            history.len() as int
        },
    }
}

/// Where the page that starts at `start` ends: a full page further, or at
/// the end of the history.
pub open spec fn page_end(history: Seq<MessageView>, start: int) -> int {
    if start + PAGE_LIMIT <= history.len() {
        start + PAGE_LIMIT
    } else {
        history.len() as int
    }
}

/// The page that the remote side serves for `before`: the messages older
/// than it, the newest first, and no more than a page holds.
pub open spec fn page(history: Seq<MessageView>, before: Option<Text>) -> Seq<MessageView> {
    let start = page_start(history, before);
    history.subrange(start, page_end(history, start))
}

/// The remote side and the store.
pub struct World {
    /// The channels of the remote side, by their identifiers.
    pub remote: Map<Text, RemoteChannel>,
    pub store: StoreView,
}

impl World {
    /// This world with another store.
    pub open spec fn with_store(self, store: StoreView) -> World {
        World { store, ..self }
    }

    /// What the remote side answers to a request for a channel's metadata.
    pub open spec fn channel_response(self, channel: Text) -> FetchedView<ChannelView> {
        if self.remote.dom().contains(channel) {
            FetchedView::Body(self.remote[channel].info)
        } else {
            unknown_channel()
        }
    }

    /// What the remote side answers to a request for a page.
    pub open spec fn page_response(self, channel: Text, before: Option<Text>) -> FetchedView<
        Seq<MessageView>,
    > {
        if self.remote.dom().contains(channel) {
            FetchedView::Body(page(self.remote[channel].history, before))
        } else {
            unknown_channel()
        }
    }

    /// Whether the remote side has the channel, with a history in which no
    /// identifier occurs twice.
    pub open spec fn knows(self, channel: Text) -> bool {
        &&& self.remote.dom().contains(channel)
        &&& distinct_ids(self.remote[channel].history)
    }

    /// Whether the remote side knows each of the channels.
    pub open spec fn serves(self, channels: Seq<Text>) -> bool {
        forall|k: int| 0 <= k < channels.len() ==> self.knows(#[trigger] channels[k])
    }
}

/// The refusal of a request that names a channel which the remote side
/// does not have.
pub open spec fn unknown_channel<V>() -> FetchedView<V> {
    FetchedView::Rejected { message: "Unknown Channel"@, code: 10003 }
}

/// One step of a crawl in a world that neither throttles nor fails: the
/// remote side answers the request, or the store takes the batch, and the
/// crawl resolves the step with that. A crawl that is over stays as it is.
pub open spec fn react(crawl: CrawlView, world: World) -> (CrawlView, World) {
    match crawl {
        CrawlView::FetchChannel(step) => (
            step.resolved(world.channel_response(step.queue.channel)),
            world,
        ),
        CrawlView::StoreChannel(step) => (
            step.resolved(StoredView::Committed),
            world.with_store(world.store.with_channel(step.row)),
        ),
        CrawlView::FetchPage(step) => (
            step.resolved(world.page_response(step.queue.channel, step.before)),
            world,
        ),
        CrawlView::StoreUsers(step) => (
            step.resolved(StoredView::Committed),
            world.with_store(world.store.with_users(step.users)),
        ),
        CrawlView::StoreMessages(step) => (
            step.resolved(StoredView::Committed),
            world.with_store(world.store.with_messages(step.messages)),
        ),
        CrawlView::Done => (crawl, world),
        CrawlView::Failed(_) => (crawl, world),
    }
}

/// The crawl and the world after so many steps.
pub open spec fn run(crawl: CrawlView, world: World, steps: nat) -> (CrawlView, World)
    decreases steps,
{
    if steps == 0 {
        (crawl, world)
    } else {
        let next = react(crawl, world);
        run(next.0, next.1, (steps - 1) as nat)
    }
}

/// The cursors of the page requests among the first so many steps, in the
/// order in which they were sent.
pub open spec fn cursors(crawl: CrawlView, world: World, steps: nat) -> Seq<Option<Text>>
    decreases steps,
{
    if steps == 0 {
        Seq::empty()
    } else {
        let next = react(crawl, world);
        let rest = cursors(next.0, next.1, (steps - 1) as nat);
        match crawl {
            CrawlView::FetchPage(step) => seq![step.before] + rest,
            _ => rest,
        }
    }
}

/// The pages that came back among the first so many steps, in the order in
/// which they came.
pub open spec fn pages(crawl: CrawlView, world: World, steps: nat) -> Seq<Seq<MessageView>>
    decreases steps,
{
    if steps == 0 {
        Seq::empty()
    } else {
        let next = react(crawl, world);
        let rest = pages(next.0, next.1, (steps - 1) as nat);
        match crawl {
            CrawlView::FetchPage(step) => match world.page_response(
                step.queue.channel,
                step.before,
            ) {
                FetchedView::Body(page) => seq![page] + rest,
                _ => rest,
            },
            _ => rest,
        }
    }
}

} // verus!
