//! What holds of every crawl.
//!
//! The laws speak of runs in a world that neither throttles nor fails. They
//! rest on the steps of the crawl as `crawl` defines them, and on the world
//! as `world` describes it.

use vstd::prelude::*;
use crate::crawl::{
    begin, ChannelFetchView, CrawlView, FetchedView, PageFetchView, QueueView, StoredView,
};
use crate::error::CrawlErrorView;
use crate::model::{channel_row, page_authors, page_rows, ChannelView, MessageView, Text};
use crate::paging::{
    cursors_left, lemma_cursors_differ, lemma_page_count, lemma_pages_grow_older,
    lemma_pages_make_the_history, lemma_run_unfolds, lemma_walk, pages_behind, pages_left,
    stored_pages,
};
use crate::request::{backoff, PAGE_LIMIT, RETRY_PAD_NANOS};
use crate::store::{
    lemma_known_messages_ignored, lemma_known_users_ignored, lemma_messages_added,
    lemma_users_added, StoreView,
};
use crate::world::{
    cursors, older, page_end, pages, react, run, RemoteChannel, World,
};

verus! {

/// The store after one channel was crawled: the channel's row was written,
/// then every page of its history.
pub open spec fn crawled_channel(store: StoreView, channel: RemoteChannel) -> StoreView {
    stored_pages(store.with_channel(channel_row(channel.info)), channel.history, 0)
}

/// The store after the channels were crawled, one after the other.
pub open spec fn crawled(
    store: StoreView,
    remote: Map<Text, RemoteChannel>,
    channels: Seq<Text>,
) -> StoreView
    decreases channels.len(),
{
    if channels.len() == 0 {
        store
    } else {
        crawled(crawled_channel(store, remote[channels[0]]), remote, channels.skip(1))
    }
}

/// The steps that the crawl of one channel takes: one to fetch the channel
/// and one to write it, three for each page with messages, and one for the
/// request that comes back empty.
pub open spec fn channel_steps(channel: RemoteChannel) -> nat {
    3 + 3 * pages_left(channel.history, 0)
}

/// The steps that the crawl of the channels takes.
pub open spec fn crawl_steps(remote: Map<Text, RemoteChannel>, channels: Seq<Text>) -> nat
    decreases channels.len(),
{
    if channels.len() == 0 {
        0
    } else {
        channel_steps(remote[channels[0]]) + crawl_steps(remote, channels.skip(1))
    }
}

/// Whether the store holds a row for every message behind the first `seen`
/// messages of the history, and one for its author.
pub open spec fn holds_history(store: StoreView, history: Seq<MessageView>, seen: int) -> bool {
    forall|at: int|
        0 <= seen <= at < history.len() ==> {
            &&& store.users.dom().contains((#[trigger] history[at]).author.id)
            &&& store.messages.dom().contains(history[at].id)
        }
}

/// Whether the store holds a row for the channel, for each of its messages
/// and for each of their authors.
pub open spec fn holds_channel(store: StoreView, channel: RemoteChannel) -> bool {
    &&& store.channels.dom().contains(channel.info.id)
    &&& holds_history(store, channel.history, 0)
}

/// Whether the store holds what a crawl of the channels writes.
pub open spec fn holds_all(
    store: StoreView,
    remote: Map<Text, RemoteChannel>,
    channels: Seq<Text>,
) -> bool {
    forall|k: int| 0 <= k < channels.len() ==> holds_channel(store, remote[#[trigger] channels[k]])
}

/// A run of so many steps and then so many more is one run of them all.
pub proof fn lemma_run_splits(crawl: CrawlView, world: World, first: nat, more: nat)
    ensures
        run(crawl, world, first + more) == run(
            run(crawl, world, first).0,
            run(crawl, world, first).1,
            more,
        ),
    decreases first,
{
    if first > 0 {
        let next = react(crawl, world);
        lemma_run_splits(next.0, next.1, (first - 1) as nat, more);
    }
}

/// Writing the pages of a history adds rows and changes none. Afterwards
/// the store holds a row for each message that was written, and one for its
/// author.
pub proof fn lemma_pages_added(store: StoreView, history: Seq<MessageView>, seen: int)
    requires
        0 <= seen <= history.len(),
    ensures
        store.within(stored_pages(store, history, seen)),
        holds_history(stored_pages(store, history, seen), history, seen),
        stored_pages(store, history, seen).channels == store.channels,
    decreases history.len() - seen,
{
    if seen < history.len() {
        let end = page_end(history, seen);
        let page = history.subrange(seen, end);
        let with_authors = store.with_users(page_authors(page));
        let with_page = with_authors.with_messages(page_rows(page));
        let after = stored_pages(store, history, seen);
        lemma_users_added(store, page_authors(page));
        lemma_messages_added(with_authors, page_rows(page));
        lemma_pages_added(with_page, history, end);
        assert forall|at: int| 0 <= seen <= at < history.len() implies after.users.dom().contains(
            (#[trigger] history[at]).author.id,
        ) && after.messages.dom().contains(history[at].id) by {
            if at < end {
                assert(page_authors(page)[at - seen].id == history[at].author.id);
                assert(page_rows(page)[at - seen].id == history[at].id);
            }
        }
    }
}

/// Writing the pages of a history to a store that holds them already
/// changes nothing.
pub proof fn lemma_known_pages_ignored(store: StoreView, history: Seq<MessageView>, seen: int)
    requires
        0 <= seen <= history.len(),
        holds_history(store, history, seen),
    ensures
        stored_pages(store, history, seen) == store,
    decreases history.len() - seen,
{
    if seen < history.len() {
        let end = page_end(history, seen);
        let page = history.subrange(seen, end);
        lemma_known_users_ignored(store, page_authors(page));
        lemma_known_messages_ignored(store, page_rows(page));
        lemma_known_pages_ignored(store, history, end);
    }
}

/// A crawl adds rows and changes none, and afterwards the store holds what
/// the crawl wrote.
pub proof fn lemma_crawl_adds(
    store: StoreView,
    remote: Map<Text, RemoteChannel>,
    channels: Seq<Text>,
)
    ensures
        store.within(crawled(store, remote, channels)),
        holds_all(crawled(store, remote, channels), remote, channels),
    decreases channels.len(),
{
    if channels.len() > 0 {
        let channel = remote[channels[0]];
        let rest = channels.skip(1);
        let with_row = store.with_channel(channel_row(channel.info));
        let with_channel = crawled_channel(store, channel);
        let after = crawled(store, remote, channels);
        lemma_pages_added(with_row, channel.history, 0);
        lemma_crawl_adds(with_channel, remote, rest);
        assert(with_channel.channels.dom().contains(channel.info.id));
        assert(store.within(after)) by {
            assert forall|key: Text| #[trigger] store.channels.dom().contains(key) implies after.channels.dom().contains(
                key,
            ) && after.channels[key] == store.channels[key] by {
                assert(with_channel.channels.dom().contains(key));
            }
        }
        assert forall|k: int| 0 <= k < channels.len() implies holds_channel(
            after,
            remote[#[trigger] channels[k]],
        ) by {
            if k > 0 {
                assert(channels[k] == rest[k - 1]);
            }
        }
    }
}

/// A crawl changes nothing in a store that holds already what the crawl
/// writes.
pub proof fn lemma_known_crawl_ignored(
    store: StoreView,
    remote: Map<Text, RemoteChannel>,
    channels: Seq<Text>,
)
    requires
        holds_all(store, remote, channels),
    ensures
        crawled(store, remote, channels) == store,
    decreases channels.len(),
{
    if channels.len() > 0 {
        lemma_known_pages_ignored(store, remote[channels[0]].history, 0);
        lemma_known_crawl_ignored(store, remote, channels.skip(1));
    }
}

/// The crawl of the first channel. From the request for the channel's
/// metadata a run arrives, after the steps of the channel, at the crawl of
/// the channels that follow. It has written the channel and its history, it
/// has sent the page requests of a walk through the whole history, and it
/// has got the pages of that walk.
pub proof fn lemma_channel_crawl(step: ChannelFetchView, world: World)
    requires
        world.knows(step.queue.channel),
    ensures
        ({
            let channel = world.remote[step.queue.channel];
            let start = CrawlView::FetchChannel(step);
            let steps = channel_steps(channel);
            &&& run(start, world, steps) == (
                begin(step.queue.upcoming),
                world.with_store(crawled_channel(world.store, channel)),
            )
            &&& cursors(start, world, steps) == cursors_left(channel.history, 0)
            &&& pages(start, world, steps) == pages_behind(channel.history, 0)
        }),
{
    let channel = world.remote[step.queue.channel];
    let start = CrawlView::FetchChannel(step);
    let steps = channel_steps(channel);
    let first = react(start, world);
    let second = react(first.0, first.1);
    let walk = PageFetchView { queue: step.queue, before: None, wait_nanos: 0 };
    lemma_walk(walk, second.1, 0);
    lemma_run_unfolds(start, world, steps);
    assert(cursors(first.0, first.1, (steps - 1) as nat) == cursors(
        second.0,
        second.1,
        (steps - 2) as nat,
    ));
    assert(pages(first.0, first.1, (steps - 1) as nat) == pages(
        second.0,
        second.1,
        (steps - 2) as nat,
    ));
}

/// The crawl ends well where the remote side serves every channel. It
/// takes the steps of its channels, and leaves in the store what the crawl
/// of one channel after the other writes.
pub proof fn lemma_crawl_completes(channels: Seq<Text>, world: World)
    requires
        world.serves(channels),
    ensures
        run(begin(channels), world, crawl_steps(world.remote, channels)) == (
            CrawlView::Done,
            world.with_store(crawled(world.store, world.remote, channels)),
        ),
    decreases channels.len(),
{
    if channels.len() > 0 {
        let rest = channels.skip(1);
        let channel = world.remote[channels[0]];
        let step = ChannelFetchView {
            queue: QueueView { channel: channels[0], upcoming: rest },
            wait_nanos: 0,
        };
        lemma_channel_crawl(step, world);
        let between = world.with_store(crawled_channel(world.store, channel));
        lemma_crawl_completes(rest, between);
        lemma_run_splits(
            begin(channels),
            world,
            channel_steps(channel),
            crawl_steps(world.remote, rest),
        );
    }
}

/// Idempotence. A crawl of a store that an earlier crawl of the same
/// channels has filled, against the same remote side, ends well and leaves
/// the store as it found it.
pub proof fn lemma_second_crawl_changes_nothing(channels: Seq<Text>, world: World)
    requires
        world.serves(channels),
    ensures
        ({
            let steps = crawl_steps(world.remote, channels);
            let once = run(begin(channels), world, steps);
            let twice = run(begin(channels), once.1, steps);
            &&& once.0 == CrawlView::Done
            &&& twice.0 == CrawlView::Done
            &&& twice.1 == once.1
        }),
{
    let steps = crawl_steps(world.remote, channels);
    lemma_crawl_completes(channels, world);
    let once = run(begin(channels), world, steps);
    lemma_crawl_completes(channels, once.1);
    lemma_crawl_adds(world.store, world.remote, channels);
    lemma_known_crawl_ignored(once.1.store, world.remote, channels);
}

/// A crawl only adds to the store: every row that was there before the
/// crawl is there afterwards, unchanged. And the crawl leaves out nothing:
/// afterwards the store holds a row for each channel, for each message of
/// each channel, and for the author of each message.
pub proof fn lemma_crawl_keeps_and_completes(channels: Seq<Text>, world: World)
    requires
        world.serves(channels),
    ensures
        ({
            let after = run(begin(channels), world, crawl_steps(world.remote, channels)).1;
            &&& after.remote == world.remote
            &&& world.store.within(after.store)
            &&& holds_all(after.store, world.remote, channels)
        }),
{
    lemma_crawl_completes(channels, world);
    lemma_crawl_adds(world.store, world.remote, channels);
}

/// Pagination ends. Where the first channel holds exactly so many full
/// pages of messages, a crawl is through with the channel after one page
/// request for each of them and one more, which comes back empty. No two of
/// these requests carry the same cursor.
pub proof fn lemma_full_pages_take_one_more_request(
    step: ChannelFetchView,
    world: World,
    full_pages: nat,
)
    requires
        world.knows(step.queue.channel),
        world.remote[step.queue.channel].history.len() == full_pages * PAGE_LIMIT,
    ensures
        ({
            let start = CrawlView::FetchChannel(step);
            let steps = channel_steps(world.remote[step.queue.channel]);
            &&& steps == 3 * full_pages + 3
            &&& run(start, world, steps).0 == begin(step.queue.upcoming)
            &&& cursors(start, world, steps).len() == full_pages + 1
            &&& cursors(start, world, steps).no_duplicates()
            &&& pages(start, world, steps).len() == full_pages + 1
            &&& pages(start, world, steps).last().len() == 0
            &&& forall|n: int|
                0 <= n < full_pages ==> (#[trigger] pages(start, world, steps)[n]).len()
                    == PAGE_LIMIT
        }),
{
    let history = world.remote[step.queue.channel].history;
    lemma_channel_crawl(step, world);
    lemma_page_count(history, 0);
    lemma_cursors_differ(history, 0);
    lemma_full_pages(history, 0, full_pages);
}

/// The page requests of a channel. A crawl is through with its first
/// channel after one page request for each page with messages and one more,
/// which comes back empty. The pages with messages are as many as the
/// messages over the size of a page, rounded up. No two of the requests
/// carry the same cursor.
pub proof fn lemma_page_requests(step: ChannelFetchView, world: World)
    requires
        world.knows(step.queue.channel),
    ensures
        ({
            let history = world.remote[step.queue.channel].history;
            let start = CrawlView::FetchChannel(step);
            let steps = channel_steps(world.remote[step.queue.channel]);
            let full = (history.len() + PAGE_LIMIT - 1) / (PAGE_LIMIT as int);
            &&& steps == 3 * full + 3
            &&& run(start, world, steps).0 == begin(step.queue.upcoming)
            &&& cursors(start, world, steps).len() == full + 1
            &&& cursors(start, world, steps).no_duplicates()
            &&& pages(start, world, steps).len() == full + 1
            &&& pages(start, world, steps).last().len() == 0
            &&& forall|n: int|
                0 <= n < full ==> 0 < (#[trigger] pages(start, world, steps)[n]).len()
                    <= PAGE_LIMIT
        }),
{
    let history = world.remote[step.queue.channel].history;
    lemma_channel_crawl(step, world);
    lemma_page_count(history, 0);
    lemma_cursors_differ(history, 0);
}

/// In a history that ends on a page boundary every page with messages is
/// full.
pub proof fn lemma_full_pages(history: Seq<MessageView>, seen: int, full_pages: nat)
    requires
        0 <= seen,
        history.len() - seen == full_pages * PAGE_LIMIT,
    ensures
        pages_left(history, seen) == full_pages,
        forall|n: int|
            0 <= n < full_pages ==> (#[trigger] pages_behind(history, seen)[n]).len()
                == PAGE_LIMIT,
    decreases full_pages,
{
    if full_pages > 0 {
        let end = page_end(history, seen);
        lemma_full_pages(history, end, (full_pages - 1) as nat);
        lemma_page_count(history, end);
    }
}

/// Nothing is read twice and nothing is left out. The pages that a crawl
/// gets of its first channel, one after the other, are the history of the
/// channel.
pub proof fn lemma_pages_are_the_history(step: ChannelFetchView, world: World)
    requires
        world.knows(step.queue.channel),
    ensures
        pages(
            CrawlView::FetchChannel(step),
            world,
            channel_steps(world.remote[step.queue.channel]),
        ).flatten() == world.remote[step.queue.channel].history,
{
    let history = world.remote[step.queue.channel].history;
    lemma_channel_crawl(step, world);
    lemma_pages_make_the_history(history, 0);
    assert(history.skip(0) =~= history);
}

/// The cursor moves back. Of two pages of the first channel that follow
/// one another, every message of the later page is older than the oldest
/// message of the earlier page.
pub proof fn lemma_later_pages_are_older(step: ChannelFetchView, world: World)
    requires
        world.knows(step.queue.channel),
    ensures
        ({
            let history = world.remote[step.queue.channel].history;
            let fetched = pages(
                CrawlView::FetchChannel(step),
                world,
                channel_steps(world.remote[step.queue.channel]),
            );
            forall|n: int, at: int|
                #![trigger fetched[n + 1][at]]
                0 <= n && n + 1 < fetched.len() && 0 <= at < fetched[n + 1].len() ==> older(
                    history,
                    fetched[n + 1][at].id,
                    fetched[n].last().id,
                )
        }),
{
    let history = world.remote[step.queue.channel].history;
    lemma_channel_crawl(step, world);
    lemma_pages_grow_older(history, 0);
}

/// Throttling repeats the request. A throttled request for a page leads to
/// a request for the same page, at the same address, after a wait of what
/// the remote side asked for and a tenth of a second.
pub proof fn lemma_throttled_page_is_asked_again(step: PageFetchView, retry_after_nanos: u64)
    ensures
        ({
            let after = step.resolved(FetchedView::Throttled { retry_after_nanos });
            &&& after is FetchPage
            &&& after->FetchPage_0.url() == step.url()
            &&& after->FetchPage_0.before == step.before
            &&& after->FetchPage_0.queue == step.queue
            &&& after->FetchPage_0.wait_nanos == backoff(retry_after_nanos)
            &&& retry_after_nanos + RETRY_PAD_NANOS <= u64::MAX ==> after->FetchPage_0.wait_nanos
                == retry_after_nanos + RETRY_PAD_NANOS
        }),
{
}

/// Throttling repeats the request. A throttled request for a channel's
/// metadata leads to a request for the same channel, at the same address,
/// after a wait of what the remote side asked for and a tenth of a second.
pub proof fn lemma_throttled_channel_is_asked_again(step: ChannelFetchView, retry_after_nanos: u64)
    ensures
        ({
            let after = step.resolved(FetchedView::Throttled { retry_after_nanos });
            &&& after is FetchChannel
            &&& after->FetchChannel_0.url() == step.url()
            &&& after->FetchChannel_0.queue == step.queue
            &&& after->FetchChannel_0.wait_nanos == backoff(retry_after_nanos)
            &&& retry_after_nanos + RETRY_PAD_NANOS <= u64::MAX ==> after->FetchChannel_0.wait_nanos
                == retry_after_nanos + RETRY_PAD_NANOS
        }),
{
}

/// Throttling only delays. What follows a request does not depend on how
/// often the request was throttled before it was answered.
pub proof fn lemma_throttling_only_delays(
    page_step: PageFetchView,
    channel_step: ChannelFetchView,
    retry_after_nanos: u64,
    page_outcome: FetchedView<Seq<MessageView>>,
    channel_outcome: FetchedView<ChannelView>,
)
    requires
        !(page_outcome is Throttled),
        !(channel_outcome is Throttled),
    ensures
        ({
            let throttled = FetchedView::Throttled { retry_after_nanos };
            page_step.resolved(throttled)->FetchPage_0.resolved(page_outcome)
                == page_step.resolved(page_outcome)
        }),
        ({
            let throttled = FetchedView::Throttled { retry_after_nanos };
            channel_step.resolved(throttled)->FetchChannel_0.resolved(channel_outcome)
                == channel_step.resolved(channel_outcome)
        }),
{
}

/// A crawl that is over stays over: it sends nothing and writes nothing
/// any more.
pub proof fn lemma_over_stays_over(crawl: CrawlView, world: World, steps: nat)
    requires
        crawl is Done || crawl is Failed,
    ensures
        run(crawl, world, steps) == (crawl, world),
        cursors(crawl, world, steps) == Seq::<Option<Text>>::empty(),
        pages(crawl, world, steps) == Seq::<Seq<MessageView>>::empty(),
    decreases steps,
{
    if steps > 0 {
        lemma_over_stays_over(crawl, world, (steps - 1) as nat);
    }
}

/// The crawl after the write at hand has failed.
pub open spec fn after_failed_write(crawl: CrawlView, reason: Text) -> CrawlView {
    match crawl {
        CrawlView::StoreChannel(step) => step.resolved(StoredView::Failed(reason)),
        CrawlView::StoreUsers(step) => step.resolved(StoredView::Failed(reason)),
        CrawlView::StoreMessages(step) => step.resolved(StoredView::Failed(reason)),
        _ => crawl,
    }
}

/// A write that fails ends the run. Whatever batch was to be written, the
/// crawl fails with the reason of the store, and however long it is run
/// from there it writes nothing: a store that has dropped the failed batch
/// stays as it was before the batch. In particular the messages of a page
/// are not written where its authors could not be.
pub proof fn lemma_failed_write_ends_the_run(
    crawl: CrawlView,
    world: World,
    reason: Text,
    steps: nat,
)
    requires
        crawl is StoreChannel || crawl is StoreUsers || crawl is StoreMessages,
    ensures
        run(after_failed_write(crawl, reason), world, steps) == (
            CrawlView::Failed(CrawlErrorView::Store(reason)),
            world,
        ),
{
    lemma_over_stays_over(after_failed_write(crawl, reason), world, steps);
}

} // verus!
