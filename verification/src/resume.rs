//! Crawling again after a crawl that was cut short.
//!
//! A crawl keeps no record of how far it came. A crawl that starts over on
//! the store of an earlier one offers every row again, and the store keeps
//! only what it lacks. So the store ends up as if the earlier crawl had not
//! been cut short.

use vstd::prelude::*;
use crate::crawl::{begin, CrawlView};
use crate::laws::{
    crawl_steps, crawled, crawled_channel, lemma_crawl_adds, lemma_crawl_completes,
    lemma_over_stays_over, lemma_pages_added, lemma_run_splits,
};
use crate::model::{
    channel_row, page_authors, page_rows, ChannelRowView, MessageRowView, MessageView, Text,
    UserView,
};
use crate::paging::stored_pages;
use crate::store::{lemma_messages_added, lemma_users_added, StoreView};
use crate::world::{page_end, react, run, RemoteChannel, World};

verus! {

/// Two stores that hold each other's rows are the same store.
pub proof fn lemma_within_both_ways(one: StoreView, other: StoreView)
    requires
        one.within(other),
        other.within(one),
    ensures
        one == other,
{
    assert(one.channels =~= other.channels);
    assert(one.users =~= other.users);
    assert(one.messages =~= other.messages);
}

/// Offering a channel row to a store and to a fuller one keeps the one
/// within the other, and both within any store that holds what the first
/// comes to.
pub proof fn lemma_channel_between(
    store: StoreView,
    fuller: StoreView,
    goal: StoreView,
    row: ChannelRowView,
)
    requires
        store.within(fuller),
        fuller.within(goal),
        store.with_channel(row).within(goal),
    ensures
        store.with_channel(row).within(fuller.with_channel(row)),
        fuller.with_channel(row).within(goal),
{
    assert(store.with_channel(row).channels.dom().contains(row.id));
}

/// A batch of user rows, written to a store and to a fuller one, keeps the
/// one within the other, and both within any store that holds what the
/// first comes to.
pub proof fn lemma_users_between(
    store: StoreView,
    fuller: StoreView,
    goal: StoreView,
    rows: Seq<UserView>,
)
    requires
        store.within(fuller),
        fuller.within(goal),
        store.with_users(rows).within(goal),
    ensures
        store.with_users(rows).within(fuller.with_users(rows)),
        fuller.with_users(rows).within(goal),
    decreases rows.len(),
{
    if rows.len() > 0 {
        let earlier = rows.drop_last();
        let before = store.with_users(earlier);
        lemma_users_added(before, seq![rows.last()]);
        assert(before.with_users(seq![rows.last()]) == before.with_user(rows.last())) by {
            assert(seq![rows.last()].drop_last() =~= Seq::<UserView>::empty());
            assert(before.with_users(Seq::<UserView>::empty()) == before);
        }
        lemma_users_between(store, fuller, goal, earlier);
    }
}

/// A batch of message rows, written to a store and to a fuller one, keeps
/// the one within the other, and both within any store that holds what the
/// first comes to.
pub proof fn lemma_messages_between(
    store: StoreView,
    fuller: StoreView,
    goal: StoreView,
    rows: Seq<MessageRowView>,
)
    requires
        store.within(fuller),
        fuller.within(goal),
        store.with_messages(rows).within(goal),
    ensures
        store.with_messages(rows).within(fuller.with_messages(rows)),
        fuller.with_messages(rows).within(goal),
    decreases rows.len(),
{
    if rows.len() > 0 {
        let earlier = rows.drop_last();
        let before = store.with_messages(earlier);
        lemma_messages_added(before, seq![rows.last()]);
        assert(before.with_messages(seq![rows.last()]) == before.with_message(rows.last())) by {
            assert(seq![rows.last()].drop_last() =~= Seq::<MessageRowView>::empty());
            assert(before.with_messages(Seq::<MessageRowView>::empty()) == before);
        }
        lemma_messages_between(store, fuller, goal, earlier);
    }
}

/// The pages of a history, written to a store and to a fuller one, keep
/// the one within the other, and both within any store that holds what the
/// first comes to.
pub proof fn lemma_pages_between(
    store: StoreView,
    fuller: StoreView,
    goal: StoreView,
    history: Seq<MessageView>,
    seen: int,
)
    requires
        0 <= seen <= history.len(),
        store.within(fuller),
        fuller.within(goal),
        stored_pages(store, history, seen).within(goal),
    ensures
        stored_pages(store, history, seen).within(stored_pages(fuller, history, seen)),
        stored_pages(fuller, history, seen).within(goal),
    decreases history.len() - seen,
{
    if seen < history.len() {
        let end = page_end(history, seen);
        let page = history.subrange(seen, end);
        let with_authors = store.with_users(page_authors(page));
        let with_page = with_authors.with_messages(page_rows(page));
        lemma_pages_added(with_page, history, end);
        lemma_messages_added(with_authors, page_rows(page));
        lemma_users_between(store, fuller, goal, page_authors(page));
        lemma_messages_between(
            with_authors,
            fuller.with_users(page_authors(page)),
            goal,
            page_rows(page),
        );
        lemma_pages_between(
            with_page,
            fuller.with_users(page_authors(page)).with_messages(page_rows(page)),
            goal,
            history,
            end,
        );
    }
}

/// A crawl of a store and of a fuller one keeps the one within the other,
/// and both within any store that holds what the first comes to.
pub proof fn lemma_crawl_between(
    store: StoreView,
    fuller: StoreView,
    goal: StoreView,
    remote: Map<Text, RemoteChannel>,
    channels: Seq<Text>,
)
    requires
        store.within(fuller),
        fuller.within(goal),
        crawled(store, remote, channels).within(goal),
    ensures
        crawled(store, remote, channels).within(crawled(fuller, remote, channels)),
        crawled(fuller, remote, channels).within(goal),
    decreases channels.len(),
{
    if channels.len() > 0 {
        let channel = remote[channels[0]];
        let rest = channels.skip(1);
        let row = channel_row(channel.info);
        let with_row = store.with_channel(row);
        let with_channel = crawled_channel(store, channel);
        lemma_crawl_adds(with_channel, remote, rest);
        lemma_pages_added(with_row, channel.history, 0);
        lemma_channel_between(store, fuller, goal, row);
        lemma_pages_between(with_row, fuller.with_channel(row), goal, channel.history, 0);
        lemma_crawl_between(
            with_channel,
            crawled_channel(fuller, channel),
            goal,
            remote,
            rest,
        );
    }
}

/// One step of a crawl adds rows to the store and changes none, and leaves
/// the remote side alone.
pub proof fn lemma_step_adds(crawl: CrawlView, world: World)
    ensures
        world.store.within(react(crawl, world).1.store),
        react(crawl, world).1.remote == world.remote,
{
    match crawl {
        CrawlView::StoreUsers(step) => {
            lemma_users_added(world.store, step.users);
        },
        CrawlView::StoreMessages(step) => {
            lemma_messages_added(world.store, step.messages);
        },
        _ => {},
    }
}

/// A run adds rows to the store and changes none, and leaves the remote
/// side alone.
pub proof fn lemma_run_adds(crawl: CrawlView, world: World, steps: nat)
    ensures
        world.store.within(run(crawl, world, steps).1.store),
        run(crawl, world, steps).1.remote == world.remote,
    decreases steps,
{
    if steps > 0 {
        let next = react(crawl, world);
        lemma_step_adds(crawl, world);
        lemma_run_adds(next.0, next.1, (steps - 1) as nat);
    }
}

/// A crawl resumes. Where a crawl was cut short after any number of steps,
/// a crawl that starts over on the store that it left ends well, and leaves
/// the store as a crawl that was not cut short would have left it.
pub proof fn lemma_crawl_resumes(channels: Seq<Text>, world: World, steps: nat)
    requires
        world.serves(channels),
    ensures
        ({
            let whole = run(begin(channels), world, crawl_steps(world.remote, channels));
            let cut = run(begin(channels), world, steps);
            let resumed = run(begin(channels), cut.1, crawl_steps(world.remote, channels));
            &&& whole.0 == CrawlView::Done
            &&& resumed.0 == CrawlView::Done
            &&& resumed.1 == whole.1
        }),
{
    let all = crawl_steps(world.remote, channels);
    let whole = run(begin(channels), world, all);
    let cut = run(begin(channels), world, steps);
    lemma_crawl_completes(channels, world);
    lemma_run_adds(begin(channels), world, steps);
    lemma_crawl_completes(channels, cut.1);
    assert(cut.1.store.within(whole.1.store)) by {
        if steps <= all {
            lemma_run_splits(begin(channels), world, steps, (all - steps) as nat);
            lemma_run_adds(cut.0, cut.1, (all - steps) as nat);
        } else {
            lemma_run_splits(begin(channels), world, all, (steps - all) as nat);
            lemma_over_stays_over(whole.0, whole.1, (steps - all) as nat);
        }
    }
    let goal = crawled(world.store, world.remote, channels);
    lemma_crawl_between(world.store, cut.1.store, goal, world.remote, channels);
    lemma_within_both_ways(goal, crawled(cut.1.store, world.remote, channels));
}

} // verus!
