//! The walk through one history, a page at a time.
//!
//! The definitions give, for a history and a place in it, what a crawl that
//! has seen every message before that place still does: the requests that
//! it sends, the pages that come back, and the rows that it writes. The
//! lemmas show that a run of the crawl does just that.

use vstd::prelude::*;
use crate::crawl::{begin, CrawlView, PageFetchView};
use crate::model::{page_authors, page_rows, MessageView, Text};
use crate::request::PAGE_LIMIT;
use crate::store::StoreView;
use crate::world::{
    cursors, distinct_ids, found_at, older, page, page_end, page_start, pages, place, react,
    run, World,
};

verus! {

/// The cursor of a crawl that has seen the first `seen` messages of the
/// history: the last of them, or none where it has seen nothing.
pub open spec fn cursor_at(history: Seq<MessageView>, seen: int) -> Option<Text> {
    if seen <= 0 {
        None
    } else {
        Some(history[seen - 1].id)
    }
}

/// How many pages with messages are left behind the first `seen` messages.
pub open spec fn pages_left(history: Seq<MessageView>, seen: int) -> nat
    decreases history.len() - seen,
{
    if seen < 0 || seen >= history.len() {
        0
    } else {
        1 + pages_left(history, page_end(history, seen))
    }
}

/// The cursors of the requests that are left behind the first `seen`
/// messages, the one that finds no message included.
pub open spec fn cursors_left(history: Seq<MessageView>, seen: int) -> Seq<Option<Text>>
    decreases history.len() - seen,
{
    if seen < 0 || seen >= history.len() {
        seq![cursor_at(history, seen)]
    } else {
        seq![cursor_at(history, seen)] + cursors_left(history, page_end(history, seen))
    }
}

/// The pages that are left behind the first `seen` messages, the empty one
/// at the end included.
pub open spec fn pages_behind(history: Seq<MessageView>, seen: int) -> Seq<Seq<MessageView>>
    decreases history.len() - seen,
{
    if seen < 0 || seen >= history.len() {
        seq![Seq::empty()]
    } else {
        seq![history.subrange(seen, page_end(history, seen))] + pages_behind(
            history,
            page_end(history, seen),
        )
    }
}

/// The store after the pages behind the first `seen` messages were
/// written: for each page its authors, then its messages.
pub open spec fn stored_pages(store: StoreView, history: Seq<MessageView>, seen: int) -> StoreView
    decreases history.len() - seen,
{
    if seen < 0 || seen >= history.len() {
        store
    } else {
        let end = page_end(history, seen);
        let page = history.subrange(seen, end);
        stored_pages(
            store.with_users(page_authors(page)).with_messages(page_rows(page)),
            history,
            end,
        )
    }
}

/// The remote side serves, for the cursor of a crawl that has seen the
/// first `seen` messages, the messages that follow them.
pub proof fn lemma_page_follows_cursor(history: Seq<MessageView>, seen: int)
    requires
        distinct_ids(history),
        0 <= seen <= history.len(),
    ensures
        page_start(history, cursor_at(history, seen)) == seen,
        page(history, cursor_at(history, seen)) == history.subrange(
            seen,
            page_end(history, seen),
        ),
{
    if seen > 0 {
        assert(found_at(history, history[seen - 1].id, seen - 1));
    }
}

/// A run of no step changes nothing, and a run of more steps is one step
/// and then the rest.
pub proof fn lemma_run_unfolds(crawl: CrawlView, world: World, steps: nat)
    ensures
        steps == 0 ==> run(crawl, world, steps) == (crawl, world),
        steps > 0 ==> run(crawl, world, steps) == run(
            react(crawl, world).0,
            react(crawl, world).1,
            (steps - 1) as nat,
        ),
{
}

/// From a request for the page behind the first `seen` messages, a run
/// reaches the end of the channel after three steps for each page with
/// messages and one more. On the way it sends the requests and gets the
/// pages that are left, and it writes their rows.
pub proof fn lemma_walk(step: PageFetchView, world: World, seen: int)
    requires
        world.remote.dom().contains(step.queue.channel),
        distinct_ids(world.remote[step.queue.channel].history),
        0 <= seen <= world.remote[step.queue.channel].history.len(),
        step.before == cursor_at(world.remote[step.queue.channel].history, seen),
    ensures
        ({
            let history = world.remote[step.queue.channel].history;
            let steps = 3 * pages_left(history, seen) + 1;
            let start = CrawlView::FetchPage(step);
            &&& run(start, world, steps) == (
                begin(step.queue.upcoming),
                world.with_store(stored_pages(world.store, history, seen)),
            )
            &&& cursors(start, world, steps) == cursors_left(history, seen)
            &&& pages(start, world, steps) == pages_behind(history, seen)
        }),
    decreases world.remote[step.queue.channel].history.len() - seen,
{
    let history = world.remote[step.queue.channel].history;
    let steps = 3 * pages_left(history, seen) + 1;
    let start = CrawlView::FetchPage(step);
    lemma_page_follows_cursor(history, seen);
    let end = page_end(history, seen);
    let served = history.subrange(seen, end);
    if seen >= history.len() {
        let after = react(start, world);
        lemma_run_unfolds(start, world, 1);
        assert(cursors(after.0, after.1, 0) =~= Seq::empty());
        assert(pages(after.0, after.1, 0) =~= Seq::empty());
        assert(served =~= Seq::empty());
    } else {
        let rest = 3 * pages_left(history, end) + 1;
        let first = react(start, world);
        let second = react(first.0, first.1);
        let third = react(second.0, second.1);
        let next = PageFetchView {
            queue: step.queue,
            before: Some(served.last().id),
            wait_nanos: 0,
        };
        lemma_walk(next, third.1, end);
        lemma_run_unfolds(first.0, first.1, (steps - 1) as nat);
        assert(cursors(second.0, second.1, (steps - 2) as nat) == cursors(third.0, third.1, rest));
        assert(cursors(first.0, first.1, (steps - 1) as nat) == cursors(third.0, third.1, rest));
        assert(pages(second.0, second.1, (steps - 2) as nat) == pages(third.0, third.1, rest));
        assert(pages(first.0, first.1, (steps - 1) as nat) == pages(third.0, third.1, rest));
    }
}

/// Whether `cursor` is the cursor of a crawl that has seen at least the
/// first `seen` messages.
pub open spec fn cursor_from(history: Seq<MessageView>, cursor: Option<Text>, seen: int) -> bool {
    exists|further: int|
        seen <= further <= history.len() && cursor == #[trigger] cursor_at(history, further)
}

/// There is one request for each page with messages, and one more, which
/// comes back empty. The number of pages with messages is the number of
/// messages left over the size of a page, rounded up.
pub proof fn lemma_page_count(history: Seq<MessageView>, seen: int)
    requires
        0 <= seen <= history.len(),
    ensures
        pages_left(history, seen) == (history.len() - seen + PAGE_LIMIT - 1) / (PAGE_LIMIT as int),
        cursors_left(history, seen).len() == pages_left(history, seen) + 1,
        pages_behind(history, seen).len() == pages_left(history, seen) + 1,
        pages_behind(history, seen).last().len() == 0,
        forall|n: int|
            0 <= n < pages_left(history, seen) ==> 0 < (#[trigger] pages_behind(
                history,
                seen,
            )[n]).len() <= PAGE_LIMIT,
    decreases history.len() - seen,
{
    if seen < history.len() {
        lemma_page_count(history, page_end(history, seen));
    }
}

/// The pages that are left, one after the other, are the messages that are
/// left: each of them once, and in the order of the history.
pub proof fn lemma_pages_make_the_history(history: Seq<MessageView>, seen: int)
    requires
        0 <= seen <= history.len(),
    ensures
        pages_behind(history, seen).flatten() == history.skip(seen),
    decreases history.len() - seen,
{
    let behind = pages_behind(history, seen);
    if seen < history.len() {
        let end = page_end(history, seen);
        lemma_pages_make_the_history(history, end);
        assert(behind.drop_first() =~= pages_behind(history, end));
        assert(behind.flatten() =~= history.skip(seen));
    } else {
        assert(behind.drop_first() =~= Seq::<Seq<MessageView>>::empty());
        assert(behind.drop_first().flatten() =~= Seq::<MessageView>::empty());
        assert(behind.flatten() =~= history.skip(seen));
    }
}

/// No request of a walk carries the cursor of another.
pub proof fn lemma_cursors_differ(history: Seq<MessageView>, seen: int)
    requires
        distinct_ids(history),
        0 <= seen <= history.len(),
    ensures
        cursors_left(history, seen).no_duplicates(),
        forall|n: int|
            0 <= n < cursors_left(history, seen).len() ==> cursor_from(
                history,
                #[trigger] cursors_left(history, seen)[n],
                seen,
            ),
    decreases history.len() - seen,
{
    if seen < history.len() {
        lemma_cursors_differ(history, page_end(history, seen));
    }
}

/// Every message of a page is older than the last message of the page
/// before it.
pub proof fn lemma_pages_grow_older(history: Seq<MessageView>, seen: int)
    requires
        0 <= seen <= history.len(),
    ensures
        forall|n: int, at: int|
            #![trigger pages_behind(history, seen)[n + 1][at]]
            0 <= n && n + 1 < pages_behind(history, seen).len() && 0 <= at < pages_behind(
                history,
                seen,
            )[n + 1].len() ==> older(
                history,
                pages_behind(history, seen)[n + 1][at].id,
                pages_behind(history, seen)[n].last().id,
            ),
    decreases history.len() - seen,
{
    let behind = pages_behind(history, seen);
    if seen < history.len() {
        let end = page_end(history, seen);
        let later = pages_behind(history, end);
        lemma_pages_grow_older(history, end);
        assert forall|n: int, at: int|
            #![trigger behind[n + 1][at]]
            0 <= n && n + 1 < behind.len() && 0 <= at < behind[n + 1].len() implies older(
            history,
            behind[n + 1][at].id,
            behind[n].last().id,
        ) by {
            if n == 0 {
                assert(found_at(history, behind[1][at].id, end + at));
                assert(found_at(history, behind[0].last().id, end - 1));
            } else {
                assert(later[(n - 1) + 1][at] == behind[n + 1][at]);
            }
        }
    }
}

} // verus!
