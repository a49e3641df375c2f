//! Crawling against a remote side that throttles.
//!
//! The remote side may answer any request with a demand to wait. The crawl
//! then asks again, for the same thing, as often as it takes. However often
//! that happens, and at whichever requests, the crawl arrives where it would
//! have arrived unthrottled.

use vstd::prelude::*;
use crate::crawl::{begin, CrawlView, FetchedView};
use crate::laws::{crawl_steps, lemma_crawl_completes, lemma_over_stays_over};
use crate::model::Text;
use crate::world::{react, run, World};

verus! {

/// Whether two crawls differ at most in how long they wait before the
/// request at hand.
pub open spec fn alike_but_for_the_wait(one: CrawlView, other: CrawlView) -> bool {
    match one {
        CrawlView::FetchChannel(step) => other is FetchChannel && other->FetchChannel_0.queue
            == step.queue,
        CrawlView::FetchPage(step) => other is FetchPage && other->FetchPage_0.queue == step.queue
            && other->FetchPage_0.before == step.before,
        _ => other == one,
    }
}

/// Whether the crawl is about to send a request.
pub open spec fn asks(crawl: CrawlView) -> bool {
    crawl is FetchChannel || crawl is FetchPage
}

/// The crawl after the request at hand was throttled.
pub open spec fn throttled(crawl: CrawlView, retry_after_nanos: u64) -> CrawlView {
    match crawl {
        CrawlView::FetchChannel(step) => step.resolved(
            FetchedView::Throttled { retry_after_nanos },
        ),
        CrawlView::FetchPage(step) => step.resolved(FetchedView::Throttled { retry_after_nanos }),
        _ => crawl,
    }
}

/// A run of so many steps in a world that throttles as `demands` says.
/// Each request that the crawl sends uses up the first of the demands: an
/// entry with a wait throttles the request, an entry without one lets it be
/// answered. Once the demands are used up every request is answered. Writes
/// go as they go unthrottled.
pub open spec fn run_throttled(
    crawl: CrawlView,
    world: World,
    demands: Seq<Option<u64>>,
    steps: nat,
) -> (CrawlView, World)
    decreases steps,
{
    if steps == 0 {
        (crawl, world)
    } else if asks(crawl) && demands.len() > 0 {
        match demands[0] {
            Some(retry_after_nanos) => run_throttled(
                throttled(crawl, retry_after_nanos),
                world,
                demands.skip(1),
                (steps - 1) as nat,
            ),
            None => {
                let next = react(crawl, world);
                run_throttled(next.0, next.1, demands.skip(1), (steps - 1) as nat)
            },
        }
    } else {
        let next = react(crawl, world);
        run_throttled(next.0, next.1, demands, (steps - 1) as nat)
    }
}

/// Crawls that differ in the wait alone are the same crawl after one step.
pub proof fn lemma_wait_is_forgotten(one: CrawlView, other: CrawlView, world: World)
    requires
        alike_but_for_the_wait(one, other),
    ensures
        react(one, world) == react(other, world),
{
}

/// A crawl that is over stays over in a world that throttles.
pub proof fn lemma_ended_run_ignores_demands(
    crawl: CrawlView,
    world: World,
    demands: Seq<Option<u64>>,
    steps: nat,
)
    requires
        crawl is Done || crawl is Failed,
    ensures
        run_throttled(crawl, world, demands, steps) == (crawl, world),
    decreases steps,
{
    if steps > 0 {
        lemma_ended_run_ignores_demands(crawl, world, demands, (steps - 1) as nat);
    }
}

/// Throttling delays a run by at most one step for each demand, and changes
/// nothing else about where the run ends.
pub proof fn lemma_throttling_delays(
    crawl: CrawlView,
    calm: CrawlView,
    world: World,
    demands: Seq<Option<u64>>,
    steps: nat,
    enough: nat,
)
    requires
        alike_but_for_the_wait(crawl, calm),
        run(calm, world, steps).0 is Done || run(calm, world, steps).0 is Failed,
        enough >= steps + demands.len(),
    ensures
        run_throttled(crawl, world, demands, enough) == run(calm, world, steps),
    decreases enough,
{
    if calm is Done || calm is Failed {
        lemma_over_stays_over(calm, world, steps);
        lemma_ended_run_ignores_demands(crawl, world, demands, enough);
    } else {
        lemma_wait_is_forgotten(crawl, calm, world);
        let next = react(calm, world);
        let fewer = (enough - 1) as nat;
        if asks(crawl) && demands.len() > 0 {
            match demands[0] {
                Some(retry_after_nanos) => {
                    lemma_throttling_delays(
                        throttled(crawl, retry_after_nanos),
                        calm,
                        world,
                        demands.skip(1),
                        steps,
                        fewer,
                    );
                },
                None => {
                    lemma_throttling_delays(
                        next.0,
                        next.0,
                        next.1,
                        demands.skip(1),
                        (steps - 1) as nat,
                        fewer,
                    );
                },
            }
        } else {
            lemma_throttling_delays(next.0, next.0, next.1, demands, (steps - 1) as nat, fewer);
        }
    }
}

/// A throttled crawl completes. However often the remote side demands a
/// wait, and at whichever requests, the crawl ends well after at most one
/// more step for each demand of the remote side, and leaves the store as an
/// unthrottled crawl does.
pub proof fn lemma_throttled_crawl_completes(
    channels: Seq<Text>,
    world: World,
    demands: Seq<Option<u64>>,
    patience: nat,
)
    requires
        world.serves(channels),
    ensures
        ({
            let steps = crawl_steps(world.remote, channels);
            let calm = run(begin(channels), world, steps);
            let busy = run_throttled(
                begin(channels),
                world,
                demands,
                steps + demands.len() + patience,
            );
            &&& calm.0 == CrawlView::Done
            &&& busy == calm
        }),
{
    lemma_crawl_completes(channels, world);
    let steps = crawl_steps(world.remote, channels);
    lemma_throttling_delays(
        begin(channels),
        begin(channels),
        world,
        demands,
        steps,
        steps + demands.len() + patience,
    );
}

} // verus!
