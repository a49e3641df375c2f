//! References between rows.
//!
//! A message row names a channel and an author. The crawl writes a channel
//! before it asks for the channel's messages, and the authors of a page
//! before the page's messages. So at every moment of a crawl each message
//! row in the store names a channel row and a user row that are there.

use vstd::prelude::*;
use crate::crawl::{begin, CrawlView};
use crate::model::{MessageRowView, Text};
use crate::store::{lemma_users_added, StoreView};
use crate::world::{react, run, World};

verus! {

impl StoreView {
    /// Whether the store holds the channel row and the user row that `row`
    /// names.
    pub open spec fn resolves(self, row: MessageRowView) -> bool {
        &&& self.channels.dom().contains(row.channel_id)
        &&& self.users.dom().contains(row.author_id)
    }

    /// Whether every message row of the store names a channel row and a
    /// user row of the store.
    pub open spec fn sound(self) -> bool {
        forall|key: Text| #[trigger]
            self.messages.dom().contains(key) ==> self.resolves(self.messages[key])
    }
}

impl World {
    /// Whether the remote side keeps each channel under the channel's own
    /// identifier, and each message in the history of the channel that the
    /// message names.
    pub open spec fn labelled(self) -> bool {
        forall|id: Text| #[trigger]
            self.remote.dom().contains(id) ==> {
                &&& self.remote[id].info.id == id
                &&& forall|at: int|
                    0 <= at < self.remote[id].history.len() ==> (
                    #[trigger] self.remote[id].history[at]).channel_id == id
            }
    }
}

/// Whether the store is ready for the batch that the crawl is about to
/// write: the rows that the batch names are either in the store or come
/// before it in the crawl's order.
pub open spec fn prepared(crawl: CrawlView, store: StoreView) -> bool {
    match crawl {
        CrawlView::FetchChannel(_) => true,
        CrawlView::StoreChannel(step) => step.row.id == step.queue.channel,
        CrawlView::FetchPage(step) => store.channels.dom().contains(step.queue.channel),
        CrawlView::StoreUsers(step) => {
            &&& store.channels.dom().contains(step.queue.channel)
            &&& step.users.len() == step.messages.len()
            &&& forall|n: int|
                0 <= n < step.messages.len() ==> {
                    &&& (#[trigger] step.messages[n]).channel_id == step.queue.channel
                    &&& step.users[n].id == step.messages[n].author_id
                }
        },
        CrawlView::StoreMessages(step) => {
            &&& store.channels.dom().contains(step.queue.channel)
            &&& forall|n: int|
                0 <= n < step.messages.len() ==> {
                    &&& (#[trigger] step.messages[n]).channel_id == step.queue.channel
                    &&& store.users.dom().contains(step.messages[n].author_id)
                }
        },
        CrawlView::Done => true,
        CrawlView::Failed(_) => true,
    }
}

/// Whether a crawl in a world is in order: the references of the store
/// hold, and the store is ready for what the crawl writes next.
pub open spec fn orderly(crawl: CrawlView, world: World) -> bool {
    &&& world.labelled()
    &&& world.store.sound()
    &&& prepared(crawl, world.store)
}

/// A batch of message rows keeps the references of the store where the
/// store holds what the rows name.
pub proof fn lemma_messages_keep_references(store: StoreView, rows: Seq<MessageRowView>)
    requires
        store.sound(),
        forall|n: int| 0 <= n < rows.len() ==> store.resolves(#[trigger] rows[n]),
    ensures
        store.with_messages(rows).sound(),
        store.with_messages(rows).channels == store.channels,
        store.with_messages(rows).users == store.users,
    decreases rows.len(),
{
    if rows.len() > 0 {
        lemma_messages_keep_references(store, rows.drop_last());
    }
}

/// One step keeps a crawl in order.
pub proof fn lemma_step_keeps_order(crawl: CrawlView, world: World)
    requires
        orderly(crawl, world),
    ensures
        orderly(react(crawl, world).0, react(crawl, world).1),
{
    match crawl {
        CrawlView::StoreUsers(step) => {
            lemma_users_added(world.store, step.users);
        },
        CrawlView::StoreMessages(step) => {
            lemma_messages_keep_references(world.store, step.messages);
        },
        _ => {},
    }
}

/// Every step of a run keeps a crawl in order.
pub proof fn lemma_run_keeps_order(crawl: CrawlView, world: World, steps: nat)
    requires
        orderly(crawl, world),
    ensures
        orderly(run(crawl, world, steps).0, run(crawl, world, steps).1),
    decreases steps,
{
    if steps > 0 {
        let next = react(crawl, world);
        lemma_step_keeps_order(crawl, world);
        lemma_run_keeps_order(next.0, next.1, (steps - 1) as nat);
    }
}

/// References hold throughout. Where every message row of the store names
/// a channel row and a user row of the store before a crawl, the same is
/// true after any number of steps of the crawl, whether it has ended by
/// then or not.
pub proof fn lemma_references_hold(channels: Seq<Text>, world: World, steps: nat)
    requires
        world.labelled(),
        world.store.sound(),
    ensures
        run(begin(channels), world, steps).1.store.sound(),
{
    lemma_run_keeps_order(begin(channels), world, steps);
}

} // verus!
