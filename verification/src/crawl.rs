//! The crawl as a sequence of steps.
//!
//! A [`Crawl`] says what is to be done next: a request to send or a batch to
//! write. The driver does it and hands the outcome to the step's `resolve`,
//! which gives the crawl that follows. The driver never decides anything, and
//! a step can only be resolved with an outcome of its own kind.
//!
//! For each channel the crawl fetches the channel's metadata and writes it.
//! Then it walks the channel's messages from the newest to the oldest, a
//! page at a time: it fetches a page, writes the page's authors, writes the
//! page's messages, and asks for the page before the oldest message that it
//! has seen. A page without messages ends the channel. Channels are taken
//! one after the other, and the first error ends the run.

use vstd::prelude::*;
use crate::error::{CrawlError, CrawlErrorView};
use crate::model::{
    authors, channel_row, page_authors, page_rows, rows, Channel, ChannelRow, ChannelRowView,
    ChannelView, Message, MessageRow, MessageRowView, MessageView, Text, User, UserView,
};
use crate::request::{backoff, backoff_nanos, channel_url, channel_url_text, page_url, page_url_text};

verus! {

/// What came of a request.
#[derive(Debug, PartialEq, Eq)]
pub enum Fetched<T> {
    /// The remote side answered with what was asked for.
    Body(T),
    /// The remote side throttled, and asked to wait this long, in
    /// nanoseconds.
    Throttled { retry_after_nanos: u64 },
    /// The remote side refused, and said why.
    Rejected { message: String, code: usize },
    /// The request did not get through.
    TransportFailed(String),
    /// The response did not hold what was asked for.
    DecodeFailed(String),
}

/// What a [`Fetched`] stands for in contracts.
pub enum FetchedView<V> {
    Body(V),
    Throttled { retry_after_nanos: u64 },
    Rejected { message: Text, code: usize },
    TransportFailed(Text),
    DecodeFailed(Text),
}

impl<T: DeepView> View for Fetched<T> {
    type V = FetchedView<T::V>;

    open spec fn view(&self) -> FetchedView<T::V> {
        match self {
            Fetched::Body(body) => FetchedView::Body(body.deep_view()),
            Fetched::Throttled { retry_after_nanos } => FetchedView::Throttled {
                retry_after_nanos: *retry_after_nanos,
            },
            Fetched::Rejected { message, code } => FetchedView::Rejected {
                message: message@,
                code: *code,
            },
            Fetched::TransportFailed(text) => FetchedView::TransportFailed(text@),
            Fetched::DecodeFailed(text) => FetchedView::DecodeFailed(text@),
        }
    }
}

/// What came of writing a batch. A batch is written as a whole or not at
/// all.
#[derive(Debug, PartialEq, Eq)]
pub enum Stored {
    /// Every row of the batch was offered to the store, and the batch was
    /// committed.
    Committed,
    /// The batch was not written.
    Failed(String),
}

/// What a [`Stored`] stands for in contracts.
pub enum StoredView {
    Committed,
    Failed(Text),
}

impl View for Stored {
    type V = StoredView;

    open spec fn view(&self) -> StoredView {
        match self {
            Stored::Committed => StoredView::Committed,
            Stored::Failed(text) => StoredView::Failed(text@),
        }
    }
}

/// The channel at hand and the channels still to come.
#[derive(Debug, PartialEq, Eq)]
pub struct Queue {
    /// The channel that is being crawled.
    pub channel: String,
    /// All channels of the run, in the order in which they are crawled.
    pub channels: Vec<String>,
    /// Where in `channels` the next channel stands. From the length on,
    /// none is left.
    pub next: usize,
}

/// What a [`Queue`] stands for in contracts.
pub struct QueueView {
    pub channel: Text,
    /// The channels to crawl after this one, in order.
    pub upcoming: Seq<Text>,
}

/// The channels from `next` on.
pub open spec fn channels_from(channels: Seq<Text>, next: int) -> Seq<Text> {
    if 0 <= next <= channels.len() {
        channels.skip(next)
    } else {
        Seq::empty()
    }
}

impl View for Queue {
    type V = QueueView;

    open spec fn view(&self) -> QueueView {
        QueueView {
            channel: self.channel@,
            upcoming: channels_from(self.channels.deep_view(), self.next as int),
        }
    }
}

/// A step that fetches the metadata of a channel.
///
/// The driver waits for `wait_nanos`, sends a request to [`Self::url`],
/// and resolves the step with the outcome.
#[derive(Debug, PartialEq, Eq)]
pub struct ChannelFetch {
    pub queue: Queue,
    /// How long to wait before the request is sent, in nanoseconds.
    pub wait_nanos: u64,
}

/// A step that writes the metadata of a channel.
///
/// The driver offers `row` to the table of channels and resolves the step
/// with the outcome.
#[derive(Debug, PartialEq, Eq)]
pub struct ChannelStore {
    pub queue: Queue,
    pub row: ChannelRow,
}

/// A step that fetches a page of messages.
///
/// The driver waits for `wait_nanos`, sends a request to [`Self::url`],
/// and resolves the step with the outcome. The page holds the newest
/// messages first.
#[derive(Debug, PartialEq, Eq)]
pub struct PageFetch {
    pub queue: Queue,
    /// The oldest message seen so far. The page holds messages older than
    /// it. Without one the page holds the newest messages.
    pub before: Option<String>,
    /// How long to wait before the request is sent, in nanoseconds.
    pub wait_nanos: u64,
}

/// A step that writes the authors of a page.
///
/// The driver offers `users` to the table of users, in order and as one
/// batch, and resolves the step with the outcome.
#[derive(Debug, PartialEq, Eq)]
pub struct UserStore {
    pub queue: Queue,
    pub users: Vec<User>,
    /// The page's rows, to be written once the authors are.
    pub messages: Vec<MessageRow>,
    /// The oldest message of the page.
    pub cursor: String,
}

/// A step that writes the messages of a page.
///
/// The driver offers `messages` to the table of messages, in order and as
/// one batch, and resolves the step with the outcome.
#[derive(Debug, PartialEq, Eq)]
pub struct MessageStore {
    pub queue: Queue,
    pub messages: Vec<MessageRow>,
    /// The oldest message of the page.
    pub cursor: String,
}

/// What a crawl is doing.
#[derive(Debug, PartialEq, Eq)]
pub enum Crawl {
    FetchChannel(ChannelFetch),
    StoreChannel(ChannelStore),
    FetchPage(PageFetch),
    StoreUsers(UserStore),
    StoreMessages(MessageStore),
    /// Every channel was crawled to the end of its history.
    Done,
    /// The run was given up.
    Failed(CrawlError),
}

/// What a [`ChannelFetch`] stands for in contracts.
pub struct ChannelFetchView {
    pub queue: QueueView,
    pub wait_nanos: u64,
}

/// What a [`ChannelStore`] stands for in contracts.
pub struct ChannelStoreView {
    pub queue: QueueView,
    pub row: ChannelRowView,
}

/// What a [`PageFetch`] stands for in contracts.
pub struct PageFetchView {
    pub queue: QueueView,
    pub before: Option<Text>,
    pub wait_nanos: u64,
}

/// What a [`UserStore`] stands for in contracts.
pub struct UserStoreView {
    pub queue: QueueView,
    pub users: Seq<UserView>,
    pub messages: Seq<MessageRowView>,
    pub cursor: Text,
}

/// What a [`MessageStore`] stands for in contracts.
pub struct MessageStoreView {
    pub queue: QueueView,
    pub messages: Seq<MessageRowView>,
    pub cursor: Text,
}

/// What a [`Crawl`] stands for in contracts.
pub enum CrawlView {
    FetchChannel(ChannelFetchView),
    StoreChannel(ChannelStoreView),
    FetchPage(PageFetchView),
    StoreUsers(UserStoreView),
    StoreMessages(MessageStoreView),
    Done,
    Failed(CrawlErrorView),
}

impl View for ChannelFetch {
    type V = ChannelFetchView;

    open spec fn view(&self) -> ChannelFetchView {
        ChannelFetchView { queue: self.queue@, wait_nanos: self.wait_nanos }
    }
}

impl View for ChannelStore {
    type V = ChannelStoreView;

    open spec fn view(&self) -> ChannelStoreView {
        ChannelStoreView { queue: self.queue@, row: self.row@ }
    }
}

impl View for PageFetch {
    type V = PageFetchView;

    open spec fn view(&self) -> PageFetchView {
        PageFetchView {
            queue: self.queue@,
            before: self.before.deep_view(),
            wait_nanos: self.wait_nanos,
        }
    }
}

impl View for UserStore {
    type V = UserStoreView;

    open spec fn view(&self) -> UserStoreView {
        UserStoreView {
            queue: self.queue@,
            users: self.users.deep_view(),
            messages: self.messages.deep_view(),
            cursor: self.cursor@,
        }
    }
}

impl View for MessageStore {
    type V = MessageStoreView;

    open spec fn view(&self) -> MessageStoreView {
        MessageStoreView {
            queue: self.queue@,
            messages: self.messages.deep_view(),
            cursor: self.cursor@,
        }
    }
}

impl View for Crawl {
    type V = CrawlView;

    open spec fn view(&self) -> CrawlView {
        match self {
            Crawl::FetchChannel(step) => CrawlView::FetchChannel(step@),
            Crawl::StoreChannel(step) => CrawlView::StoreChannel(step@),
            Crawl::FetchPage(step) => CrawlView::FetchPage(step@),
            Crawl::StoreUsers(step) => CrawlView::StoreUsers(step@),
            Crawl::StoreMessages(step) => CrawlView::StoreMessages(step@),
            Crawl::Done => CrawlView::Done,
            Crawl::Failed(error) => CrawlView::Failed(error@),
        }
    }
}

/// The crawl of the given channels, before its first step: it asks for the
/// first channel's metadata at once, and is done where there is no channel.
pub open spec fn begin(channels: Seq<Text>) -> CrawlView {
    if channels.len() == 0 {
        CrawlView::Done
    } else {
        CrawlView::FetchChannel(
            ChannelFetchView {
                queue: QueueView { channel: channels[0], upcoming: channels.skip(1) },
                wait_nanos: 0,
            },
        )
    }
}

/// The error that ends the crawl when the request to `url` came to
/// `outcome`. A body and a throttling end nothing.
pub open spec fn fetch_error<V>(url: Text, outcome: FetchedView<V>) -> Option<CrawlErrorView> {
    match outcome {
        FetchedView::Body(_) => None,
        FetchedView::Throttled { .. } => None,
        FetchedView::Rejected { message, code } => Some(CrawlErrorView::Api { url, message, code }),
        FetchedView::TransportFailed(text) => Some(CrawlErrorView::Transport(text)),
        FetchedView::DecodeFailed(text) => Some(CrawlErrorView::Decode(text)),
    }
}

impl ChannelFetchView {
    /// Where the request goes.
    pub open spec fn url(self) -> Text {
        channel_url_text(self.queue.channel)
    }

    /// The crawl after the request came to `outcome`. With the metadata the
    /// crawl writes it. After throttling it asks again, for the same
    /// channel, once the wait is over. Anything else ends the run.
    pub open spec fn resolved(self, outcome: FetchedView<ChannelView>) -> CrawlView {
        match outcome {
            FetchedView::Body(channel) => CrawlView::StoreChannel(
                ChannelStoreView { queue: self.queue, row: channel_row(channel) },
            ),
            FetchedView::Throttled { retry_after_nanos } => CrawlView::FetchChannel(
                ChannelFetchView { queue: self.queue, wait_nanos: backoff(retry_after_nanos) },
            ),
            _ => CrawlView::Failed(fetch_error(self.url(), outcome)->Some_0),
        }
    }
}

impl ChannelStoreView {
    /// The crawl after the write came to `outcome`. Once the channel is
    /// written the crawl asks for the channel's newest messages.
    pub open spec fn resolved(self, outcome: StoredView) -> CrawlView {
        match outcome {
            StoredView::Committed => CrawlView::FetchPage(
                PageFetchView { queue: self.queue, before: None, wait_nanos: 0 },
            ),
            StoredView::Failed(text) => CrawlView::Failed(CrawlErrorView::Store(text)),
        }
    }
}

impl PageFetchView {
    /// Where the request goes.
    pub open spec fn url(self) -> Text {
        page_url_text(self.queue.channel, self.before)
    }

    /// The crawl after the request came to `outcome`. A page without
    /// messages ends the channel, and the crawl goes on to the next one.
    /// With any other page the crawl writes the page's authors, and
    /// remembers the page's last message as the oldest one seen. After
    /// throttling it asks again, for the same page, once the wait is over.
    /// Anything else ends the run.
    pub open spec fn resolved(self, outcome: FetchedView<Seq<MessageView>>) -> CrawlView {
        match outcome {
            FetchedView::Body(page) => if page.len() == 0 {
                begin(self.queue.upcoming)
            } else {
                CrawlView::StoreUsers(
                    UserStoreView {
                        queue: self.queue,
                        users: page_authors(page),
                        messages: page_rows(page),
                        cursor: page.last().id,
                    },
                )
            },
            FetchedView::Throttled { retry_after_nanos } => CrawlView::FetchPage(
                PageFetchView {
                    queue: self.queue,
                    before: self.before,
                    wait_nanos: backoff(retry_after_nanos),
                },
            ),
            _ => CrawlView::Failed(fetch_error(self.url(), outcome)->Some_0),
        }
    }
}

impl UserStoreView {
    /// The crawl after the write came to `outcome`. Once the authors are
    /// written the crawl writes the page's messages.
    pub open spec fn resolved(self, outcome: StoredView) -> CrawlView {
        match outcome {
            StoredView::Committed => CrawlView::StoreMessages(
                MessageStoreView {
                    queue: self.queue,
                    messages: self.messages,
                    cursor: self.cursor,
                },
            ),
            StoredView::Failed(text) => CrawlView::Failed(CrawlErrorView::Store(text)),
        }
    }
}

impl MessageStoreView {
    /// The crawl after the write came to `outcome`. Once the messages are
    /// written the crawl asks for the page before the oldest of them.
    pub open spec fn resolved(self, outcome: StoredView) -> CrawlView {
        match outcome {
            StoredView::Committed => CrawlView::FetchPage(
                PageFetchView { queue: self.queue, before: Some(self.cursor), wait_nanos: 0 },
            ),
            StoredView::Failed(text) => CrawlView::Failed(CrawlErrorView::Store(text)),
        }
    }
}

/// Starts on the channel at `next`, or ends the crawl where none is left.
fn turn_to(channels: Vec<String>, next: usize) -> (crawl: Crawl)
    ensures
        crawl@ == begin(channels_from(channels.deep_view(), next as int)),
{
    if next < channels.len() {
        let channel = channels[next].clone();
        proof {
            let all = channels.deep_view();
            assert(all.skip(next as int).skip(1) =~= all.skip(next + 1));
        }
        Crawl::FetchChannel(
            ChannelFetch { queue: Queue { channel, channels, next: next + 1 }, wait_nanos: 0 },
        )
    } else {
        Crawl::Done
    }
}

impl Crawl {
    /// Starts a crawl of the given channels, in their order.
    pub fn begin(channels: Vec<String>) -> (crawl: Crawl)
        ensures
            crawl@ == begin(channels.deep_view()),
    {
        proof {
            assert(channels.deep_view().skip(0) =~= channels.deep_view());
        }
        turn_to(channels, 0)
    }
}

impl ChannelFetch {
    /// Where the request goes.
    pub fn url(&self) -> (url: String)
        ensures
            url@ == self@.url(),
    {
        channel_url(self.queue.channel.as_str())
    }

    /// Takes the outcome of the request and gives the crawl that follows.
    pub fn resolve(self, outcome: Fetched<Channel>) -> (crawl: Crawl)
        ensures
            crawl@ == self@.resolved(outcome@),
    {
        match outcome {
            Fetched::Body(channel) => Crawl::StoreChannel(
                ChannelStore { queue: self.queue, row: channel.row() },
            ),
            Fetched::Throttled { retry_after_nanos } => Crawl::FetchChannel(
                ChannelFetch { queue: self.queue, wait_nanos: backoff_nanos(retry_after_nanos) },
            ),
            Fetched::Rejected { message, code } => Crawl::Failed(
                CrawlError::Api { url: self.url(), message, code },
            ),
            Fetched::TransportFailed(text) => Crawl::Failed(CrawlError::Transport(text)),
            Fetched::DecodeFailed(text) => Crawl::Failed(CrawlError::Decode(text)),
        }
    }
}

impl ChannelStore {
    /// Takes the outcome of the write and gives the crawl that follows.
    pub fn resolve(self, outcome: Stored) -> (crawl: Crawl)
        ensures
            crawl@ == self@.resolved(outcome@),
    {
        match outcome {
            Stored::Committed => Crawl::FetchPage(
                PageFetch { queue: self.queue, before: None, wait_nanos: 0 },
            ),
            Stored::Failed(text) => Crawl::Failed(CrawlError::Store(text)),
        }
    }
}

impl PageFetch {
    /// Where the request goes.
    pub fn url(&self) -> (url: String)
        ensures
            url@ == self@.url(),
    {
        match &self.before {
            Some(cursor) => page_url(self.queue.channel.as_str(), Some(cursor.as_str())),
            None => page_url(self.queue.channel.as_str(), None),
        }
    }

    /// Takes the outcome of the request and gives the crawl that follows.
    pub fn resolve(self, outcome: Fetched<Vec<Message>>) -> (crawl: Crawl)
        ensures
            crawl@ == self@.resolved(outcome@),
    {
        match outcome {
            Fetched::Body(page) => {
                let count = page.len();
                if count == 0 {
                    turn_to(self.queue.channels, self.queue.next)
                } else {
                    let cursor = page[count - 1].id.clone();
                    Crawl::StoreUsers(
                        UserStore {
                            queue: self.queue,
                            users: authors(&page),
                            messages: rows(&page),
                            cursor,
                        },
                    )
                }
            },
            Fetched::Throttled { retry_after_nanos } => Crawl::FetchPage(
                PageFetch {
                    queue: self.queue,
                    before: self.before,
                    wait_nanos: backoff_nanos(retry_after_nanos),
                },
            ),
            Fetched::Rejected { message, code } => Crawl::Failed(
                CrawlError::Api { url: self.url(), message, code },
            ),
            Fetched::TransportFailed(text) => Crawl::Failed(CrawlError::Transport(text)),
            Fetched::DecodeFailed(text) => Crawl::Failed(CrawlError::Decode(text)),
        }
    }
}

impl UserStore {
    /// Takes the outcome of the write and gives the crawl that follows.
    pub fn resolve(self, outcome: Stored) -> (crawl: Crawl)
        ensures
            crawl@ == self@.resolved(outcome@),
    {
        match outcome {
            Stored::Committed => Crawl::StoreMessages(
                MessageStore { queue: self.queue, messages: self.messages, cursor: self.cursor },
            ),
            Stored::Failed(text) => Crawl::Failed(CrawlError::Store(text)),
        }
    }
}

impl MessageStore {
    /// Takes the outcome of the write and gives the crawl that follows.
    pub fn resolve(self, outcome: Stored) -> (crawl: Crawl)
        ensures
            crawl@ == self@.resolved(outcome@),
    {
        match outcome {
            Stored::Committed => Crawl::FetchPage(
                PageFetch { queue: self.queue, before: Some(self.cursor), wait_nanos: 0 },
            ),
            Stored::Failed(text) => Crawl::Failed(CrawlError::Store(text)),
        }
    }
}

} // verus!
