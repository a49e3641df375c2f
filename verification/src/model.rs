//! The records of the crawl and their mathematical views.
//!
//! Every executable record has a view made of sequences of characters.
//! Contracts speak of views only, so that two records with the same text are
//! the same record to every contract.

use vstd::prelude::*;

verus! {

/// Text as contracts see it.
pub type Text = Seq<char>;

/// An author of messages.
#[derive(Debug, PartialEq, Eq)]
pub struct User {
    pub id: String,
    pub username: String,
    /// Tells apart users who share a username.
    pub discriminator: String,
}

/// What a [`User`] stands for in contracts. It is also the row kept for the
/// user, keyed by `id`.
pub struct UserView {
    pub id: Text,
    pub username: Text,
    pub discriminator: Text,
}

impl View for User {
    type V = UserView;

    open spec fn view(&self) -> UserView {
        UserView { id: self.id@, username: self.username@, discriminator: self.discriminator@ }
    }
}

impl DeepView for User {
    type V = UserView;

    open spec fn deep_view(&self) -> UserView {
        self@
    }
}

impl Clone for User {
    fn clone(&self) -> (copy: User)
        ensures
            copy@ == self@,
    {
        User {
            id: self.id.clone(),
            username: self.username.clone(),
            discriminator: self.discriminator.clone(),
        }
    }
}

/// The metadata of a channel, as the remote side reports it.
#[derive(Debug, PartialEq, Eq)]
pub struct Channel {
    pub id: String,
    /// The group that the channel belongs to, if any.
    pub guild_id: Option<String>,
    pub name: Option<String>,
}

/// What a [`Channel`] stands for in contracts.
pub struct ChannelView {
    pub id: Text,
    pub guild_id: Option<Text>,
    pub name: Option<Text>,
}

impl View for Channel {
    type V = ChannelView;

    open spec fn view(&self) -> ChannelView {
        ChannelView {
            id: self.id@,
            guild_id: self.guild_id.deep_view(),
            name: self.name.deep_view(),
        }
    }
}

impl DeepView for Channel {
    type V = ChannelView;

    open spec fn deep_view(&self) -> ChannelView {
        self@
    }
}

impl Clone for Channel {
    fn clone(&self) -> (copy: Channel)
        ensures
            copy@ == self@,
    {
        Channel {
            id: self.id.clone(),
            guild_id: match &self.guild_id {
                Some(text) => Some(text.clone()),
                None => None,
            },
            name: match &self.name {
                Some(text) => Some(text.clone()),
                None => None,
            },
        }
    }
}

/// One message of a channel's history.
#[derive(Debug, PartialEq, Eq)]
pub struct Message {
    pub id: String,
    pub channel_id: String,
    pub author: User,
    pub content: String,
    /// When the message was sent, in ISO 8601.
    pub timestamp: String,
}

/// What a [`Message`] stands for in contracts.
pub struct MessageView {
    pub id: Text,
    pub channel_id: Text,
    pub author: UserView,
    pub content: Text,
    pub timestamp: Text,
}

impl View for Message {
    type V = MessageView;

    open spec fn view(&self) -> MessageView {
        MessageView {
            id: self.id@,
            channel_id: self.channel_id@,
            author: self.author@,
            content: self.content@,
            timestamp: self.timestamp@,
        }
    }
}

impl DeepView for Message {
    type V = MessageView;

    open spec fn deep_view(&self) -> MessageView {
        self@
    }
}

impl Clone for Message {
    fn clone(&self) -> (copy: Message)
        ensures
            copy@ == self@,
    {
        Message {
            id: self.id.clone(),
            channel_id: self.channel_id.clone(),
            author: self.author.clone(),
            content: self.content.clone(),
            timestamp: self.timestamp.clone(),
        }
    }
}

/// The row kept for a channel, keyed by `id`. A channel without a group or
/// without a name is kept with the empty text in that column.
#[derive(Debug, PartialEq, Eq)]
pub struct ChannelRow {
    pub id: String,
    pub guild_id: String,
    pub name: String,
}

/// What a [`ChannelRow`] stands for in contracts.
pub struct ChannelRowView {
    pub id: Text,
    pub guild_id: Text,
    pub name: Text,
}

impl View for ChannelRow {
    type V = ChannelRowView;

    open spec fn view(&self) -> ChannelRowView {
        ChannelRowView { id: self.id@, guild_id: self.guild_id@, name: self.name@ }
    }
}

impl DeepView for ChannelRow {
    type V = ChannelRowView;

    open spec fn deep_view(&self) -> ChannelRowView {
        self@
    }
}

/// The row kept for a message, keyed by `id`. It names its channel and its
/// author by their identifiers.
#[derive(Debug, PartialEq, Eq)]
pub struct MessageRow {
    pub id: String,
    pub channel_id: String,
    pub author_id: String,
    pub content: String,
    pub timestamp: String,
}

/// What a [`MessageRow`] stands for in contracts.
pub struct MessageRowView {
    pub id: Text,
    pub channel_id: Text,
    pub author_id: Text,
    pub content: Text,
    pub timestamp: Text,
}

impl View for MessageRow {
    type V = MessageRowView;

    open spec fn view(&self) -> MessageRowView {
        MessageRowView {
            id: self.id@,
            channel_id: self.channel_id@,
            author_id: self.author_id@,
            content: self.content@,
            timestamp: self.timestamp@,
        }
    }
}

impl DeepView for MessageRow {
    type V = MessageRowView;

    open spec fn deep_view(&self) -> MessageRowView {
        self@
    }
}

/// The text of `value`, or the empty text where there is none.
pub open spec fn text_or_empty(value: Option<Text>) -> Text {
    match value {
        Some(text) => text,
        None => Seq::empty(),
    }
}

/// The row that stands for a channel.
pub open spec fn channel_row(channel: ChannelView) -> ChannelRowView {
    ChannelRowView {
        id: channel.id,
        guild_id: text_or_empty(channel.guild_id),
        name: text_or_empty(channel.name),
    }
}

/// The row that stands for a message.
pub open spec fn message_row(message: MessageView) -> MessageRowView {
    MessageRowView {
        id: message.id,
        channel_id: message.channel_id,
        author_id: message.author.id,
        content: message.content,
        timestamp: message.timestamp,
    }
}

/// The authors of a page, one for each message and in the page's order. An
/// author who wrote several messages of the page occurs several times.
pub open spec fn page_authors(page: Seq<MessageView>) -> Seq<UserView> {
    Seq::new(page.len(), |i: int| page[i].author)
}

/// The rows of a page, one for each message and in the page's order.
pub open spec fn page_rows(page: Seq<MessageView>) -> Seq<MessageRowView> {
    Seq::new(page.len(), |i: int| message_row(page[i]))
}

fn owned_or_empty(value: &Option<String>) -> (text: String)
    ensures
        text@ == text_or_empty(value.deep_view()),
{
    match value {
        Some(text) => text.clone(),
        None => String::new(),
    }
}

impl Channel {
    /// The row to keep for this channel.
    pub fn row(&self) -> (row: ChannelRow)
        ensures
            row@ == channel_row(self@),
    {
        ChannelRow {
            id: self.id.clone(),
            guild_id: owned_or_empty(&self.guild_id),
            name: owned_or_empty(&self.name),
        }
    }
}

impl Message {
    /// The row to keep for this message.
    pub fn row(&self) -> (row: MessageRow)
        ensures
            row@ == message_row(self@),
    {
        MessageRow {
            id: self.id.clone(),
            channel_id: self.channel_id.clone(),
            author_id: self.author.id.clone(),
            content: self.content.clone(),
            timestamp: self.timestamp.clone(),
        }
    }
}

/// The authors of `page`, to be kept before the page's messages.
pub fn authors(page: &Vec<Message>) -> (users: Vec<User>)
    ensures
        users.deep_view() == page_authors(page.deep_view()),
{
    let mut users: Vec<User> = Vec::new();
    let mut i: usize = 0;
    while i < page.len()
        invariant
            i <= page.len(),
            users.len() == i,
            forall|j: int| 0 <= j < i ==> users[j]@ == page[j].author@,
        decreases page.len() - i,
    {
        users.push(page[i].author.clone());
        i += 1;
    }
    users
}

/// The rows of `page`, in the page's order.
pub fn rows(page: &Vec<Message>) -> (rows: Vec<MessageRow>)
    ensures
        rows.deep_view() == page_rows(page.deep_view()),
{
    let mut rows: Vec<MessageRow> = Vec::new();
    let mut i: usize = 0;
    while i < page.len()
        invariant
            i <= page.len(),
            rows.len() == i,
            forall|j: int| 0 <= j < i ==> rows[j]@ == message_row(page[j]@),
        decreases page.len() - i,
    {
        rows.push(page[i].row());
        i += 1;
    }
    rows
}

} // verus!
