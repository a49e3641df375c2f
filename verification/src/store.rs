//! The store that the crawl fills: its tables, the statements that write to
//! them, and what a write means.
//!
//! The store keeps three tables, each keyed by an identifier that the remote
//! side assigned. A write never replaces and never fails on a key that is
//! there already: the row that came first stays. The crawl never updates or
//! deletes.

use vstd::prelude::*;
use crate::model::{ChannelRow, ChannelRowView, MessageRow, MessageRowView, Text, User, UserView};

verus! {

/// Creates the table of channels.
pub const CREATE_CHANNEL_TABLE: &'static str =
    "CREATE TABLE channel (id TEXT PRIMARY KEY, guild_id TEXT, name TEXT) STRICT;";

/// Creates the table of messages.
pub const CREATE_MESSAGE_TABLE: &'static str =
    "CREATE TABLE message (id TEXT PRIMARY KEY, channel_id TEXT REFERENCES channel(id), author_id TEXT REFERENCES user(id), content TEXT NOT NULL, timestamp TEXT NOT NULL) STRICT;";

/// Creates the table of users.
pub const CREATE_USER_TABLE: &'static str =
    "CREATE TABLE user (id TEXT PRIMARY KEY, username TEXT NOT NULL, discriminator TEXT NOT NULL) STRICT;";

/// Keeps a channel row unless its key is there already. It takes the values
/// of [`ChannelRow::columns`].
pub const INSERT_CHANNEL: &'static str =
    "INSERT OR IGNORE INTO channel (id, guild_id, name) VALUES (?,?,?)";

/// Keeps a user row unless its key is there already, and gives back the
/// username where the row was kept. It takes the values of
/// [`User::columns`].
pub const INSERT_USER: &'static str =
    "INSERT OR IGNORE INTO user (id, username, discriminator) VALUES (?,?,?) RETURNING username";

/// Keeps a message row unless its key is there already. It takes the values
/// of [`MessageRow::columns`].
pub const INSERT_MESSAGE: &'static str =
    "INSERT OR IGNORE INTO message (id, channel_id, author_id, content, timestamp) VALUES (?,?,?,?,?)";

impl ChannelRowView {
    /// The values of the row, in the order of the table's columns.
    pub open spec fn columns(self) -> Seq<Text> {
        seq![self.id, self.guild_id, self.name]
    }
}

impl UserView {
    /// The values of the row, in the order of the table's columns.
    pub open spec fn columns(self) -> Seq<Text> {
        seq![self.id, self.username, self.discriminator]
    }
}

impl MessageRowView {
    /// The values of the row, in the order of the table's columns.
    pub open spec fn columns(self) -> Seq<Text> {
        seq![self.id, self.channel_id, self.author_id, self.content, self.timestamp]
    }
}

impl ChannelRow {
    /// The values to bind to [`INSERT_CHANNEL`], in order.
    pub fn columns(&self) -> (values: Vec<&str>)
        ensures
            values.deep_view() == self@.columns(),
    {
        let mut values: Vec<&str> = Vec::new();
        values.push(self.id.as_str());
        values.push(self.guild_id.as_str());
        values.push(self.name.as_str());
        values
    }
}

impl User {
    /// The values to bind to [`INSERT_USER`], in order.
    pub fn columns(&self) -> (values: Vec<&str>)
        ensures
            values.deep_view() == self@.columns(),
    {
        let mut values: Vec<&str> = Vec::new();
        values.push(self.id.as_str());
        values.push(self.username.as_str());
        values.push(self.discriminator.as_str());
        values
    }
}

impl MessageRow {
    /// The values to bind to [`INSERT_MESSAGE`], in order.
    pub fn columns(&self) -> (values: Vec<&str>)
        ensures
            values.deep_view() == self@.columns(),
    {
        let mut values: Vec<&str> = Vec::new();
        values.push(self.id.as_str());
        values.push(self.channel_id.as_str());
        values.push(self.author_id.as_str());
        values.push(self.content.as_str());
        values.push(self.timestamp.as_str());
        values
    }
}

/// A table after a row was offered to it under `key`: the row is kept only
/// where the key is new.
pub open spec fn kept<R>(table: Map<Text, R>, key: Text, row: R) -> Map<Text, R> {
    if table.dom().contains(key) {
        table
    } else {
        table.insert(key, row)
    }
}

/// Whether `later` holds every row of `table`, under its key and unchanged.
pub open spec fn extends<R>(later: Map<Text, R>, table: Map<Text, R>) -> bool {
    forall|key: Text| #[trigger]
        table.dom().contains(key) ==> later.dom().contains(key) && later[key] == table[key]
}

/// The store as contracts see it: for each table, the rows by their keys.
pub struct StoreView {
    pub channels: Map<Text, ChannelRowView>,
    pub users: Map<Text, UserView>,
    pub messages: Map<Text, MessageRowView>,
}

impl StoreView {
    /// The store before anything was written.
    pub open spec fn empty() -> StoreView {
        StoreView { channels: Map::empty(), users: Map::empty(), messages: Map::empty() }
    }

    /// The store after a channel row was offered to it.
    pub open spec fn with_channel(self, row: ChannelRowView) -> StoreView {
        StoreView { channels: kept(self.channels, row.id, row), ..self }
    }

    /// The store after a user row was offered to it.
    pub open spec fn with_user(self, row: UserView) -> StoreView {
        StoreView { users: kept(self.users, row.id, row), ..self }
    }

    /// The store after a message row was offered to it.
    pub open spec fn with_message(self, row: MessageRowView) -> StoreView {
        StoreView { messages: kept(self.messages, row.id, row), ..self }
    }

    /// The store after a batch of user rows was committed: the rows were
    /// offered one by one, in the batch's order.
    pub open spec fn with_users(self, rows: Seq<UserView>) -> StoreView
        decreases rows.len(),
    {
        if rows.len() == 0 {
            self
        } else {
            self.with_users(rows.drop_last()).with_user(rows.last())
        }
    }

    /// The store after a batch of message rows was committed: the rows were
    /// offered one by one, in the batch's order.
    pub open spec fn with_messages(self, rows: Seq<MessageRowView>) -> StoreView
        decreases rows.len(),
    {
        if rows.len() == 0 {
            self
        } else {
            self.with_messages(rows.drop_last()).with_message(rows.last())
        }
    }
}

impl StoreView {
    /// Whether `later` holds every row of this store, under its key and
    /// unchanged.
    pub open spec fn within(self, later: StoreView) -> bool {
        &&& extends(later.channels, self.channels)
        &&& extends(later.users, self.users)
        &&& extends(later.messages, self.messages)
    }

    /// Whether the store holds a user row under the key of each of `rows`.
    pub open spec fn knows_users(self, rows: Seq<UserView>) -> bool {
        forall|n: int| 0 <= n < rows.len() ==> self.users.dom().contains((#[trigger] rows[n]).id)
    }

    /// Whether the store holds a message row under the key of each of
    /// `rows`.
    pub open spec fn knows_messages(self, rows: Seq<MessageRowView>) -> bool {
        forall|n: int| 0 <= n < rows.len() ==> self.messages.dom().contains((#[trigger] rows[n]).id)
    }
}

/// A batch of user rows adds to the table of users and changes nothing
/// else. Afterwards the store holds a row under each key of the batch.
pub proof fn lemma_users_added(store: StoreView, rows: Seq<UserView>)
    ensures
        store.within(store.with_users(rows)),
        store.with_users(rows).knows_users(rows),
        store.with_users(rows).channels == store.channels,
        store.with_users(rows).messages == store.messages,
    decreases rows.len(),
{
    if rows.len() > 0 {
        let earlier = rows.drop_last();
        lemma_users_added(store, earlier);
        let after = store.with_users(rows);
        assert forall|n: int| 0 <= n < rows.len() implies after.users.dom().contains(
            (#[trigger] rows[n]).id,
        ) by {
            if n < rows.len() - 1 {
                assert(rows[n] == earlier[n]);
            }
        }
    }
}

/// A batch of message rows adds to the table of messages and changes
/// nothing else. Afterwards the store holds a row under each key of the
/// batch.
pub proof fn lemma_messages_added(store: StoreView, rows: Seq<MessageRowView>)
    ensures
        store.within(store.with_messages(rows)),
        store.with_messages(rows).knows_messages(rows),
        store.with_messages(rows).channels == store.channels,
        store.with_messages(rows).users == store.users,
    decreases rows.len(),
{
    if rows.len() > 0 {
        let earlier = rows.drop_last();
        lemma_messages_added(store, earlier);
        let after = store.with_messages(rows);
        assert forall|n: int| 0 <= n < rows.len() implies after.messages.dom().contains(
            (#[trigger] rows[n]).id,
        ) by {
            if n < rows.len() - 1 {
                assert(rows[n] == earlier[n]);
            }
        }
    }
}

/// A batch of user rows whose keys the store holds already changes
/// nothing.
pub proof fn lemma_known_users_ignored(store: StoreView, rows: Seq<UserView>)
    requires
        store.knows_users(rows),
    ensures
        store.with_users(rows) == store,
    decreases rows.len(),
{
    if rows.len() > 0 {
        lemma_known_users_ignored(store, rows.drop_last());
    }
}

/// A batch of message rows whose keys the store holds already changes
/// nothing.
pub proof fn lemma_known_messages_ignored(store: StoreView, rows: Seq<MessageRowView>)
    requires
        store.knows_messages(rows),
    ensures
        store.with_messages(rows) == store,
    decreases rows.len(),
{
    if rows.len() > 0 {
        lemma_known_messages_ignored(store, rows.drop_last());
    }
}

} // verus!
