use message_scraper::crawl::{Crawl, Fetched, Stored};
use message_scraper::error::CrawlError;
use message_scraper::model::{Channel, Message, MessageRow, User};
use message_scraper::request::BASE_URL;
use message_scraper::store::{
    CREATE_CHANNEL_TABLE, CREATE_MESSAGE_TABLE, CREATE_USER_TABLE, INSERT_CHANNEL, INSERT_MESSAGE,
    INSERT_USER,
};
use rusqlite::{params_from_iter, Connection};

/// A remote side that serves what it was given, by address.
struct Remote {
    /// Each channel with its history, the newest message first.
    channels: Vec<(Channel, Vec<Message>)>,
    /// How often each request is throttled before it is served.
    throttles: usize,
}

enum Answer {
    Channel(Channel),
    Page(Vec<Message>),
    Unknown,
}

impl Remote {
    fn find(&self, id: &str) -> Option<&(Channel, Vec<Message>)> {
        self.channels.iter().find(|(channel, _)| channel.id == id)
    }

    fn answer(&self, url: &str) -> Answer {
        let path = url.strip_prefix(BASE_URL).expect("the request goes to the base address");
        let path = path.strip_prefix("/channels/").expect("the request names a channel");
        match path.split_once("/messages?") {
            None => match self.find(path) {
                Some((channel, _)) => Answer::Channel(channel.clone()),
                None => Answer::Unknown,
            },
            Some((id, query)) => {
                let mut limit = None;
                let mut before = None;
                for pair in query.split('&') {
                    match pair.split_once('=') {
                        Some(("limit", value)) => limit = Some(value.parse::<usize>().unwrap()),
                        Some(("before", value)) => before = Some(value.to_string()),
                        _ => panic!("unexpected parameter {}", pair),
                    }
                }
                let limit = limit.expect("the request names a limit");
                match self.find(id) {
                    None => Answer::Unknown,
                    Some((_, history)) => {
                        let start = match before {
                            None => 0,
                            Some(cursor) => match history.iter().position(|m| m.id == cursor) {
                                Some(at) => at + 1,
                                None => history.len(),
                            },
                        };
                        let end = std::cmp::min(start + limit, history.len());
                        Answer::Page(history[start..end].to_vec())
                    }
                }
            }
        }
    }
}

/// What a driver saw while it ran a crawl.
struct Trace {
    requests: Vec<String>,
    waits: Vec<u64>,
    pages: Vec<Vec<String>>,
    messages_after_each_page: Vec<i64>,
}

impl Trace {
    fn new() -> Trace {
        Trace { requests: Vec::new(), waits: Vec::new(), pages: Vec::new(), messages_after_each_page: Vec::new() }
    }

    fn page_requests(&self) -> Vec<String> {
        self.requests.iter().filter(|url| url.contains("/messages?")).cloned().collect()
    }
}

fn open_store() -> Connection {
    let conn = Connection::open_in_memory().unwrap();
    conn.execute("PRAGMA foreign_keys = ON", []).unwrap();
    conn.execute(CREATE_CHANNEL_TABLE, []).unwrap();
    conn.execute(CREATE_MESSAGE_TABLE, []).unwrap();
    conn.execute(CREATE_USER_TABLE, []).unwrap();
    conn
}

fn write_channel(conn: &mut Connection, row: &message_scraper::model::ChannelRow) -> Stored {
    match conn.execute(INSERT_CHANNEL, params_from_iter(row.columns())) {
        Ok(_) => Stored::Committed,
        Err(error) => Stored::Failed(error.to_string()),
    }
}

fn write_users(conn: &mut Connection, users: &[User]) -> Result<(), rusqlite::Error> {
    let tx = conn.transaction()?;
    for user in users {
        let mut statement = tx.prepare(INSERT_USER)?;
        let mut kept = statement.query(params_from_iter(user.columns()))?;
        while let Some(row) = kept.next()? {
            let _: String = row.get(0)?;
        }
    }
    tx.commit()
}

fn write_messages(conn: &mut Connection, rows: &[MessageRow]) -> Result<(), rusqlite::Error> {
    let tx = conn.transaction()?;
    for row in rows {
        tx.execute(INSERT_MESSAGE, params_from_iter(row.columns()))?;
    }
    tx.commit()
}

fn stored(outcome: Result<(), rusqlite::Error>) -> Stored {
    match outcome {
        Ok(()) => Stored::Committed,
        Err(error) => Stored::Failed(error.to_string()),
    }
}

fn count(conn: &Connection, table: &str) -> i64 {
    conn.query_row(&format!("SELECT COUNT(*) FROM {}", table), [], |row| row.get(0)).unwrap()
}

fn dump(conn: &Connection, table: &str, columns: usize) -> Vec<Vec<String>> {
    let mut statement = conn.prepare(&format!("SELECT * FROM {} ORDER BY id", table)).unwrap();
    let mut rows = statement.query([]).unwrap();
    let mut all = Vec::new();
    while let Some(row) = rows.next().unwrap() {
        let mut values = Vec::new();
        for column in 0..columns {
            values.push(row.get::<usize, String>(column).unwrap());
        }
        all.push(values);
    }
    all
}

fn dump_all(conn: &Connection) -> Vec<Vec<Vec<String>>> {
    vec![dump(conn, "channel", 3), dump(conn, "user", 3), dump(conn, "message", 5)]
}

/// Runs a crawl to its end: does what each step asks for, and resolves the
/// step with what came of it.
fn drive(remote: &Remote, conn: &mut Connection, channels: &[&str], trace: &mut Trace) -> Crawl {
    let mut crawl = Crawl::begin(channels.iter().map(|id| id.to_string()).collect());
    let mut throttled = 0;
    loop {
        crawl = match crawl {
            Crawl::FetchChannel(step) => {
                trace.waits.push(step.wait_nanos);
                trace.requests.push(step.url());
                if throttled < remote.throttles {
                    throttled += 1;
                    step.resolve(Fetched::Throttled { retry_after_nanos: 2_500_000_000 })
                } else {
                    throttled = 0;
                    match remote.answer(&step.url()) {
                        Answer::Channel(channel) => step.resolve(Fetched::Body(channel)),
                        Answer::Page(_) => step.resolve(Fetched::DecodeFailed("not a channel".to_string())),
                        Answer::Unknown => step.resolve(Fetched::Rejected {
                            message: "Unknown Channel".to_string(),
                            code: 10003,
                        }),
                    }
                }
            }
            Crawl::StoreChannel(step) => {
                let outcome = write_channel(conn, &step.row);
                step.resolve(outcome)
            }
            Crawl::FetchPage(step) => {
                trace.waits.push(step.wait_nanos);
                trace.requests.push(step.url());
                if throttled < remote.throttles {
                    throttled += 1;
                    step.resolve(Fetched::Throttled { retry_after_nanos: 2_500_000_000 })
                } else {
                    throttled = 0;
                    match remote.answer(&step.url()) {
                        Answer::Page(page) => {
                            trace.pages.push(page.iter().map(|m| m.id.clone()).collect());
                            step.resolve(Fetched::Body(page))
                        }
                        Answer::Channel(_) => step.resolve(Fetched::DecodeFailed("not a page".to_string())),
                        Answer::Unknown => step.resolve(Fetched::Rejected {
                            message: "Unknown Channel".to_string(),
                            code: 10003,
                        }),
                    }
                }
            }
            Crawl::StoreUsers(step) => {
                let outcome = stored(write_users(conn, &step.users));
                step.resolve(outcome)
            }
            Crawl::StoreMessages(step) => {
                let outcome = stored(write_messages(conn, &step.messages));
                trace.messages_after_each_page.push(count(conn, "message"));
                step.resolve(outcome)
            }
            Crawl::Done => return Crawl::Done,
            Crawl::Failed(error) => return Crawl::Failed(error),
        }
    }
}

fn author(number: usize) -> User {
    User {
        id: format!("{}", 9000 + number),
        username: format!("user{}", number),
        discriminator: format!("{:04}", number),
    }
}

/// A channel with so many messages, numbered from 1 for the oldest, by 7
/// authors in turn. The history has the newest message first.
fn channel_with(id: &str, messages: usize) -> (Channel, Vec<Message>) {
    let channel = Channel { id: id.to_string(), guild_id: Some("7".to_string()), name: Some(format!("channel {}", id)) };
    let history = (1..=messages)
        .rev()
        .map(|number| Message {
            id: format!("{}{}", if id == "42" { "" } else { id }, number),
            channel_id: id.to_string(),
            author: author(number % 7),
            content: format!("message {}", number),
            timestamp: format!("2022-05-01T10:00:00.{:06}+00:00", number),
        })
        .collect();
    (channel, history)
}

fn page_url(channel: &str, before: Option<&str>) -> String {
    match before {
        None => format!("https://discord.com/api/v10/channels/{}/messages?limit=100", channel),
        Some(cursor) => format!(
            "https://discord.com/api/v10/channels/{}/messages?limit=100&before={}",
            channel, cursor
        ),
    }
}

#[test]
fn crawl_of_150_messages_takes_three_pages() {
    let remote = Remote { channels: vec![channel_with("42", 150)], throttles: 0 };
    let mut conn = open_store();
    let mut trace = Trace::new();
    let end = drive(&remote, &mut conn, &["42"], &mut trace);
    assert_eq!(end, Crawl::Done);
    assert_eq!(
        trace.requests,
        vec![
            "https://discord.com/api/v10/channels/42".to_string(),
            page_url("42", None),
            page_url("42", Some("51")),
            page_url("42", Some("1")),
        ]
    );
    assert_eq!(trace.pages.len(), 3);
    let first: Vec<String> = (51..=150).rev().map(|n| n.to_string()).collect();
    let second: Vec<String> = (1..=50).rev().map(|n| n.to_string()).collect();
    assert_eq!(trace.pages[0], first);
    assert_eq!(trace.pages[1], second);
    assert!(trace.pages[2].is_empty());
    assert_eq!(trace.messages_after_each_page, vec![100, 150]);
    assert_eq!(count(&conn, "message"), 150);
    assert_eq!(
        dump(&conn, "channel", 3),
        vec![vec!["42".to_string(), "7".to_string(), "channel 42".to_string()]]
    );
    assert_eq!(count(&conn, "user"), 7);
    let users = dump(&conn, "user", 3);
    for number in 0..7 {
        let user = author(number);
        assert!(users.contains(&vec![user.id, user.username, user.discriminator]));
    }
    let stored_ids: Vec<String> = dump(&conn, "message", 5).into_iter().map(|row| row[0].clone()).collect();
    for number in 1..=150 {
        assert!(stored_ids.contains(&number.to_string()));
    }
}

#[test]
fn second_crawl_leaves_the_store_as_it_is() {
    let remote = Remote { channels: vec![channel_with("42", 150), channel_with("43", 20)], throttles: 0 };
    let mut conn = open_store();
    let mut first = Trace::new();
    assert_eq!(drive(&remote, &mut conn, &["42", "43"], &mut first), Crawl::Done);
    let once = dump_all(&conn);
    let mut second = Trace::new();
    assert_eq!(drive(&remote, &mut conn, &["42", "43"], &mut second), Crawl::Done);
    assert_eq!(dump_all(&conn), once);
    assert_eq!(second.requests, first.requests);
    assert_eq!(count(&conn, "channel"), 2);
    assert_eq!(count(&conn, "message"), 170);
    assert_eq!(count(&conn, "user"), 7);
}

#[test]
fn full_pages_take_one_more_request() {
    for full_pages in 0..4usize {
        let remote = Remote { channels: vec![channel_with("42", full_pages * 100)], throttles: 0 };
        let mut conn = open_store();
        let mut trace = Trace::new();
        assert_eq!(drive(&remote, &mut conn, &["42"], &mut trace), Crawl::Done);
        let requests = trace.page_requests();
        assert_eq!(requests.len(), full_pages + 1);
        for (n, one) in requests.iter().enumerate() {
            for other in &requests[n + 1..] {
                assert_ne!(one, other);
            }
        }
        assert_eq!(trace.pages.len(), full_pages + 1);
        for page in &trace.pages[..full_pages] {
            assert_eq!(page.len(), 100);
        }
        assert!(trace.pages[full_pages].is_empty());
        assert_eq!(count(&conn, "message"), (full_pages * 100) as i64);
    }
}

#[test]
fn page_requests_are_the_pages_rounded_up_and_one() {
    for (messages, requests) in [(0usize, 1usize), (1, 2), (99, 2), (100, 2), (101, 3), (150, 3), (250, 4)] {
        let remote = Remote { channels: vec![channel_with("42", messages)], throttles: 0 };
        let mut conn = open_store();
        let mut trace = Trace::new();
        assert_eq!(drive(&remote, &mut conn, &["42"], &mut trace), Crawl::Done);
        assert_eq!(trace.page_requests().len(), requests);
        assert_eq!(count(&conn, "message"), messages as i64);
    }
}

#[test]
fn later_pages_hold_older_messages() {
    let remote = Remote { channels: vec![channel_with("42", 350)], throttles: 0 };
    let mut conn = open_store();
    let mut trace = Trace::new();
    assert_eq!(drive(&remote, &mut conn, &["42"], &mut trace), Crawl::Done);
    assert_eq!(trace.pages.len(), 5);
    for pair in trace.pages.windows(2) {
        let oldest: u64 = pair[0].last().unwrap().parse().unwrap();
        for id in &pair[1] {
            assert!(id.parse::<u64>().unwrap() < oldest);
        }
    }
}

#[test]
fn the_row_that_came_first_stays() {
    let (channel, mut history) = channel_with("42", 3);
    history[0].author = User { id: "9001".to_string(), username: "renamed".to_string(), discriminator: "9999".to_string() };
    history[2].author = User { id: "9001".to_string(), username: "original".to_string(), discriminator: "0001".to_string() };
    let remote = Remote { channels: vec![(channel, history)], throttles: 0 };
    let mut conn = open_store();
    conn.execute(INSERT_CHANNEL, ["42", "1", "kept name"]).unwrap();
    let mut trace = Trace::new();
    assert_eq!(drive(&remote, &mut conn, &["42"], &mut trace), Crawl::Done);
    assert_eq!(
        dump(&conn, "channel", 3),
        vec![vec!["42".to_string(), "1".to_string(), "kept name".to_string()]]
    );
    let users = dump(&conn, "user", 3);
    assert!(users.contains(&vec!["9001".to_string(), "renamed".to_string(), "9999".to_string()]));
    assert_eq!(users.iter().filter(|row| row[0] == "9001").count(), 1);
}

#[test]
fn channels_are_crawled_in_order() {
    let remote = Remote { channels: vec![channel_with("43", 2), channel_with("42", 101)], throttles: 0 };
    let mut conn = open_store();
    let mut trace = Trace::new();
    assert_eq!(drive(&remote, &mut conn, &["42", "43"], &mut trace), Crawl::Done);
    assert_eq!(
        trace.requests,
        vec![
            "https://discord.com/api/v10/channels/42".to_string(),
            page_url("42", None),
            page_url("42", Some("2")),
            page_url("42", Some("1")),
            "https://discord.com/api/v10/channels/43".to_string(),
            page_url("43", None),
            page_url("43", Some("431")),
        ]
    );
    assert_eq!(count(&conn, "message"), 103);
}

#[test]
fn the_first_failure_ends_the_run() {
    let remote = Remote { channels: vec![channel_with("42", 5), channel_with("44", 5)], throttles: 0 };
    let mut conn = open_store();
    let mut trace = Trace::new();
    let end = drive(&remote, &mut conn, &["42", "43", "44"], &mut trace);
    assert_eq!(
        end,
        Crawl::Failed(CrawlError::Api {
            url: "https://discord.com/api/v10/channels/43".to_string(),
            message: "Unknown Channel".to_string(),
            code: 10003,
        })
    );
    assert_eq!(trace.requests.last().unwrap(), "https://discord.com/api/v10/channels/43");
    assert!(!trace.requests.iter().any(|url| url.contains("/channels/44")));
    assert_eq!(count(&conn, "channel"), 1);
    assert_eq!(count(&conn, "message"), 5);
}

#[test]
fn throttling_delays_and_changes_nothing_else() {
    let calm = Remote { channels: vec![channel_with("42", 150)], throttles: 0 };
    let mut calm_store = open_store();
    let mut calm_trace = Trace::new();
    assert_eq!(drive(&calm, &mut calm_store, &["42"], &mut calm_trace), Crawl::Done);

    let busy = Remote { channels: vec![channel_with("42", 150)], throttles: 2 };
    let mut busy_store = open_store();
    let mut busy_trace = Trace::new();
    assert_eq!(drive(&busy, &mut busy_store, &["42"], &mut busy_trace), Crawl::Done);

    assert_eq!(dump_all(&busy_store), dump_all(&calm_store));
    assert_eq!(busy_trace.pages, calm_trace.pages);
    let mut expected_requests = Vec::new();
    let mut expected_waits = Vec::new();
    for url in &calm_trace.requests {
        for attempt in 0..3 {
            expected_requests.push(url.clone());
            expected_waits.push(if attempt == 0 { 0 } else { 2_600_000_000 });
        }
    }
    assert_eq!(busy_trace.requests, expected_requests);
    assert_eq!(busy_trace.waits, expected_waits);
}

#[test]
fn every_message_names_rows_that_are_there() {
    let remote = Remote { channels: vec![channel_with("42", 230), channel_with("43", 10)], throttles: 0 };
    let mut conn = open_store();
    let mut trace = Trace::new();
    assert_eq!(drive(&remote, &mut conn, &["42", "43"], &mut trace), Crawl::Done);
    let orphans: i64 = conn
        .query_row(
            "SELECT COUNT(*) FROM message WHERE author_id NOT IN (SELECT id FROM user) OR channel_id NOT IN (SELECT id FROM channel)",
            [],
            |row| row.get(0),
        )
        .unwrap();
    assert_eq!(orphans, 0);
    let violations: i64 = conn
        .query_row("SELECT COUNT(*) FROM pragma_foreign_key_check", [], |row| row.get(0))
        .unwrap();
    assert_eq!(violations, 0);
}

#[test]
fn a_batch_that_fails_partway_leaves_no_row() {
    let (_, history) = channel_with("42", 10);
    let mut conn = open_store();
    conn.execute(INSERT_CHANNEL, ["42", "", ""]).unwrap();
    conn.execute(
        "CREATE TRIGGER refuse_user BEFORE INSERT ON user WHEN NEW.id = '9005' BEGIN SELECT RAISE(ABORT, 'refused'); END",
        [],
    )
    .unwrap();
    conn.execute(
        "CREATE TRIGGER refuse_message BEFORE INSERT ON message WHEN NEW.id = '5' BEGIN SELECT RAISE(ABORT, 'refused'); END",
        [],
    )
    .unwrap();
    let users = message_scraper::model::authors(&history);
    assert!(users.iter().position(|user| user.id == "9005").unwrap() > 0);
    let outcome = stored(write_users(&mut conn, &users));
    assert!(matches!(outcome, Stored::Failed(_)));
    assert_eq!(count(&conn, "user"), 0);

    conn.execute("DROP TRIGGER refuse_user", []).unwrap();
    assert_eq!(stored(write_users(&mut conn, &users)), Stored::Committed);
    assert_eq!(count(&conn, "user"), 7);

    let rows = message_scraper::model::rows(&history);
    assert!(rows.iter().position(|row| row.id == "5").unwrap() > 0);
    let outcome = stored(write_messages(&mut conn, &rows));
    assert!(matches!(outcome, Stored::Failed(_)));
    assert_eq!(count(&conn, "message"), 0);
    assert_eq!(count(&conn, "user"), 7);
}

#[test]
fn a_failed_write_ends_the_run_and_keeps_earlier_pages() {
    let remote = Remote { channels: vec![channel_with("42", 150)], throttles: 0 };
    let mut conn = open_store();
    conn.execute(
        "CREATE TRIGGER refuse_message BEFORE INSERT ON message WHEN NEW.id = '20' BEGIN SELECT RAISE(ABORT, 'refused'); END",
        [],
    )
    .unwrap();
    let mut trace = Trace::new();
    let end = drive(&remote, &mut conn, &["42"], &mut trace);
    match end {
        Crawl::Failed(CrawlError::Store(text)) => assert!(text.contains("refused")),
        other => panic!("the run ended as {:?}", other),
    }
    assert_eq!(trace.page_requests().len(), 2);
    assert_eq!(count(&conn, "message"), 100);
    let newest_kept: Vec<String> = dump(&conn, "message", 5).into_iter().map(|row| row[0].clone()).collect();
    assert!(newest_kept.contains(&"51".to_string()));
    assert!(!newest_kept.contains(&"50".to_string()));
}

#[test]
fn a_crawl_after_a_broken_one_completes_the_store() {
    let remote = Remote { channels: vec![channel_with("42", 150)], throttles: 0 };
    let mut broken = open_store();
    broken
        .execute(
            "CREATE TRIGGER refuse_message BEFORE INSERT ON message WHEN NEW.id = '20' BEGIN SELECT RAISE(ABORT, 'refused'); END",
            [],
        )
        .unwrap();
    let mut trace = Trace::new();
    assert!(matches!(drive(&remote, &mut broken, &["42"], &mut trace), Crawl::Failed(_)));
    broken.execute("DROP TRIGGER refuse_message", []).unwrap();
    let mut again = Trace::new();
    assert_eq!(drive(&remote, &mut broken, &["42"], &mut again), Crawl::Done);

    let mut whole = open_store();
    let mut straight = Trace::new();
    assert_eq!(drive(&remote, &mut whole, &["42"], &mut straight), Crawl::Done);
    assert_eq!(dump_all(&broken), dump_all(&whole));
}

#[test]
fn pages_together_are_the_history() {
    for messages in [0usize, 1, 100, 150, 201] {
        let remote = Remote { channels: vec![channel_with("42", messages)], throttles: 1 };
        let mut conn = open_store();
        let mut trace = Trace::new();
        assert_eq!(drive(&remote, &mut conn, &["42"], &mut trace), Crawl::Done);
        let read: Vec<String> = trace.pages.concat();
        let history: Vec<String> = (1..=messages).rev().map(|n| n.to_string()).collect();
        assert_eq!(read, history);
    }
}
