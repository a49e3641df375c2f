use message_scraper::crawl::{
    ChannelFetch, ChannelStore, Crawl, Fetched, MessageStore, PageFetch, Queue, Stored, UserStore,
};
use message_scraper::error::CrawlError;
use message_scraper::model::{Channel, ChannelRow, Message, MessageRow, User};

fn ids(names: &[&str]) -> Vec<String> {
    names.iter().map(|name| name.to_string()).collect()
}

fn queue(channel: &str, channels: &[&str], next: usize) -> Queue {
    Queue { channel: channel.to_string(), channels: ids(channels), next }
}

fn user(id: &str) -> User {
    User { id: id.to_string(), username: format!("user{}", id), discriminator: "0001".to_string() }
}

fn message(id: &str, author: &str) -> Message {
    Message {
        id: id.to_string(),
        channel_id: "42".to_string(),
        author: user(author),
        content: format!("text of {}", id),
        timestamp: "2022-05-01T10:00:00.000000+00:00".to_string(),
    }
}

fn row(id: &str, author: &str) -> MessageRow {
    message(id, author).row()
}

fn page_fetch(before: Option<&str>) -> PageFetch {
    PageFetch {
        queue: queue("42", &["42", "43"], 1),
        before: before.map(|cursor| cursor.to_string()),
        wait_nanos: 0,
    }
}

#[test]
fn a_crawl_of_no_channel_is_done() {
    assert_eq!(Crawl::begin(Vec::new()), Crawl::Done);
}

#[test]
fn a_crawl_begins_with_the_first_channel() {
    assert_eq!(
        Crawl::begin(ids(&["42", "43"])),
        Crawl::FetchChannel(ChannelFetch { queue: queue("42", &["42", "43"], 1), wait_nanos: 0 })
    );
}

#[test]
fn channel_fetch_asks_at_the_channel_address() {
    let step = ChannelFetch { queue: queue("42", &["42"], 1), wait_nanos: 0 };
    assert_eq!(step.url(), "https://discord.com/api/v10/channels/42");
}

#[test]
fn fetched_channel_is_written() {
    let step = ChannelFetch { queue: queue("42", &["42"], 1), wait_nanos: 0 };
    let channel = Channel { id: "42".to_string(), guild_id: None, name: Some("general".to_string()) };
    assert_eq!(
        step.resolve(Fetched::Body(channel)),
        Crawl::StoreChannel(ChannelStore {
            queue: queue("42", &["42"], 1),
            row: ChannelRow { id: "42".to_string(), guild_id: String::new(), name: "general".to_string() },
        })
    );
}

#[test]
fn written_channel_leads_to_the_newest_page() {
    let step = ChannelStore {
        queue: queue("42", &["42"], 1),
        row: ChannelRow { id: "42".to_string(), guild_id: String::new(), name: String::new() },
    };
    let next = step.resolve(Stored::Committed);
    assert_eq!(
        next,
        Crawl::FetchPage(PageFetch { queue: queue("42", &["42"], 1), before: None, wait_nanos: 0 })
    );
    match next {
        Crawl::FetchPage(fetch) => assert_eq!(
            fetch.url(),
            "https://discord.com/api/v10/channels/42/messages?limit=100"
        ),
        _ => unreachable!(),
    }
}

#[test]
fn page_with_messages_is_written_authors_first() {
    let page = vec![message("3", "9"), message("2", "8"), message("1", "9")];
    let next = page_fetch(None).resolve(Fetched::Body(page));
    assert_eq!(
        next,
        Crawl::StoreUsers(UserStore {
            queue: queue("42", &["42", "43"], 1),
            users: vec![user("9"), user("8"), user("9")],
            messages: vec![row("3", "9"), row("2", "8"), row("1", "9")],
            cursor: "1".to_string(),
        })
    );
}

#[test]
fn written_authors_lead_to_the_messages() {
    let step = UserStore {
        queue: queue("42", &["42"], 1),
        users: vec![user("9")],
        messages: vec![row("3", "9")],
        cursor: "3".to_string(),
    };
    assert_eq!(
        step.resolve(Stored::Committed),
        Crawl::StoreMessages(MessageStore {
            queue: queue("42", &["42"], 1),
            messages: vec![row("3", "9")],
            cursor: "3".to_string(),
        })
    );
}

#[test]
fn written_messages_lead_to_the_page_before_the_oldest() {
    let step = MessageStore {
        queue: queue("42", &["42"], 1),
        messages: vec![row("52", "9"), row("51", "9")],
        cursor: "51".to_string(),
    };
    let next = step.resolve(Stored::Committed);
    assert_eq!(
        next,
        Crawl::FetchPage(PageFetch {
            queue: queue("42", &["42"], 1),
            before: Some("51".to_string()),
            wait_nanos: 0,
        })
    );
    match next {
        Crawl::FetchPage(fetch) => assert_eq!(
            fetch.url(),
            "https://discord.com/api/v10/channels/42/messages?limit=100&before=51"
        ),
        _ => unreachable!(),
    }
}

#[test]
fn empty_page_turns_to_the_next_channel() {
    assert_eq!(
        page_fetch(Some("1")).resolve(Fetched::Body(Vec::new())),
        Crawl::FetchChannel(ChannelFetch { queue: queue("43", &["42", "43"], 2), wait_nanos: 0 })
    );
}

#[test]
fn empty_page_of_the_last_channel_ends_the_crawl() {
    let step = PageFetch { queue: queue("43", &["42", "43"], 2), before: None, wait_nanos: 0 };
    assert_eq!(step.resolve(Fetched::Body(Vec::new())), Crawl::Done);
}

#[test]
fn a_queue_that_points_past_its_end_is_exhausted() {
    let step = PageFetch { queue: queue("43", &["42", "43"], 7), before: None, wait_nanos: 0 };
    assert_eq!(step.resolve(Fetched::Body(Vec::new())), Crawl::Done);
}

#[test]
fn throttled_page_is_asked_again_after_the_wait_and_the_pad() {
    let retry_after_seconds: f64 = 2.5;
    let retry_after_nanos = std::time::Duration::from_secs_f64(retry_after_seconds).as_nanos() as u64;
    assert_eq!(retry_after_nanos, 2_500_000_000);
    let step = page_fetch(Some("51"));
    let url = step.url();
    let next = step.resolve(Fetched::Throttled { retry_after_nanos });
    assert_eq!(
        next,
        Crawl::FetchPage(PageFetch {
            queue: queue("42", &["42", "43"], 1),
            before: Some("51".to_string()),
            wait_nanos: 2_600_000_000,
        })
    );
    match next {
        Crawl::FetchPage(again) => {
            assert!(std::time::Duration::from_nanos(again.wait_nanos).as_secs_f64() >= 2.6);
            assert_eq!(again.url(), url);
        }
        _ => unreachable!(),
    }
}

#[test]
fn throttled_channel_is_asked_again_after_the_wait_and_the_pad() {
    let step = ChannelFetch { queue: queue("42", &["42"], 1), wait_nanos: 0 };
    let url = step.url();
    let next = step.resolve(Fetched::Throttled { retry_after_nanos: 2_500_000_000 });
    assert_eq!(
        next,
        Crawl::FetchChannel(ChannelFetch {
            queue: queue("42", &["42"], 1),
            wait_nanos: 2_600_000_000,
        })
    );
    match next {
        Crawl::FetchChannel(again) => assert_eq!(again.url(), url),
        _ => unreachable!(),
    }
}

#[test]
fn throttling_has_no_ceiling() {
    let mut crawl = Crawl::FetchPage(page_fetch(None));
    for round in 0..1000u64 {
        crawl = match crawl {
            Crawl::FetchPage(step) => step.resolve(Fetched::Throttled { retry_after_nanos: round }),
            _ => unreachable!(),
        };
        match &crawl {
            Crawl::FetchPage(step) => {
                assert_eq!(step.wait_nanos, round + 100_000_000);
                assert_eq!(step.before, None);
            }
            _ => unreachable!(),
        }
    }
}

#[test]
fn a_wait_that_was_served_is_not_served_again() {
    let step =
        PageFetch { queue: queue("42", &["42"], 1), before: None, wait_nanos: 2_600_000_000 };
    match step.resolve(Fetched::Body(vec![message("3", "9")])) {
        Crawl::StoreUsers(store) => match store.resolve(Stored::Committed) {
            Crawl::StoreMessages(store) => match store.resolve(Stored::Committed) {
                Crawl::FetchPage(next) => assert_eq!(next.wait_nanos, 0),
                _ => unreachable!(),
            },
            _ => unreachable!(),
        },
        _ => unreachable!(),
    }
}

#[test]
fn refused_channel_fails_with_the_address_and_the_reason() {
    let step = ChannelFetch { queue: queue("42", &["42"], 1), wait_nanos: 0 };
    let next = step.resolve(Fetched::Rejected { message: "Unknown Channel".to_string(), code: 10003 });
    assert_eq!(
        next,
        Crawl::Failed(CrawlError::Api {
            url: "https://discord.com/api/v10/channels/42".to_string(),
            message: "Unknown Channel".to_string(),
            code: 10003,
        })
    );
}

#[test]
fn refused_page_fails_with_the_address_and_the_reason() {
    let next = page_fetch(Some("51"))
        .resolve(Fetched::Rejected { message: "Missing Access".to_string(), code: 50001 });
    match next {
        Crawl::Failed(error) => {
            assert_eq!(
                error,
                CrawlError::Api {
                    url: "https://discord.com/api/v10/channels/42/messages?limit=100&before=51"
                        .to_string(),
                    message: "Missing Access".to_string(),
                    code: 50001,
                }
            );
            assert_eq!(
                error.report(),
                "While executing request https://discord.com/api/v10/channels/42/messages?limit=100&before=51: Missing Access"
            );
        }
        _ => unreachable!(),
    }
}

#[test]
fn transport_failure_ends_the_run() {
    let step = ChannelFetch { queue: queue("42", &["42", "43"], 1), wait_nanos: 0 };
    assert_eq!(
        step.resolve(Fetched::TransportFailed("connection reset".to_string())),
        Crawl::Failed(CrawlError::Transport("connection reset".to_string()))
    );
    assert_eq!(
        page_fetch(None).resolve(Fetched::TransportFailed("timed out".to_string())),
        Crawl::Failed(CrawlError::Transport("timed out".to_string()))
    );
}

#[test]
fn decode_failure_ends_the_run() {
    let step = ChannelFetch { queue: queue("42", &["42", "43"], 1), wait_nanos: 0 };
    assert_eq!(
        step.resolve(Fetched::DecodeFailed("missing field `id`".to_string())),
        Crawl::Failed(CrawlError::Decode("missing field `id`".to_string()))
    );
    assert_eq!(
        page_fetch(None).resolve(Fetched::DecodeFailed("expected a sequence".to_string())),
        Crawl::Failed(CrawlError::Decode("expected a sequence".to_string()))
    );
}

#[test]
fn store_failure_ends_the_run_at_every_write() {
    let channel = ChannelStore {
        queue: queue("42", &["42", "43"], 1),
        row: ChannelRow { id: "42".to_string(), guild_id: String::new(), name: String::new() },
    };
    assert_eq!(
        channel.resolve(Stored::Failed("disk full".to_string())),
        Crawl::Failed(CrawlError::Store("disk full".to_string()))
    );
    let users = UserStore {
        queue: queue("42", &["42", "43"], 1),
        users: vec![user("9")],
        messages: vec![row("3", "9")],
        cursor: "3".to_string(),
    };
    assert_eq!(
        users.resolve(Stored::Failed("disk full".to_string())),
        Crawl::Failed(CrawlError::Store("disk full".to_string()))
    );
    let messages = MessageStore {
        queue: queue("42", &["42", "43"], 1),
        messages: vec![row("3", "9")],
        cursor: "3".to_string(),
    };
    assert_eq!(
        messages.resolve(Stored::Failed("disk full".to_string())),
        Crawl::Failed(CrawlError::Store("disk full".to_string()))
    );
}
