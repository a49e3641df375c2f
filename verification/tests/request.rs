use message_scraper::request::{backoff_nanos, channel_url, classify_status, page_url, StatusClass};

#[test]
fn status_200_is_success() {
    assert_eq!(classify_status(200), StatusClass::Success);
}

#[test]
fn status_429_is_throttled() {
    assert_eq!(classify_status(429), StatusClass::Throttled);
}

#[test]
fn other_statuses_are_rejections() {
    for status in [0u16, 199, 201, 204, 301, 400, 401, 403, 404, 428, 430, 500, 503, u16::MAX] {
        assert_eq!(classify_status(status), StatusClass::Rejected);
    }
}

#[test]
fn backoff_adds_a_tenth_of_a_second() {
    assert_eq!(backoff_nanos(2_500_000_000), 2_600_000_000);
    assert_eq!(backoff_nanos(0), 100_000_000);
}

#[test]
fn backoff_saturates() {
    assert_eq!(backoff_nanos(u64::MAX), u64::MAX);
    assert_eq!(backoff_nanos(u64::MAX - 100_000_000), u64::MAX);
    assert_eq!(backoff_nanos(u64::MAX - 100_000_001), u64::MAX - 1);
}

#[test]
fn channel_url_names_the_channel() {
    assert_eq!(channel_url("42"), "https://discord.com/api/v10/channels/42");
}

#[test]
fn first_page_url_has_no_cursor() {
    assert_eq!(
        page_url("42", None),
        "https://discord.com/api/v10/channels/42/messages?limit=100"
    );
}

#[test]
fn later_page_url_names_the_cursor() {
    assert_eq!(
        page_url("42", Some("51")),
        "https://discord.com/api/v10/channels/42/messages?limit=100&before=51"
    );
}
