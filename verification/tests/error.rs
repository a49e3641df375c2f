use message_scraper::error::{resolve_credential, CrawlError};

#[test]
fn refusal_names_the_request_and_the_reason() {
    let error = CrawlError::Api {
        url: "https://discord.com/api/v10/channels/42".to_string(),
        message: "Unknown Channel".to_string(),
        code: 10003,
    };
    assert_eq!(
        error.report(),
        "While executing request https://discord.com/api/v10/channels/42: Unknown Channel"
    );
}

#[test]
fn other_errors_report_their_text() {
    assert_eq!(CrawlError::Transport("connection reset".to_string()).report(), "connection reset");
    assert_eq!(CrawlError::Decode("missing field `id`".to_string()).report(), "missing field `id`");
    assert_eq!(CrawlError::Store("disk full".to_string()).report(), "disk full");
}

#[test]
fn missing_credential_has_its_sentence() {
    assert_eq!(CrawlError::Config.report(), "No authorization token found!");
}

#[test]
fn given_credential_wins() {
    assert_eq!(
        resolve_credential(Some("given".to_string()), Some("ambient".to_string())),
        Ok("given".to_string())
    );
    assert_eq!(resolve_credential(Some("given".to_string()), None), Ok("given".to_string()));
}

#[test]
fn ambient_credential_is_the_fallback() {
    assert_eq!(resolve_credential(None, Some("ambient".to_string())), Ok("ambient".to_string()));
}

#[test]
fn no_credential_is_a_config_error() {
    assert_eq!(resolve_credential(None, None), Err(CrawlError::Config));
}
