//! What can end a crawl before its time.

use vstd::prelude::*;
use crate::model::Text;

verus! {

/// The reasons for which a crawl is given up. None of them is recovered
/// from: the first one ends the whole run. Throttling is no error and has no
/// variant here, since the crawl waits and asks again.
#[derive(Debug, PartialEq, Eq)]
pub enum CrawlError {
    /// The request did not get through.
    Transport(String),
    /// The remote side refused the request at `url`, and said why.
    Api { url: String, message: String, code: usize },
    /// A response did not hold what was asked for.
    Decode(String),
    /// A batch could not be written.
    Store(String),
    /// No credential was given.
    Config,
}

/// What a [`CrawlError`] stands for in contracts.
pub enum CrawlErrorView {
    Transport(Text),
    Api { url: Text, message: Text, code: usize },
    Decode(Text),
    Store(Text),
    Config,
}

impl View for CrawlError {
    type V = CrawlErrorView;

    open spec fn view(&self) -> CrawlErrorView {
        match self {
            CrawlError::Transport(text) => CrawlErrorView::Transport(text@),
            CrawlError::Api { url, message, code } => CrawlErrorView::Api {
                url: url@,
                message: message@,
                code: *code,
            },
            CrawlError::Decode(text) => CrawlErrorView::Decode(text@),
            CrawlError::Store(text) => CrawlErrorView::Store(text@),
            CrawlError::Config => CrawlErrorView::Config,
        }
    }
}

impl CrawlErrorView {
    /// The sentence that reports the error. A refusal names the request that
    /// was refused before the remote side's own words.
    pub open spec fn report(self) -> Text {
        match self {
            CrawlErrorView::Transport(text) => text,
            CrawlErrorView::Api { url, message, code } => "While executing request "@ + url + ": "@
                + message,
            CrawlErrorView::Decode(text) => text,
            CrawlErrorView::Store(text) => text,
            CrawlErrorView::Config => "No authorization token found!"@,
        }
    }
}

impl CrawlError {
    /// The sentence that reports the error.
    pub fn report(&self) -> (text: String)
        ensures
            text@ == self@.report(),
    {
        match self {
            CrawlError::Transport(text) => text.clone(),
            CrawlError::Api { url, message, code } => {
                let mut text = String::from_str("While executing request ");
                text.append(url.as_str());
                text.append(": ");
                text.append(message.as_str());
                text
            },
            CrawlError::Decode(text) => text.clone(),
            CrawlError::Store(text) => text.clone(),
            CrawlError::Config => String::from_str("No authorization token found!"),
        }
    }
}

/// The credential to crawl with: the one given on the command line, else the
/// one found in the environment.
pub open spec fn chosen_credential(given: Option<Text>, ambient: Option<Text>) -> Option<Text> {
    match given {
        Some(token) => Some(token),
        None => ambient,
    }
}

/// Picks the credential to crawl with. One given explicitly wins over one
/// found in the environment. Without either the run cannot start.
pub fn resolve_credential(given: Option<String>, ambient: Option<String>) -> (token: Result<
    String,
    CrawlError,
>)
    ensures
        (match chosen_credential(given.deep_view(), ambient.deep_view()) {
            Some(text) => token is Ok && token->Ok_0@ == text,
            None => token is Err && token->Err_0@ == CrawlErrorView::Config,
        }),
{
    match given {
        Some(token) => Ok(token),
        None => match ambient {
            Some(token) => Ok(token),
            None => Err(CrawlError::Config),
        },
    }
}

} // verus!
