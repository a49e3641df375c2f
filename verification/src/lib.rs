//! Verified core of a chat-history crawler.
//!
//! The crate holds every decision of a full-history crawl over a paginated,
//! rate-limited message API: which request comes next, how long to wait after
//! throttling, which rows are written and in which order, and when the crawl
//! ends. It performs no input or output itself. A driver carries out each
//! step that the crawl asks for and reports the outcome.
//!
//! # Driving a crawl
//!
//! [`crawl::Crawl::begin`] gives the first step. Each step is a value of its
//! own type, with what the driver needs in its fields:
//!
//! - For a fetch the driver waits as long as the step says, sends a `GET` to
//!   the step's `url()` with the credential and [`request::USER_AGENT`], reads
//!   the response as [`request::classify_status`] tells, and reports a
//!   [`crawl::Fetched`].
//! - For a write the driver offers the rows of the step to the store with the
//!   statements of [`store`], all rows of the step in one transaction, and
//!   reports a [`crawl::Stored`].
//!
//! The step's `resolve` takes the report and gives the next step, until the
//! crawl is [`crawl::Crawl::Done`] or [`crawl::Crawl::Failed`].
//!
//! # What is proved
//!
//! Every executable function is proved to compute what its contract states,
//! over the views of [`model`]. On top of that the crate proves what a whole
//! crawl comes to in a world that behaves as [`world`] describes it: that it
//! ends and leaves nothing out ([`laws`]), that crawling twice is crawling
//! once ([`laws`]), that a crawl which was cut short is made good by
//! crawling again ([`resume`]), that throttling delays and changes nothing
//! else ([`throttle`]), and that no message is ever written before its
//! channel and its author ([`integrity`]).

pub mod crawl;
pub mod error;
pub mod integrity;
pub mod laws;
pub mod model;
pub mod paging;
pub mod request;
pub mod resume;
pub mod store;
pub mod throttle;
pub mod world;
