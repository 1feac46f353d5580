//! Verified extraction core of a paginated product-catalog crawler.
//!
//! The library owns the logic of the crawl: the retry policy of the fetch
//! layer, pagination discovery, the rules that turn listing and detail pages
//! into records, and the state machine that sequences the whole pipeline.
//! The HTML selection itself is done by the `scraper` crate behind a small
//! trusted boundary in `dom`; everything downstream of it is verified.
pub mod detail;
pub mod dom;
pub mod fetch;
pub mod listing;
pub mod pagination;
pub mod pipeline;
pub mod records;
pub mod text;

pub use dom::{get_pages_from_html, get_part_details, get_parts_from_html};
pub use fetch::{make_url, run_with_retries, should_retry, stock_form_fields, FetchRun,
    PACING_SECONDS, RETRY_COUNT};
pub use records::{ExtractError, PartData, PartWithDetails};
