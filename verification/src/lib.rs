//! Locating 3GPP specification archives: the identifier and date-filter
//! grammars, the version scheme of archive file names, and the selection of
//! matching rows from a directory listing page.

pub mod date_filter;
pub mod error;
pub mod listing;
pub mod outside;
pub mod spec_number;
pub mod text;
pub mod version;

pub use date_filter::{DateFilter, Month};
pub use error::ParseError;
pub use listing::{
    body_rows, check_listing_url, find_header_indexes, header_cells, link_to_item, list,
    list_page, listing_path, listing_url, retains, select_items, select_row, Cell, Link,
    ListError, SpecItem, Timestamp, BASE_URL, DATE_FORMAT, MAX_PAGE_CHARS,
};
pub use spec_number::{parse_spec_number, SpecNumber};
pub use version::{parse_version, Version};
