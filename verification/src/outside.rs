//! What the library takes on trust from code that is not verified here: each
//! item states what the named function is documented to do, and nothing in
//! this crate proves it.

use vstd::prelude::*;
use chrono::{Datelike, Timelike};
use crate::listing::{
    Cell, CellView, Link, Timestamp, BASE_URL, CELL_SELECTOR, DATE_FORMAT, HEADER_SELECTOR,
    LINK_ATTRIBUTE, LINK_SELECTOR, MAX_PAGE_CHARS, ROW_SELECTOR,
};

verus! {

/// `String::push_str` appends the characters of `t` to `s` and leaves what
/// `s` held before in front of them.
pub assume_specification[ String::push_str ](s: &mut String, t: &str)
    ensures
        final(s)@ == old(s)@ + t@,
;

/// What `chrono::NaiveDateTime::parse_from_str` makes of `text` under the
/// format `format`: the date and time to the minute, or `None` where it
/// reports an error.
pub uninterp spec fn parsed_timestamp(text: Seq<char>, format: Seq<char>) -> Option<Timestamp>;

/// Calls `chrono::NaiveDateTime::parse_from_str` and hands out the fields of
/// what it returns. The result is taken to depend on the two texts alone;
/// of a date that chrono accepted, only that its fields are in the ranges
/// chrono documents for them. Only the library's own format is trusted.
#[verifier::external_body]
pub(crate) fn parse_timestamp(text: &str, format: &str) -> (r: Option<Timestamp>)
    requires
        format@ == DATE_FORMAT@,
    ensures
        r == parsed_timestamp(text@, format@),
        r matches Some(t) ==> t.well_formed(),
{
    match chrono::NaiveDateTime::parse_from_str(text, format) {
        Ok(t) => Some(
            Timestamp {
                year: t.year(),
                month: t.month(),
                day: t.day(),
                hour: t.hour(),
                minute: t.minute(),
            },
        ),
        Err(_) => None,
    }
}

/// The flattened texts of the elements of the HTML document `page` that the
/// CSS selector `selector` matches, in the order in which `scraper` yields
/// them; `None` where `selector` is no selector.
pub uninterp spec fn selected_texts(page: Seq<char>, selector: Seq<char>) -> Option<Seq<Seq<char>>>;

/// Parses `page` with `scraper::Html::parse_document`, selects with
/// `Html::select`, and collects `ElementRef::text` of each match. `None`
/// where `scraper::Selector::parse` rejects `selector`. The parser keeps
/// text in buffers whose sizes are 32-bit numbers and stops the program
/// where one outgrows them, so a longer page than [`MAX_PAGE_CHARS`] is left
/// out. Only the library's own selector is trusted.
#[verifier::external_body]
pub(crate) fn select_texts(page: &str, selector: &str) -> (r: Option<Vec<String>>)
    requires
        page@.len() <= MAX_PAGE_CHARS,
        selector@ == HEADER_SELECTOR@,
    ensures
        r.is_some() == selected_texts(page@, selector@).is_some(),
        r matches Some(texts) ==> selected_texts(page@, selector@) == Some(texts.deep_view()),
{
    let selector = scraper::Selector::parse(selector).ok()?;
    let document = scraper::Html::parse_document(page);
    Some(document.select(&selector).map(|cell| cell.text().collect()).collect())
}

/// The table rows of the HTML document `page`, in the order in which
/// `scraper` yields them: the
/// elements that `rows` matches, of each the elements within it that `cells`
/// matches, and of each cell its flattened text and the elements within it
/// that `links` matches, each with the value of its attribute `attr` and its
/// flattened text. `None` where one of the three is no selector.
pub uninterp spec fn selected_rows(
    page: Seq<char>,
    rows: Seq<char>,
    cells: Seq<char>,
    links: Seq<char>,
    attr: Seq<char>,
) -> Option<Seq<Seq<CellView>>>;

/// Parses `page` with `scraper::Html::parse_document` and walks it with
/// `Html::select` and `ElementRef::select`; texts are `ElementRef::text`
/// collected, the attribute is `ElementRef::attr`. `None` where
/// `scraper::Selector::parse` rejects one of the selectors. A longer page
/// than [`MAX_PAGE_CHARS`] is left out, as for [`select_texts`]. Only the
/// library's own selectors and attribute are trusted.
#[verifier::external_body]
pub(crate) fn select_rows(page: &str, rows: &str, cells: &str, links: &str, attr: &str) -> (r:
    Option<Vec<Vec<Cell>>>)
    requires
        page@.len() <= MAX_PAGE_CHARS,
        rows@ == ROW_SELECTOR@,
        cells@ == CELL_SELECTOR@,
        links@ == LINK_SELECTOR@,
        attr@ == LINK_ATTRIBUTE@,
    ensures
        r.is_some() == selected_rows(page@, rows@, cells@, links@, attr@).is_some(),
        r matches Some(table) ==> selected_rows(page@, rows@, cells@, links@, attr@) == Some(
            table.deep_view(),
        ),
{
    let rows = scraper::Selector::parse(rows).ok()?;
    let cells = scraper::Selector::parse(cells).ok()?;
    let links = scraper::Selector::parse(links).ok()?;
    let document = scraper::Html::parse_document(page);
    let link = |a: scraper::ElementRef| Link {
        href: a.attr(attr).map(|v| v.to_string()),
        text: a.text().collect(),
    };
    let cell = |c: scraper::ElementRef| Cell {
        text: c.text().collect(),
        links: c.select(&links).map(&link).collect(),
    };
    Some(document.select(&rows).map(|row| row.select(&cells).map(cell).collect()).collect())
}

/// What `Url::join` makes of `path` against the base URL `base`, as text;
/// `None` where `base` is no URL or the two do not join.
pub uninterp spec fn joined_url(base: Seq<char>, path: Seq<char>) -> Option<Seq<char>>;

/// Parses `base` with `reqwest::Url::parse`, resolves `path` against it with
/// `Url::join`, and hands out `Url::as_str` of the result. `None` where
/// either of the two reports an error. Only the archive's address is
/// trusted as the base.
#[verifier::external_body]
pub(crate) fn join_url(base: &str, path: &str) -> (r: Option<String>)
    requires
        base@ == BASE_URL@,
    ensures
        r.is_some() == joined_url(base@, path@).is_some(),
        r matches Some(url) ==> joined_url(base@, path@) == Some(url@),
{
    let base = reqwest::Url::parse(base).ok()?;
    let url = base.join(path).ok()?;
    Some(url.as_str().to_string())
}

} // verus!
