//! The listing page of a spec number: where it is found, which of its
//! columns hold the file name and the date, and which of its rows match.

use vstd::prelude::*;
use vstd::string::StrSliceExecFns;
use crate::date_filter::DateFilter;
use crate::outside::{
    join_url, joined_url, parse_timestamp, parsed_timestamp, select_rows, select_texts,
    selected_rows, selected_texts,
};
use crate::spec_number::SpecNumber;
use crate::text::{chars_of, mentions, mentions_word, starts_with, trim_range, trimmed};
use crate::version::{filename_version, parse_version, Version};

verus! {

/// The archive that every listing page lies under.
pub const BASE_URL: &'static str = "https://www.3gpp.org/ftp/Specs/archive/";

/// The form of the date column: year, month and day, then hour and minute,
/// the hour without a leading zero.
pub const DATE_FORMAT: &'static str = "%Y/%m/%d %-H:%M";

/// The header cells of a listing page.
pub const HEADER_SELECTOR: &'static str = "thead > tr > th";

/// The rows of a listing page.
pub const ROW_SELECTOR: &'static str = "tbody > tr";

/// The cells of a row.
pub const CELL_SELECTOR: &'static str = "td";

/// The links of a cell.
pub const LINK_SELECTOR: &'static str = "a[href]";

/// The attribute of a link that holds its target.
pub const LINK_ATTRIBUTE: &'static str = "href";

/// The longest page, in characters, that is read. A character takes at most
/// four bytes, so no text of such a page takes more than 2^31 bytes.
pub const MAX_PAGE_CHARS: usize = 0x1FFF_FFFF;

/// Why no listing could be had.
#[derive(Debug, Clone, PartialEq, Eq)]
pub enum ListError {
    /// The page has no header cell that mentions the name, or none that mentions the date.
    HeaderNotFound,
    /// The page has more than [`MAX_PAGE_CHARS`] characters.
    PageTooLong,
    /// A selector of the library was not accepted.
    InvalidSelector,
    /// The archive's address and the spec number's path do not make a URL.
    InvalidUrl,
    /// The URL made for the spec number does not lie under the archive; `url` is that URL.
    SecurityCheckFailed { url: String },
}

/// A date and a time to the minute, in UTC.
#[derive(Debug, Clone, Copy, PartialEq, Eq, Structural)]
pub struct Timestamp {
    pub year: i32,
    pub month: u32,
    pub day: u32,
    pub hour: u32,
    pub minute: u32,
}

impl Timestamp {
    /// Every field is in the range that the calendar and the clock give it.
    pub open spec fn well_formed(&self) -> bool {
        &&& 1 <= self.month <= 12
        &&& 1 <= self.day <= 31
        &&& self.hour <= 23
        &&& self.minute <= 59
    }
}

/// A link in a cell: its target, where it has one, and its text.
#[derive(Debug, Clone, PartialEq, Eq)]
pub struct Link {
    pub href: Option<String>,
    pub text: String,
}

/// A cell of a row: its text, and the links in it.
#[derive(Debug, Clone, PartialEq, Eq)]
pub struct Cell {
    pub text: String,
    pub links: Vec<Link>,
}

/// A row of the listing that matched.
#[derive(Debug, Clone, PartialEq, Eq)]
pub struct SpecItem {
    pub version: Version,
    pub date: Timestamp,
    pub url: String,
}

/// What a [`Link`] holds.
pub struct LinkView {
    pub href: Option<Seq<char>>,
    pub text: Seq<char>,
}

/// What a [`Cell`] holds.
pub struct CellView {
    pub text: Seq<char>,
    pub links: Seq<LinkView>,
}

/// What a [`SpecItem`] holds.
pub struct SpecItemView {
    pub version: Version,
    pub date: Timestamp,
    pub url: Seq<char>,
}

impl DeepView for Link {
    type V = LinkView;

    open spec fn deep_view(&self) -> LinkView {
        LinkView {
            href: match self.href {
                Some(h) => Some(h@),
                None => None,
            },
            text: self.text@,
        }
    }
}

impl DeepView for Cell {
    type V = CellView;

    open spec fn deep_view(&self) -> CellView {
        CellView { text: self.text@, links: self.links.deep_view() }
    }
}

impl DeepView for SpecItem {
    type V = SpecItemView;

    open spec fn deep_view(&self) -> SpecItemView {
        SpecItemView { version: self.version, date: self.date, url: self.url@ }
    }
}

/// The word that marks the name column.
pub open spec fn name_word() -> Seq<char> {
    seq!['n', 'a', 'm', 'e']
}

/// The word that marks the date column.
pub open spec fn date_word() -> Seq<char> {
    seq!['d', 'a', 't', 'e']
}

/// The index of the first of `cells` that mentions `word`.
pub open spec fn first_mention(cells: Seq<Seq<char>>, word: Seq<char>) -> Option<int>
    decreases cells.len(),
{
    if cells.len() == 0 {
        None
    } else if first_mention(cells.drop_last(), word).is_some() {
        first_mention(cells.drop_last(), word)
    } else if mentions(cells.last(), word) {
        Some(cells.len() - 1)
    } else {
        None
    }
}

/// The name column and the date column of a header, where it has both.
pub open spec fn header_columns(cells: Seq<Seq<char>>) -> Option<(int, int)> {
    match (first_mention(cells, name_word()), first_mention(cells, date_word())) {
        (Some(n), Some(d)) => Some((n, d)),
        _ => None,
    }
}

/// `first_mention` gives the least index of a cell that mentions the word,
/// and `None` only where no cell does.
pub proof fn lemma_first_mention(cells: Seq<Seq<char>>, word: Seq<char>)
    ensures
        match first_mention(cells, word) {
            Some(k) => 0 <= k < cells.len() && mentions(cells[k], word) && forall|j: int|
                0 <= j < k ==> !mentions(#[trigger] cells[j], word),
            None => forall|j: int| 0 <= j < cells.len() ==> !mentions(#[trigger] cells[j], word),
        },
    decreases cells.len(),
{
    if cells.len() > 0 {
        let front = cells.drop_last();
        lemma_first_mention(front, word);
        assert(forall|j: int| 0 <= j < front.len() ==> front[j] == cells[j]);
        match first_mention(front, word) {
            Some(k) => {
                assert(front[k] == cells[k]);
            },
            None => {
                assert forall|j: int| 0 <= j < cells.len() - 1 implies !mentions(
                    #[trigger] cells[j],
                    word,
                ) by {
                    assert(front[j] == cells[j]);
                }
            },
        }
    }
}

/// The index `found` is the index `index`, or both are absent.
pub open spec fn same_index(found: Option<usize>, index: Option<int>) -> bool {
    match index {
        Some(k) => found == Some(k as usize) && 0 <= k <= usize::MAX,
        None => found.is_none(),
    }
}

/// The columns that hold the file name and the date: of the header cells,
/// whose texts are `cells`, the first that mentions `name` and the first that
/// mentions `date`, in any case of the letters. Without both there is no
/// header.
pub fn find_header_indexes(cells: &Vec<String>) -> (r: Result<(usize, usize), ListError>)
    ensures
        match header_columns(cells.deep_view()) {
            Some((n, d)) => r == Ok::<(usize, usize), ListError>((n as usize, d as usize)) && 0
                <= n < cells.len() && 0 <= d < cells.len(),
            None => r == Err::<(usize, usize), ListError>(ListError::HeaderNotFound),
        },
{
    let name_chars: Vec<char> = vec!['n', 'a', 'm', 'e'];
    let date_chars: Vec<char> = vec!['d', 'a', 't', 'e'];
    assert(name_chars@ =~= name_word());
    assert(date_chars@ =~= date_word());
    let ghost texts = cells.deep_view();
    let mut name: Option<usize> = None;
    let mut date: Option<usize> = None;
    let mut i: usize = 0;
    assert(texts.take(0) =~= Seq::<Seq<char>>::empty());
    while i < cells.len()
        invariant
            i <= cells.len(),
            texts == cells.deep_view(),
            name_chars@ == name_word(),
            date_chars@ == date_word(),
            same_index(name, first_mention(texts.take(i as int), name_word())),
            same_index(date, first_mention(texts.take(i as int), date_word())),
        decreases cells.len() - i,
    {
        let chars = chars_of(cells[i].as_str());
        proof {
            assert(texts.take(i + 1).drop_last() =~= texts.take(i as int));
            assert(texts.take(i + 1).last() == chars@);
        }
        if name.is_none() && mentions_word(&chars, &name_chars) {
            name = Some(i);
        }
        if date.is_none() && mentions_word(&chars, &date_chars) {
            date = Some(i);
        }
        i += 1;
    }
    assert(texts.take(i as int) =~= texts);
    proof {
        lemma_first_mention(texts, name_word());
        lemma_first_mention(texts, date_word());
    }
    match (name, date) {
        (Some(n), Some(d)) => Ok((n, d)),
        _ => Err(ListError::HeaderNotFound),
    }
}

/// The target of a link; the empty text where the link names none.
pub open spec fn link_target(link: LinkView) -> Seq<char> {
    match link.href {
        Some(h) => h,
        None => Seq::empty(),
    }
}

/// A version and a date pass the filters: the major number is the release
/// asked for, and the date lies in the year and month asked for. A filter
/// that is absent lets everything pass.
pub open spec fn retained(
    version: Version,
    date: Timestamp,
    release: Option<u32>,
    filter: Option<DateFilter>,
) -> bool {
    &&& release matches Some(r) ==> version.major == r
    &&& filter matches Some(f) ==> date.year as int == f.year as int && date.month as int
        == f.month.ordinal()
}

/// The item that a row's link and date make: the version that the link's
/// text encodes, the date, and the link's target, where there is a date and a
/// version and both pass the filters.
pub open spec fn link_item(
    link: LinkView,
    date: Option<Timestamp>,
    release: Option<u32>,
    filter: Option<DateFilter>,
) -> Option<SpecItemView> {
    match (date, filename_version(link.text)) {
        (Some(d), Some(v)) => if retained(v, d, release, filter) {
            Some(SpecItemView { version: v, date: d, url: link_target(link) })
        } else {
            None
        },
        _ => None,
    }
}

/// The link that counts in a cell: the first, where the cell has any.
pub open spec fn first_link(cell: CellView) -> Option<LinkView> {
    if cell.links.len() > 0 {
        Some(cell.links[0])
    } else {
        None
    }
}

/// The item that a row makes: none where the row is too short for the two
/// columns or its name cell has no link; else that of the cell's first link
/// and of the date that the trimmed text of the date cell gives.
pub open spec fn row_item(
    row: Seq<CellView>,
    name: int,
    date: int,
    release: Option<u32>,
    filter: Option<DateFilter>,
) -> Option<SpecItemView> {
    if 0 <= name < row.len() && 0 <= date < row.len() {
        match first_link(row[name]) {
            Some(link) => link_item(
                link,
                parsed_timestamp(trimmed(row[date].text), DATE_FORMAT@),
                release,
                filter,
            ),
            None => None,
        }
    } else {
        None
    }
}

/// The items of the rows that make one, in the order of the rows.
pub open spec fn selected(
    rows: Seq<Seq<CellView>>,
    name: int,
    date: int,
    release: Option<u32>,
    filter: Option<DateFilter>,
) -> Seq<SpecItemView>
    decreases rows.len(),
{
    if rows.len() == 0 {
        Seq::empty()
    } else {
        let front = selected(rows.drop_last(), name, date, release, filter);
        match row_item(rows.last(), name, date, release, filter) {
            Some(item) => front.push(item),
            None => front,
        }
    }
}

/// Selecting goes row by row and keeps the order: the items of two runs of
/// rows, one behind the other, are the items of the first followed by the
/// items of the second.
pub proof fn lemma_selected_in_order(
    front: Seq<Seq<CellView>>,
    back: Seq<Seq<CellView>>,
    name: int,
    date: int,
    release: Option<u32>,
    filter: Option<DateFilter>,
)
    ensures
        selected(front + back, name, date, release, filter) == selected(
            front,
            name,
            date,
            release,
            filter,
        ) + selected(back, name, date, release, filter),
    decreases back.len(),
{
    let all = front + back;
    if back.len() == 0 {
        assert(all =~= front);
        assert(selected(front, name, date, release, filter) + Seq::<SpecItemView>::empty()
            =~= selected(front, name, date, release, filter));
    } else {
        lemma_selected_in_order(front, back.drop_last(), name, date, release, filter);
        assert(all.drop_last() =~= front + back.drop_last());
        assert(all.last() == back.last());
        let a = selected(front, name, date, release, filter);
        let b = selected(back.drop_last(), name, date, release, filter);
        match row_item(back.last(), name, date, release, filter) {
            Some(item) => {
                assert((a + b).push(item) =~= a + b.push(item));
            },
            None => {},
        }
    }
}

/// A page with one row has that row's item, or none where the row makes none.
pub proof fn lemma_selected_of_one_row(
    row: Seq<CellView>,
    name: int,
    date: int,
    release: Option<u32>,
    filter: Option<DateFilter>,
)
    ensures
        selected(seq![row], name, date, release, filter) == match row_item(
            row,
            name,
            date,
            release,
            filter,
        ) {
            Some(item) => seq![item],
            None => Seq::<SpecItemView>::empty(),
        },
{
    let rows = seq![row];
    assert(rows.drop_last() =~= Seq::<Seq<CellView>>::empty());
    assert(rows.last() == row);
    let front = selected(rows.drop_last(), name, date, release, filter);
    assert(front =~= Seq::<SpecItemView>::empty());
    match row_item(row, name, date, release, filter) {
        Some(item) => {
            assert(front.push(item) =~= seq![item]);
        },
        None => {},
    }
}

/// `item` holds what `view` says, or both are absent.
pub open spec fn same_item(item: Option<SpecItem>, view: Option<SpecItemView>) -> bool {
    match view {
        Some(v) => item matches Some(i) && i.deep_view() == v,
        None => item.is_none(),
    }
}

/// Whether a version and a date pass the filters.
pub fn retains(
    version: &Version,
    date: &Timestamp,
    release: Option<u32>,
    filter: Option<DateFilter>,
) -> (r: bool)
    ensures
        r == retained(*version, *date, release, filter),
{
    let release_ok = match release {
        Some(r) => version.major == r,
        None => true,
    };
    let date_ok = match filter {
        Some(f) => date.year >= 0 && date.year as u32 == f.year && date.month
            == f.month.number() as u32,
        None => true,
    };
    release_ok && date_ok
}

/// The item that a row's link makes with the date read from the row, which
/// is `None` where the row's date cell holds no date. No item where the date
/// is missing, the link's text encodes no version, or a filter rejects the
/// two.
pub fn link_to_item(
    link: &Link,
    date: Option<Timestamp>,
    release: Option<u32>,
    filter: Option<DateFilter>,
) -> (r: Option<SpecItem>)
    ensures
        same_item(r, link_item(link.deep_view(), date, release, filter)),
{
    let date = match date {
        Some(d) => d,
        None => { return None; },
    };
    let version = match parse_version(link.text.as_str()) {
        Some(v) => v,
        None => { return None; },
    };
    if !retains(&version, &date, release, filter) {
        return None;
    }
    let url = match &link.href {
        Some(h) => h.clone(),
        None => String::new(),
    };
    Some(SpecItem { version, date, url })
}

/// The item that a row makes, with the name in column `name` and the date in
/// column `date`; of the links in the name cell the first counts. A row
/// without these columns, without a link in its name cell, or whose date cell, trimmed, is no date in the form [`DATE_FORMAT`],
/// makes none.
pub fn select_row(
    row: &Vec<Cell>,
    name: usize,
    date: usize,
    release: Option<u32>,
    filter: Option<DateFilter>,
) -> (r: Option<SpecItem>)
    ensures
        same_item(r, row_item(row.deep_view(), name as int, date as int, release, filter)),
{
    if name >= row.len() || date >= row.len() {
        return None;
    }
    if row[name].links.len() == 0 {
        return None;
    }
    let link = &row[name].links[0];
    let text = row[date].text.as_str();
    let chars = chars_of(text);
    let (from, to) = trim_range(&chars);
    let parsed = parse_timestamp(text.substring_char(from, to), DATE_FORMAT);
    link_to_item(link, parsed, release, filter)
}

/// The items of the rows that make one, in the order of the rows.
pub fn select_items(
    rows: &Vec<Vec<Cell>>,
    name: usize,
    date: usize,
    release: Option<u32>,
    filter: Option<DateFilter>,
) -> (r: Vec<SpecItem>)
    ensures
        r.deep_view() == selected(rows.deep_view(), name as int, date as int, release, filter),
{
    let ghost table = rows.deep_view();
    let mut items: Vec<SpecItem> = Vec::new();
    let mut i: usize = 0;
    assert(table.take(0) =~= Seq::<Seq<CellView>>::empty());
    assert(items.deep_view() =~= Seq::<SpecItemView>::empty());
    while i < rows.len()
        invariant
            i <= rows.len(),
            table == rows.deep_view(),
            items.deep_view() == selected(
                table.take(i as int),
                name as int,
                date as int,
                release,
                filter,
            ),
        decreases rows.len() - i,
    {
        proof {
            assert(table.take(i + 1).drop_last() =~= table.take(i as int));
            assert(table.take(i + 1).last() == rows@[i as int].deep_view());
        }
        let ghost before = items.deep_view();
        match select_row(&rows[i], name, date, release, filter) {
            Some(item) => {
                items.push(item);
                assert(items.deep_view() =~= before.push(item.deep_view()));
            },
            None => {},
        }
        i += 1;
    }
    assert(table.take(i as int) =~= table);
    items
}

/// The items of a page with the header cells `header` and the rows `rows`.
pub open spec fn page_items(
    header: Seq<Seq<char>>,
    rows: Seq<Seq<CellView>>,
    release: Option<u32>,
    filter: Option<DateFilter>,
) -> Option<Seq<SpecItemView>> {
    match header_columns(header) {
        Some((n, d)) => Some(selected(rows, n, d, release, filter)),
        None => None,
    }
}

/// The matching rows of a listing, given the texts of its header cells and
/// its rows: the columns are located in the header, and every row that makes
/// an item gives it, in the order of the rows. A header without a name or a
/// date column is the only error.
pub fn list_page(
    header: &Vec<String>,
    rows: &Vec<Vec<Cell>>,
    release: Option<u32>,
    filter: Option<DateFilter>,
) -> (r: Result<Vec<SpecItem>, ListError>)
    ensures
        match page_items(header.deep_view(), rows.deep_view(), release, filter) {
            Some(items) => r matches Ok(found) && found.deep_view() == items,
            None => r == Err::<Vec<SpecItem>, ListError>(ListError::HeaderNotFound),
        },
{
    match find_header_indexes(header) {
        Ok((name, date)) => Ok(select_items(rows, name, date, release, filter)),
        Err(e) => Err(e),
    }
}

/// The texts of the header cells of the listing page `page`, an HTML
/// document, in the order in which the parser yields them. A page of more
/// than [`MAX_PAGE_CHARS`] characters is not read.
pub fn header_cells(page: &str) -> (r: Result<Vec<String>, ListError>)
    ensures
        page@.len() > MAX_PAGE_CHARS ==> r == Err::<Vec<String>, ListError>(
            ListError::PageTooLong,
        ),
        page@.len() <= MAX_PAGE_CHARS ==> match selected_texts(page@, HEADER_SELECTOR@) {
            Some(texts) => r matches Ok(cells) && cells.deep_view() == texts,
            None => r == Err::<Vec<String>, ListError>(ListError::InvalidSelector),
        },
{
    if page.unicode_len() > MAX_PAGE_CHARS {
        return Err(ListError::PageTooLong);
    }
    match select_texts(page, HEADER_SELECTOR) {
        Some(cells) => Ok(cells),
        None => Err(ListError::InvalidSelector),
    }
}

/// The rows of the body of the listing page `page`, an HTML document, each
/// with its cells, in the order in which the parser yields them. A page of
/// more than [`MAX_PAGE_CHARS`] characters is not read.
pub fn body_rows(page: &str) -> (r: Result<Vec<Vec<Cell>>, ListError>)
    ensures
        page@.len() > MAX_PAGE_CHARS ==> r == Err::<Vec<Vec<Cell>>, ListError>(
            ListError::PageTooLong,
        ),
        page@.len() <= MAX_PAGE_CHARS ==> match selected_rows(
            page@,
            ROW_SELECTOR@,
            CELL_SELECTOR@,
            LINK_SELECTOR@,
            LINK_ATTRIBUTE@,
        ) {
            Some(table) => r matches Ok(rows) && rows.deep_view() == table,
            None => r == Err::<Vec<Vec<Cell>>, ListError>(ListError::InvalidSelector),
        },
{
    if page.unicode_len() > MAX_PAGE_CHARS {
        return Err(ListError::PageTooLong);
    }
    match select_rows(page, ROW_SELECTOR, CELL_SELECTOR, LINK_SELECTOR, LINK_ATTRIBUTE) {
        Some(rows) => Ok(rows),
        None => Err(ListError::InvalidSelector),
    }
}

/// What a listing page gives: a page that is too long gives nothing; of
/// another its header cells and its rows are read with the library's
/// selectors, and the rest is [`page_items`].
pub open spec fn listing(page: Seq<char>, release: Option<u32>, filter: Option<DateFilter>) -> Result<
    Seq<SpecItemView>,
    ListError,
> {
    if page.len() > MAX_PAGE_CHARS {
        Err(ListError::PageTooLong)
    } else {
        listing_of_page(page, release, filter)
    }
}

/// What a listing page that is not too long gives.
pub open spec fn listing_of_page(
    page: Seq<char>,
    release: Option<u32>,
    filter: Option<DateFilter>,
) -> Result<Seq<SpecItemView>, ListError> {
    match selected_texts(page, HEADER_SELECTOR@) {
        None => Err(ListError::InvalidSelector),
        Some(header) => match header_columns(header) {
            None => Err(ListError::HeaderNotFound),
            Some((n, d)) => match selected_rows(
                page,
                ROW_SELECTOR@,
                CELL_SELECTOR@,
                LINK_SELECTOR@,
                LINK_ATTRIBUTE@,
            ) {
                None => Err(ListError::InvalidSelector),
                Some(rows) => Ok(selected(rows, n, d, release, filter)),
            },
        },
    }
}

/// The rows of the listing page `page`, an HTML document, that match: those
/// with a link in the name column whose text encodes a version, a date in
/// the date column, a major version equal to `release` where one is given,
/// and a date in the year and month of `filter` where one is given. They
/// come in the order of the rows as [`body_rows`] gives them. A page of more
/// than [`MAX_PAGE_CHARS`] characters is an error, and so is a header
/// without a name or a date column.
pub fn list(page: &str, release: Option<u32>, filter: Option<DateFilter>) -> (r: Result<
    Vec<SpecItem>,
    ListError,
>)
    ensures
        match listing(page@, release, filter) {
            Ok(items) => r matches Ok(found) && found.deep_view() == items,
            Err(e) => r == Err::<Vec<SpecItem>, ListError>(e),
        },
{
    let header = match header_cells(page) {
        Ok(h) => h,
        Err(e) => { return Err(e); },
    };
    let (name, date) = match find_header_indexes(&header) {
        Ok(columns) => columns,
        Err(e) => { return Err(e); },
    };
    let rows = match body_rows(page) {
        Ok(rows) => rows,
        Err(e) => { return Err(e); },
    };
    Ok(select_items(&rows, name, date, release, filter))
}

/// The path of a spec number's listing below the archive.
pub open spec fn listing_path_of(series: Seq<char>, number: Seq<char>) -> Seq<char> {
    series + "_series/"@ + series + seq!['.'] + number
}

/// The path of the listing of `spec` below the archive: the series, the
/// word `_series`, a slash, and the spec number in its dotted form.
pub fn listing_path(spec: &SpecNumber) -> (r: String)
    ensures
        r@ == listing_path_of(spec.series@, spec.number@),
{
    let mut path = spec.series.clone();
    path.push_str("_series/");
    path.push_str(spec.to_string().as_str());
    assert(path@ =~= listing_path_of(spec.series@, spec.number@));
    path
}

/// Accepts a joined URL that lies under the archive. `joined` is what
/// joining the archive's address and a listing path gave, `None` where they
/// did not join.
pub fn check_listing_url(joined: Option<String>) -> (r: Result<String, ListError>)
    ensures
        match joined {
            None => r == Err::<String, ListError>(ListError::InvalidUrl),
            Some(u) => if BASE_URL@.is_prefix_of(u@) {
                r matches Ok(url) && url@ == u@
            } else {
                r matches Err(ListError::SecurityCheckFailed { url }) && url@ == u@
            },
        },
{
    match joined {
        None => Err(ListError::InvalidUrl),
        Some(url) => {
            let chars = chars_of(url.as_str());
            let base = chars_of(BASE_URL);
            if starts_with(&chars, &base) {
                Ok(url)
            } else {
                Err(ListError::SecurityCheckFailed { url })
            }
        },
    }
}

/// The URL of the listing page of `spec`: the archive's address joined with
/// the listing path. A result that does not start with the archive's address
/// is refused.
pub fn listing_url(spec: &SpecNumber) -> (r: Result<String, ListError>)
    ensures
        match joined_url(BASE_URL@, listing_path_of(spec.series@, spec.number@)) {
            None => r == Err::<String, ListError>(ListError::InvalidUrl),
            Some(u) => if BASE_URL@.is_prefix_of(u) {
                r matches Ok(url) && url@ == u
            } else {
                r matches Err(ListError::SecurityCheckFailed { url }) && url@ == u
            },
        },
{
    let path = listing_path(spec);
    check_listing_url(join_url(BASE_URL, path.as_str()))
}

} // verus!
