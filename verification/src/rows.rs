//! The row extractor: turns one parsed HTML table row — a list of
//! (column header, cell text) pairs — into a structured loan record, or
//! fails with the exact error the row deserves.

use vstd::prelude::*;

use crate::dates::{extract_date, extracted_date, Date};
use crate::errors::{RowError, RowErrorView};
use crate::text::{chars_of, contains_chars, has_substring};
use vstd::string::StringExecFns;

verus! {

/// One loan-table row, before it is tagged with its owning account.
#[derive(Debug, Clone)]
pub struct IopacRow {
    pub title: String,
    pub media_type: String,
    pub return_on: Date,
    pub reserved: bool,
}

/// The spec-level face of `IopacRow`.
pub struct RowView {
    pub title: Seq<char>,
    pub media_type: Seq<char>,
    pub return_on: Date,
    pub reserved: bool,
}

impl View for IopacRow {
    type V = RowView;

    open spec fn view(&self) -> RowView {
        RowView {
            title: self.title@,
            media_type: self.media_type@,
            return_on: self.return_on,
            reserved: self.reserved,
        }
    }
}

impl DeepView for IopacRow {
    type V = RowView;

    open spec fn deep_view(&self) -> RowView {
        self.view()
    }
}

/// Header of the column holding an item's title.
pub open spec fn title_key() -> Seq<char> {
    "Titel&nbsp;"@
}

/// Header of the column holding an item's media type.
pub open spec fn media_type_key() -> Seq<char> {
    "Medientyp&nbsp;"@
}

/// Header of the column holding an item's return date.
pub open spec fn return_date_key() -> Seq<char> {
    "Rückgabe am&nbsp;"@
}

/// The abbreviation the catalog puts in the return-date cell of an item
/// that is reserved rather than due.
pub open spec fn reservation_marker() -> Seq<char> {
    "resev."@
}

/// The cell under the first header equal to `key`, scanning from `i`.
pub open spec fn lookup_from(
    cells: Seq<(Seq<char>, Seq<char>)>,
    key: Seq<char>,
    i: int,
) -> Option<Seq<char>>
    decreases cells.len() - i,
{
    if i < 0 || i >= cells.len() {
        None
    } else if cells[i].0 == key {
        Some(cells[i].1)
    } else {
        lookup_from(cells, key, i + 1)
    }
}

/// The cell under the first header equal to `key`, if any.
pub open spec fn lookup_cell(cells: Seq<(Seq<char>, Seq<char>)>, key: Seq<char>) -> Option<
    Seq<char>,
> {
    lookup_from(cells, key, 0)
}

fn lookup_exec(cells: &Vec<(String, String)>, key: &String) -> (r: Option<String>)
    ensures
        match r {
            Some(v) => lookup_cell(cells.deep_view(), key@) == Some(v@),
            None => lookup_cell(cells.deep_view(), key@) is None,
        },
{
    let ghost cv = cells.deep_view();
    let n = cells.len();
    let mut i: usize = 0;
    while i < n
        invariant
            cv == cells.deep_view(),
            n == cv.len(),
            n == cells@.len(),
            0 <= i <= n,
            lookup_from(cv, key@, 0) == lookup_from(cv, key@, i as int),
        decreases n - i,
    {
        assert(cv[i as int].0 == cells@[i as int].0@);
        if cells[i].0.eq(key) {
            return Some(cells[i].1.clone());
        }
        i = i + 1;
    }
    None
}

/// What the row extractor yields for one row: the record, or the first
/// failure in column order (title, media type, return date), with a
/// missing column reported ahead of an unreadable date.
pub open spec fn extract_row_spec(cells: Seq<(Seq<char>, Seq<char>)>) -> Result<
    RowView,
    RowErrorView,
> {
    match lookup_cell(cells, title_key()) {
        Option::None => Result::Err(RowErrorView::MissingColumn(title_key())),
        Option::Some(title) => match lookup_cell(cells, media_type_key()) {
            Option::None => Result::Err(RowErrorView::MissingColumn(media_type_key())),
            Option::Some(media_type) => match lookup_cell(cells, return_date_key()) {
                Option::None => Result::Err(RowErrorView::MissingColumn(return_date_key())),
                Option::Some(ret) => match extracted_date(ret) {
                    Option::None => Result::Err(RowErrorView::UnparsableDate),
                    Option::Some(d) => Result::Ok(
                        RowView {
                            title,
                            media_type,
                            return_on: d,
                            reserved: has_substring(ret, reservation_marker()),
                        },
                    ),
                },
            },
        },
    }
}

/// Whether a list of (header, cell) pairs carries exactly the mapping
/// `m`: no header twice, every pair in the mapping, every mapped header
/// among the pairs.  The pairs' order is left open.
pub open spec fn pairs_match(
    pairs: Seq<(Seq<char>, Seq<char>)>,
    m: Map<Seq<char>, Seq<char>>,
) -> bool {
    &&& forall|j: int, k: int|
        0 <= j < k < pairs.len() ==> (#[trigger] pairs[j]).0 != (#[trigger] pairs[k]).0
    &&& forall|j: int| 0 <= j < pairs.len() ==> m.contains_pair((#[trigger] pairs[j]).0, pairs[j].1)
    &&& forall|key: Seq<char>|
        #[trigger] m.dom().contains(key) ==> exists|j: int|
            0 <= j < pairs.len() && (#[trigger] pairs[j]).0 == key
}

/// What the row extractor yields for one row given as a header-to-cell
/// mapping; the same decision as `extract_row_spec`, stated over the
/// mapping.
pub open spec fn extract_row_map_spec(m: Map<Seq<char>, Seq<char>>) -> Result<
    RowView,
    RowErrorView,
> {
    if !m.dom().contains(title_key()) {
        Result::Err(RowErrorView::MissingColumn(title_key()))
    } else if !m.dom().contains(media_type_key()) {
        Result::Err(RowErrorView::MissingColumn(media_type_key()))
    } else if !m.dom().contains(return_date_key()) {
        Result::Err(RowErrorView::MissingColumn(return_date_key()))
    } else {
        let ret = m[return_date_key()];
        match extracted_date(ret) {
            Option::None => Result::Err(RowErrorView::UnparsableDate),
            Option::Some(d) => Result::Ok(
                RowView {
                    title: m[title_key()],
                    media_type: m[media_type_key()],
                    return_on: d,
                    reserved: has_substring(ret, reservation_marker()),
                },
            ),
        }
    }
}

proof fn lemma_lookup_from_map(
    pairs: Seq<(Seq<char>, Seq<char>)>,
    m: Map<Seq<char>, Seq<char>>,
    key: Seq<char>,
    i: int,
)
    requires
        pairs_match(pairs, m),
        0 <= i <= pairs.len(),
        forall|j: int| 0 <= j < i ==> (#[trigger] pairs[j]).0 != key,
    ensures
        lookup_from(pairs, key, i) == (if m.dom().contains(key) {
            Option::Some(m[key])
        } else {
            Option::<Seq<char>>::None
        }),
    decreases pairs.len() - i,
{
    if i >= pairs.len() {
        if m.dom().contains(key) {
            let j = choose|j: int| 0 <= j < pairs.len() && (#[trigger] pairs[j]).0 == key;
            assert(pairs[j].0 != key);
        }
    } else if pairs[i].0 == key {
        assert(m.contains_pair(pairs[i].0, pairs[i].1));
    } else {
        lemma_lookup_from_map(pairs, m, key, i + 1);
    }
}

/// A row's extraction depends only on the header-to-cell mapping its
/// pairs carry, not on the pairs' order.
pub proof fn lemma_lookup_of_pairs(pairs: Seq<(Seq<char>, Seq<char>)>, m: Map<Seq<char>, Seq<char>>)
    requires
        pairs_match(pairs, m),
    ensures
        extract_row_spec(pairs) == extract_row_map_spec(m),
{
    lemma_lookup_from_map(pairs, m, title_key(), 0);
    lemma_lookup_from_map(pairs, m, media_type_key(), 0);
    lemma_lookup_from_map(pairs, m, return_date_key(), 0);
}

/// The view of a row extraction result.
pub open spec fn row_result_view(r: Result<IopacRow, RowError>) -> Result<RowView, RowErrorView> {
    match r {
        Result::Ok(row) => Result::Ok(row@),
        Result::Err(e) => Result::Err(e@),
    }
}

impl IopacRow {
    /// Extracts one loan record from a row given as (header, cell) pairs.
    pub fn try_from(cells: &Vec<(String, String)>) -> (r: Result<IopacRow, RowError>)
        ensures
            row_result_view(r) == extract_row_spec(cells.deep_view()),
            r matches Ok(row) ==> row.return_on.wf(),
    {
        let title = match lookup_exec(cells, &String::from_str("Titel&nbsp;")) {
            Some(v) => v,
            None => {
                return Err(RowError::MissingColumn(String::from_str("Titel&nbsp;")));
            },
        };
        let media_type = match lookup_exec(cells, &String::from_str("Medientyp&nbsp;")) {
            Some(v) => v,
            None => {
                return Err(RowError::MissingColumn(String::from_str("Medientyp&nbsp;")));
            },
        };
        let ret = match lookup_exec(cells, &String::from_str("Rückgabe am&nbsp;")) {
            Some(v) => v,
            None => {
                return Err(RowError::MissingColumn(String::from_str("Rückgabe am&nbsp;")));
            },
        };
        let ret_chars = chars_of(ret.as_str());
        let return_on = match extract_date(&ret_chars) {
            Some(d) => d,
            None => {
                return Err(RowError::UnparsableDate);
            },
        };
        let marker_chars = chars_of("resev.");
        let reserved = contains_chars(&ret_chars, &marker_chars);
        let row = IopacRow { title, media_type, return_on, reserved };
        Ok(row)
    }
}

/// The row extractor is pure: its outcome is a function of the row's
/// cells alone, so re-parsing identical input yields a record equal in
/// all fields, or the identical error.
pub proof fn lemma_row_extraction_deterministic(
    cells: Seq<(Seq<char>, Seq<char>)>,
    r1: Result<RowView, RowErrorView>,
    r2: Result<RowView, RowErrorView>,
)
    requires
        r1 == extract_row_spec(cells),
        r2 == extract_row_spec(cells),
    ensures
        r1 == r2,
{
}

/// A row whose required columns are present but whose return-date cell
/// lacks a `DD.MM.YYYY`-shaped substring always fails with the
/// unparsable-date error and never a different kind.
pub proof fn lemma_shapeless_date_cell_unparsable(
    cells: Seq<(Seq<char>, Seq<char>)>,
    ret: Seq<char>,
)
    requires
        lookup_cell(cells, title_key()) is Some,
        lookup_cell(cells, media_type_key()) is Some,
        lookup_cell(cells, return_date_key()) == Some(ret),
        !crate::dates::has_date_shape(ret),
    ensures
        extract_row_spec(cells) == Result::<RowView, RowErrorView>::Err(RowErrorView::UnparsableDate),
{
    crate::dates::lemma_no_shape_no_date(ret);
}

/// The reservation flag is decided by the reservation marker alone:
/// whenever a record is extracted, the flag holds exactly when the
/// return-date cell contains the marker, whatever date the cell names.
pub proof fn lemma_reservation_independent_of_date(
    cells: Seq<(Seq<char>, Seq<char>)>,
    row: RowView,
)
    requires
        extract_row_spec(cells) == Result::<RowView, RowErrorView>::Ok(row),
    ensures
        row.reserved == has_substring(
            lookup_cell(cells, return_date_key())->Some_0,
            reservation_marker(),
        ),
{
}

/// One borrowed item: a loan record tagged with its owning account.
#[derive(Debug, Clone)]
pub struct IopacDatum {
    pub account: String,
    pub title: String,
    pub media_type: String,
    pub return_on: Date,
    pub reserved: bool,
}

/// The spec-level face of `IopacDatum`.
pub struct DatumView {
    pub account: Seq<char>,
    pub title: Seq<char>,
    pub media_type: Seq<char>,
    pub return_on: Date,
    pub reserved: bool,
}

impl View for IopacDatum {
    type V = DatumView;

    open spec fn view(&self) -> DatumView {
        DatumView {
            account: self.account@,
            title: self.title@,
            media_type: self.media_type@,
            return_on: self.return_on,
            reserved: self.reserved,
        }
    }
}

impl DeepView for IopacDatum {
    type V = DatumView;

    open spec fn deep_view(&self) -> DatumView {
        self.view()
    }
}

/// A row's record once tagged with the account that borrowed it.
pub open spec fn datum_of(account: Seq<char>, row: RowView) -> DatumView {
    DatumView {
        account,
        title: row.title,
        media_type: row.media_type,
        return_on: row.return_on,
        reserved: row.reserved,
    }
}

impl IopacDatum {
    /// Tags a parsed row with its owning account.
    pub fn from_row(account: String, row: IopacRow) -> (r: Self)
        ensures
            r@ == datum_of(account@, row@),
    {
        IopacDatum {
            account,
            title: row.title,
            media_type: row.media_type,
            return_on: row.return_on,
            reserved: row.reserved,
        }
    }
}

} // verus!
