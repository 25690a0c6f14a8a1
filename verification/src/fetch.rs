//! The account fetcher's computing half: decoding a catalog response,
//! detecting the login-failure marker, locating the loan table, and
//! parsing its rows.  The one outbound HTTP request happens outside this
//! crate; this module takes the raw response bytes and hands back the
//! parsed outcome, through trusted declarations of the HTML helpers.

use vstd::prelude::*;

use crate::errors::{FetchError, FetchErrorView, RowErrorView};
use crate::rows::{extract_row_map_spec, pairs_match, IopacRow, RowView};
use crate::text::{chars_eq, chars_of, trim_chars, trimmed};

verus! {

/// ISO 8859-1 decoding: each byte becomes the character with that code
/// point.
pub open spec fn latin1_decoded(bytes: Seq<u8>) -> Seq<char> {
    Seq::new(bytes.len(), |i: int| bytes[i] as char)
}

/// Relies on `encoding`'s `ISO_8859_1.decode`: the algorithmic Latin-1
/// mapping turns every byte into the character with the same code point
/// and never fails, so the ignore-trap is never consulted.
#[verifier::external_body]
fn decode_latin1(bytes: &Vec<u8>) -> (r: String)
    ensures
        r@ == latin1_decoded(bytes@),
{
    encoding::Encoding::decode(encoding::all::ISO_8859_1, bytes, encoding::DecoderTrap::Ignore)
        .unwrap()
}

/// The text nodes of an HTML document, in document order, as scraper's
/// parser sees them.
pub uninterp spec fn text_nodes_of(doc: Seq<char>) -> Seq<Seq<char>>;

/// Relies on `scraper::Html::parse_document` and `ElementRef::text`: the
/// parse is a function of the document text alone, and `text` yields the
/// document's text nodes in order.
#[verifier::external_body]
fn html_text_nodes(doc: &str) -> (r: Vec<String>)
    ensures
        r.deep_view() == text_nodes_of(doc@),
{
    let html = scraper::Html::parse_document(doc);
    html.root_element().text().map(|t| t.to_string()).collect()
}

/// The outer HTML of the first element of class `SEARCH_LESER`, if the
/// document has one: the container of the loan table.
pub uninterp spec fn loan_section_of(doc: Seq<char>) -> Option<Seq<char>>;

/// Relies on `scraper::Html::parse_document`, `Selector::parse` (the
/// fixed class selector always parses) and `ElementRef::html`: all
/// functions of the document text alone.
#[verifier::external_body]
fn loan_section_html(doc: &str) -> (r: Option<String>)
    ensures
        r.deep_view() == loan_section_of(doc@),
{
    let html = scraper::Html::parse_document(doc);
    let selector = scraper::Selector::parse(".SEARCH_LESER").unwrap();
    html.select(&selector).next().map(|e| e.html())
}

/// The rows of the first table of an HTML fragment, each as the mapping
/// from column header text to that row's cell text, or `None` where the
/// fragment holds no table.
pub uninterp spec fn table_rows_of(fragment: Seq<char>) -> Option<Seq<Map<Seq<char>, Seq<char>>>>;

/// Relies on `table_extract::Table::find_first`, `Table::headers`,
/// `Table::iter` and `Row::as_slice`: the table's content is a function
/// of the fragment alone.  Each row is handed out as (header, cell)
/// pairs; a header whose column index lies beyond the row's cells gets no
/// pair, exactly as `Row::get` answers `None` there.  Only the order of
/// the pairs within a row follows the header map's iteration order, which
/// is why each row is stated as a `Map` and not as a sequence.
#[verifier::external_body]
fn table_rows(fragment: &str) -> (r: Option<Vec<Vec<(String, String)>>>)
    ensures
        r is Some <==> table_rows_of(fragment@) is Some,
        r matches Some(rows) ==> {
            let maps = table_rows_of(fragment@)->Some_0;
            &&& rows.deep_view().len() == maps.len()
            &&& forall|k: int|
                0 <= k < maps.len() ==> pairs_match(
                    #[trigger] rows.deep_view()[k],
                    maps[k],
                )
        },
{
    let table = match table_extract::Table::find_first(fragment) {
        Some(t) => t,
        None => return None,
    };
    let mut rows: Vec<Vec<(String, String)>> = Vec::new();
    for row in &table {
        let mut cells: Vec<(String, String)> = Vec::new();
        for (header, idx) in table.headers() {
            if let Some(cell) = row.as_slice().get(*idx) {
                cells.push((header.clone(), cell.clone()));
            }
        }
        rows.push(cells);
    }
    Some(rows)
}

/// The exact text the catalog shows, as its own text node, when a login
/// attempt is rejected.
pub open spec fn login_failure_marker() -> Seq<char> {
    "Login fehlgeschlagen"@
}

/// Whether any text node, once trimmed, equals the login-failure marker.
pub open spec fn auth_failed_in(nodes: Seq<Seq<char>>) -> bool {
    exists|i: int| 0 <= i < nodes.len() && trimmed(#[trigger] nodes[i]) == login_failure_marker()
}

fn detect_auth_failure(nodes: &Vec<String>) -> (r: bool)
    ensures
        r == auth_failed_in(nodes.deep_view()),
{
    let ghost nv = nodes.deep_view();
    let marker = chars_of("Login fehlgeschlagen");
    let n = nodes.len();
    let mut i: usize = 0;
    while i < n
        invariant
            nv == nodes.deep_view(),
            marker@ == login_failure_marker(),
            n == nv.len(),
            n == nodes@.len(),
            0 <= i <= n,
            forall|j: int| 0 <= j < i ==> trimmed(#[trigger] nv[j]) != login_failure_marker(),
        decreases n - i,
    {
        proof {
            assert(nv[i as int] == nodes@[i as int]@);
        }
        let node_chars = chars_of(nodes[i].as_str());
        let node_trimmed = trim_chars(&node_chars);
        if chars_eq(&node_trimmed, &marker) {
            proof {
                assert(trimmed(nv[i as int]) == login_failure_marker());
            }
            return true;
        }
        i = i + 1;
    }
    false
}

/// The position of the first row whose extraction fails, scanning from
/// `i`, or -1 if every row extracts.
pub open spec fn first_bad_row_from(maps: Seq<Map<Seq<char>, Seq<char>>>, i: int) -> int
    decreases maps.len() - i,
{
    if i < 0 || i >= maps.len() {
        -1
    } else if extract_row_map_spec(maps[i]) is Err {
        i
    } else {
        first_bad_row_from(maps, i + 1)
    }
}

/// What the fetcher yields for a decoded response page.
pub open spec fn fetch_outcome_spec(page: Seq<char>, customer_id: Seq<char>) -> Result<
    Option<Seq<RowView>>,
    FetchErrorView,
> {
    if auth_failed_in(text_nodes_of(page)) {
        Result::Err(FetchErrorView::AuthFailed(customer_id))
    } else {
        match loan_section_of(page) {
            Option::None => Result::Ok(Option::None),
            Option::Some(section) => match table_rows_of(section) {
                Option::None => Result::Ok(Option::None),
                Option::Some(maps) => {
                    let bad = first_bad_row_from(maps, 0);
                    if bad >= 0 {
                        Result::Err(
                            FetchErrorView::ParseError(extract_row_map_spec(maps[bad])->Err_0),
                        )
                    } else {
                        Result::Ok(
                            Option::Some(
                                maps.map_values(
                                    |m: Map<Seq<char>, Seq<char>>| extract_row_map_spec(m)->Ok_0,
                                ),
                            ),
                        )
                    }
                },
            },
        }
    }
}

/// The view of a fetch result.
pub open spec fn fetch_result_view(r: Result<Option<Vec<IopacRow>>, FetchError>) -> Result<
    Option<Seq<RowView>>,
    FetchErrorView,
> {
    match r {
        Result::Ok(Option::Some(rows)) => Result::Ok(Option::Some(rows.deep_view())),
        Result::Ok(Option::None) => Result::Ok(Option::None),
        Result::Err(e) => Result::Err(e@),
    }
}

/// Parses one fetched catalog page: decodes the Latin-1 body, fails for
/// the account when the page carries the login-failure marker, treats a
/// missing loan section or table as "no loans", and otherwise extracts
/// every row, propagating the first row failure.
pub fn process_response(body: &Vec<u8>, customer_id: &str) -> (r: Result<
    Option<Vec<IopacRow>>,
    FetchError,
>)
    ensures
        fetch_result_view(r) == fetch_outcome_spec(latin1_decoded(body@), customer_id@),
        r matches Ok(Some(rows)) ==> forall|j: int|
            0 <= j < rows.deep_view().len() ==> (#[trigger] rows.deep_view()[j]).return_on.wf(),
{
    let ghost page = latin1_decoded(body@);
    let text = decode_latin1(body);
    let nodes = html_text_nodes(text.as_str());
    if detect_auth_failure(&nodes) {
        return Err(FetchError::AuthFailed(customer_id.to_owned()));
    }
    let section = match loan_section_html(text.as_str()) {
        Some(s) => s,
        None => {
            return Ok(None);
        },
    };
    let row_tables = match table_rows(section.as_str()) {
        Some(t) => t,
        None => {
            return Ok(None);
        },
    };
    let ghost maps = table_rows_of(section@)->Some_0;
    let ghost extract = |m: Map<Seq<char>, Seq<char>>| extract_row_map_spec(m)->Ok_0;
    let n = row_tables.len();
    let mut rows: Vec<IopacRow> = Vec::new();
    let mut i: usize = 0;
    while i < n
        invariant
            page == latin1_decoded(body@),
            !auth_failed_in(text_nodes_of(page)),
            loan_section_of(page) == Option::Some(section@),
            table_rows_of(section@) is Some,
            maps == table_rows_of(section@)->Some_0,
            extract == (|m: Map<Seq<char>, Seq<char>>| extract_row_map_spec(m)->Ok_0),
            n == row_tables@.len(),
            n == row_tables.deep_view().len(),
            n == maps.len(),
            forall|k: int|
                0 <= k < maps.len() ==> pairs_match(
                    #[trigger] row_tables.deep_view()[k],
                    maps[k],
                ),
            0 <= i <= n,
            first_bad_row_from(maps, 0) == first_bad_row_from(maps, i as int),
            rows.deep_view() == maps.take(i as int).map_values(extract),
            forall|j: int|
                0 <= j < i ==> extract_row_map_spec(maps[j]) is Ok,
            forall|j: int|
                0 <= j < rows.deep_view().len() ==> (#[trigger] rows.deep_view()[j]).return_on.wf(),
        decreases n - i,
    {
        proof {
            assert(row_tables.deep_view()[i as int] == row_tables@[i as int].deep_view());
        }
        let ghost pre_deep = rows.deep_view();
        match IopacRow::try_from(&row_tables[i]) {
            Ok(row) => {
                proof {
                    crate::rows::lemma_lookup_of_pairs(
                        row_tables.deep_view()[i as int],
                        maps[i as int],
                    );
                    assert(extract_row_map_spec(maps[i as int]) == Result::<
                        RowView,
                        RowErrorView,
                    >::Ok(row@));
                }
                rows.push(row);
                proof {
                    assert(rows.deep_view() =~= pre_deep.push(row@));
                    assert(maps.take(i + 1 as int).drop_last() =~= maps.take(i as int));
                    assert(maps.take(i + 1 as int).map_values(extract) =~= maps.take(
                        i as int,
                    ).map_values(extract).push(extract(maps[i as int])));
                    assert(rows.deep_view() =~= maps.take(i + 1 as int).map_values(extract));
                }
            },
            Err(e) => {
                proof {
                    crate::rows::lemma_lookup_of_pairs(
                        row_tables.deep_view()[i as int],
                        maps[i as int],
                    );
                    assert(extract_row_map_spec(maps[i as int]) == Result::<
                        RowView,
                        RowErrorView,
                    >::Err(e@));
                    assert(first_bad_row_from(maps, i as int) == i);
                }
                return Err(FetchError::ParseError(e));
            },
        }
        i = i + 1;
    }
    proof {
        assert(first_bad_row_from(maps, n as int) == -1);
        assert(maps.take(n as int) =~= maps);
    }
    Ok(Some(rows))
}

} // verus!
