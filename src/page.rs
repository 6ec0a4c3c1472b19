use vstd::prelude::*;
use crate::cells::{cell_text, normalize_cell};
use crate::curve::{parse_table, table_curve, SurvivorCurve};
use crate::error::PageError;

verus! {

/// What the HTML parser finds in a document: for each table in document
/// order, for each of its rows, the joined text of each data cell.
pub uninterp spec fn html_tables(body: Seq<char>) -> Seq<Seq<Seq<Seq<char>>>>;

/// Relies on scraper's `Html::parse_document`, `ElementRef::select` and
/// `ElementRef::text`: the `table` elements of the document in order, the
/// `tr` elements within each, the `td` elements within each row, and the text
/// nodes of each cell joined; a function of the document text alone.
#[verifier::external_body]
fn html_table_texts(body: &str) -> (r: Vec<Vec<Vec<String>>>)
    ensures
        r.deep_view() == html_tables(body@),
{
    let document = scraper::Html::parse_document(body);
    let table = scraper::Selector::parse("table").unwrap();
    let tr = scraper::Selector::parse("tr").unwrap();
    let td = scraper::Selector::parse("td").unwrap();
    document.select(&table).map(|t| {
        t.select(&tr).map(|row| row.select(&td).map(|cell| cell.text().collect::<String>()).collect()).collect()
    }).collect()
}

/// Every cell text of a row normalized.
pub open spec fn normalized_row(row: Seq<Seq<char>>) -> Seq<Seq<char>> {
    Seq::new(row.len(), |k: int| cell_text(row[k]))
}

/// Every cell text of every row of a table normalized.
pub open spec fn normalized_table(rows: Seq<Seq<Seq<char>>>) -> Seq<Seq<Seq<char>>> {
    Seq::new(rows.len(), |j: int| normalized_row(rows[j]))
}

/// Every cell text of every table normalized.
pub open spec fn normalized_tables(ts: Seq<Seq<Seq<Seq<char>>>>) -> Seq<Seq<Seq<Seq<char>>>> {
    Seq::new(ts.len(), |i: int| normalized_table(ts[i]))
}

fn normalize_row(row: &Vec<String>) -> (r: Vec<String>)
    ensures
        r.deep_view() == normalized_row(row.deep_view()),
{
    let mut out: Vec<String> = Vec::new();
    let mut k: usize = 0;
    while k < row.len()
        invariant
            k <= row.len(),
            out.len() == k,
            forall|q: int| 0 <= q < k ==> #[trigger] out[q]@ == cell_text(row[q]@),
        decreases row.len() - k,
    {
        out.push(normalize_cell(row[k].as_str()));
        k += 1;
    }
    assert(out.deep_view() =~= normalized_row(row.deep_view()));
    out
}

fn normalize_table(rows: &Vec<Vec<String>>) -> (r: Vec<Vec<String>>)
    ensures
        r.deep_view() == normalized_table(rows.deep_view()),
{
    let mut out: Vec<Vec<String>> = Vec::new();
    let mut j: usize = 0;
    while j < rows.len()
        invariant
            j <= rows.len(),
            out.len() == j,
            forall|q: int| 0 <= q < j ==> #[trigger] out[q].deep_view() == normalized_row(rows[q].deep_view()),
        decreases rows.len() - j,
    {
        out.push(normalize_row(&rows[j]));
        j += 1;
    }
    assert(out.deep_view() =~= normalized_table(rows.deep_view()));
    out
}

/// Normalizes every cell text (trimmed, thousands separators removed).
pub fn normalize_tables(tables: &Vec<Vec<Vec<String>>>) -> (r: Vec<Vec<Vec<String>>>)
    ensures
        r.deep_view() == normalized_tables(tables.deep_view()),
{
    let mut out: Vec<Vec<Vec<String>>> = Vec::new();
    let mut i: usize = 0;
    while i < tables.len()
        invariant
            i <= tables.len(),
            out.len() == i,
            forall|q: int| 0 <= q < i ==> #[trigger] out[q].deep_view() == normalized_table(tables[q].deep_view()),
        decreases tables.len() - i,
    {
        out.push(normalize_table(&tables[i]));
        i += 1;
    }
    assert(out.deep_view() =~= normalized_tables(tables.deep_view()));
    out
}

/// The first of the first `n` tables that has the most rows.
pub open spec fn largest_table(ts: Seq<Seq<Seq<Seq<char>>>>, n: int) -> int
    decreases n,
{
    if n <= 1 {
        0
    } else {
        let k = largest_table(ts, n - 1);
        if ts[n - 1].len() > ts[k].len() {
            n - 1
        } else {
            k
        }
    }
}

/// Picks the table with the most rows, the first of them on a tie.
pub fn locate_table(tables: &Vec<Vec<Vec<String>>>) -> (r: Result<usize, PageError>)
    ensures
        tables.len() == 0 <==> r is Err,
        r matches Err(e) ==> e == PageError::NoTableFound,
        r matches Ok(i) ==> {
            &&& i == largest_table(tables.deep_view(), tables.len() as int)
            &&& i < tables.len()
            &&& forall|j: int| 0 <= j < tables.len() ==> tables[j].len() <= tables[i as int].len()
            &&& forall|j: int| 0 <= j < i ==> tables[j].len() < tables[i as int].len()
        },
{
    if tables.len() == 0 {
        return Err(PageError::NoTableFound);
    }
    let ghost ts = tables.deep_view();
    let mut best: usize = 0;
    let mut i: usize = 1;
    while i < tables.len()
        invariant
            ts == tables.deep_view(),
            1 <= i <= tables.len(),
            best < i,
            best == largest_table(ts, i as int),
            forall|j: int| 0 <= j < i ==> tables[j].len() <= tables[best as int].len(),
            forall|j: int| 0 <= j < best ==> tables[j].len() < tables[best as int].len(),
        decreases tables.len() - i,
    {
        assert(ts[i as int].len() == tables[i as int].len());
        assert(ts[best as int].len() == tables[best as int].len());
        if tables[i].len() > tables[best].len() {
            best = i;
        }
        i += 1;
    }
    Ok(best)
}

/// What a page gives, from its tables' normalized cell texts: the curve of
/// its largest table, or why there is none.
pub open spec fn page_curve(ts: Seq<Seq<Seq<Seq<char>>>>) -> Result<(Seq<u32>, Seq<u32>), PageError> {
    if ts.len() == 0 {
        Err(PageError::NoTableFound)
    } else {
        table_curve(ts[largest_table(ts, ts.len() as int)])
    }
}

/// Extracts the survivor curve of a page from its tables' normalized cell
/// texts.
pub fn parse_tables(tables: &Vec<Vec<Vec<String>>>) -> (r: Result<SurvivorCurve, PageError>)
    ensures
        match (r, page_curve(tables.deep_view())) {
            (Ok(c), Ok((m, f))) => c.male@ == m && c.female@ == f,
            (Err(e), Err(d)) => e == d,
            _ => false,
        },
        r matches Ok(c) ==> c.wf(),
{
    let i = match locate_table(tables) {
        Ok(i) => i,
        Err(e) => {
            assert(tables.deep_view().len() == 0);
            return Err(e);
        },
    };
    assert(tables[i as int].deep_view() == tables.deep_view()[i as int]);
    parse_table(&tables[i])
}

/// Extracts the survivor curve of a life-table page from its HTML text.
pub fn parse_page_body(body: &str) -> (r: Result<SurvivorCurve, PageError>)
    ensures
        match (r, page_curve(normalized_tables(html_tables(body@)))) {
            (Ok(c), Ok((m, f))) => c.male@ == m && c.female@ == f,
            (Err(e), Err(d)) => e == d,
            _ => false,
        },
        r matches Ok(c) ==> c.wf(),
{
    let raw = html_table_texts(body);
    let tables = normalize_tables(&raw);
    parse_tables(&tables)
}

} // verus!
