use vstd::prelude::*;
use crate::cells::{cohort_text, is_cohort_text, is_zero_text, zero_text};
use crate::error::PageError;

verus! {

/// The positions of the row-number column and of the male and female
/// survivor columns within a table's rows.
#[derive(Clone, Copy, Debug, PartialEq, Eq, Structural)]
pub struct ColumnIndices {
    pub row_number: usize,
    pub male: usize,
    pub female: usize,
}

impl ColumnIndices {
    pub open spec fn spec_max_index(&self) -> usize {
        if self.row_number >= self.male && self.row_number >= self.female {
            self.row_number
        } else if self.male >= self.female {
            self.male
        } else {
            self.female
        }
    }

    /// The largest of the three indices.
    pub fn max_index(&self) -> (r: usize)
        ensures
            r == self.spec_max_index(),
            r >= self.row_number && r >= self.male && r >= self.female,
            r == self.row_number || r == self.male || r == self.female,
    {
        if self.row_number >= self.male && self.row_number >= self.female {
            self.row_number
        } else if self.male >= self.female {
            self.male
        } else {
            self.female
        }
    }
}

/// The first of the first `n` cells of a row that reads `0`.
pub open spec fn first_zero(row: Seq<Seq<char>>, n: int) -> Option<int>
    decreases n,
{
    if n <= 0 {
        None
    } else {
        match first_zero(row, n - 1) {
            Some(k) => Some(k),
            None => if is_zero_text(row[n - 1]) {
                Some(n - 1)
            } else {
                None
            },
        }
    }
}

/// The positions, left to right, of the first `n` cells of a row that read
/// `100000`.
pub open spec fn cohort_columns(row: Seq<Seq<char>>, n: int) -> Seq<int>
    decreases n,
{
    if n <= 0 {
        Seq::empty()
    } else if is_cohort_text(row[n - 1]) {
        cohort_columns(row, n - 1).push(n - 1)
    } else {
        cohort_columns(row, n - 1)
    }
}

/// What one row tells of the column positions: nothing (`Ok(None)`), the
/// positions, or an error that ends the page.
pub open spec fn row_columns(row: Seq<Seq<char>>) -> Result<Option<ColumnIndices>, PageError> {
    let f = cohort_columns(row, row.len() as int);
    let z = first_zero(row, row.len() as int);
    if f.len() >= 3 {
        Err(PageError::TooManyMatchingColumns)
    } else if f.len() == 1 {
        Err(PageError::AsymmetricColumns)
    } else if f.len() == 0 {
        Ok(None)
    } else if z is None {
        Err(PageError::MissingRowNumberColumn)
    } else {
        Ok(Some(ColumnIndices { row_number: z->0 as usize, male: f[0] as usize, female: f[1] as usize }))
    }
}

/// The column positions of a table, from the first `n` rows: the answer of
/// the first row that gives one.
pub open spec fn table_columns(rows: Seq<Seq<Seq<char>>>, n: int) -> Result<Option<ColumnIndices>, PageError>
    decreases n,
{
    if n <= 0 {
        Ok(None)
    } else {
        match table_columns(rows, n - 1) {
            Ok(None) => row_columns(rows[n - 1]),
            other => other,
        }
    }
}

pub proof fn lemma_cohort_columns_bounds(row: Seq<Seq<char>>, n: int)
    requires
        0 <= n <= row.len(),
    ensures
        forall|k: int| 0 <= k < cohort_columns(row, n).len() ==> 0 <= #[trigger] cohort_columns(row, n)[k] < n,
        forall|k: int, l: int| 0 <= k < l < cohort_columns(row, n).len() ==> cohort_columns(row, n)[k] < cohort_columns(row, n)[l],
        forall|k: int| 0 <= k < cohort_columns(row, n).len() ==> is_cohort_text(row[#[trigger] cohort_columns(row, n)[k]]),
        forall|j: int| 0 <= j < n && is_cohort_text(#[trigger] row[j]) ==> cohort_columns(row, n).contains(j),
    decreases n,
{
    if n > 0 {
        lemma_cohort_columns_bounds(row, n - 1);
        let p = cohort_columns(row, n - 1);
        assert forall|j: int| 0 <= j < n && is_cohort_text(#[trigger] row[j]) implies cohort_columns(row, n).contains(j) by {
            if j < n - 1 {
                let k = choose|k: int| 0 <= k < p.len() && p[k] == j;
                if is_cohort_text(row[n - 1]) {
                    assert(cohort_columns(row, n)[k] == j);
                }
            } else {
                assert(cohort_columns(row, n)[cohort_columns(row, n).len() - 1] == j);
            }
        }
    }
}

pub proof fn lemma_cohort_columns_grow(row: Seq<Seq<char>>, n: int, m: int)
    requires
        0 <= n <= m,
    ensures
        cohort_columns(row, n).len() <= cohort_columns(row, m).len(),
    decreases m - n,
{
    if m > n {
        lemma_cohort_columns_grow(row, n, m - 1);
    }
}

pub proof fn lemma_first_zero(row: Seq<Seq<char>>, n: int)
    requires
        0 <= n <= row.len(),
    ensures
        first_zero(row, n) matches Some(k) ==> 0 <= k < n && is_zero_text(row[k])
            && forall|j: int| 0 <= j < k ==> !is_zero_text(#[trigger] row[j]),
        first_zero(row, n) is None ==> forall|j: int| 0 <= j < n ==> !is_zero_text(#[trigger] row[j]),
    decreases n,
{
    if n > 0 {
        lemma_first_zero(row, n - 1);
    }
}

pub proof fn lemma_first_zero_at(row: Seq<Seq<char>>, n: int, k: int)
    requires
        0 <= k < n <= row.len(),
        is_zero_text(row[k]),
        forall|j: int| 0 <= j < k ==> !is_zero_text(#[trigger] row[j]),
    ensures
        first_zero(row, n) == Some(k),
    decreases n,
{
    if n > k + 1 {
        lemma_first_zero_at(row, n - 1, k);
    } else {
        lemma_first_zero(row, k);
    }
}

/// A strictly increasing sequence that holds exactly the two values `a < b`
/// is `[a, b]`.
proof fn lemma_increasing_pair(s: Seq<int>, a: int, b: int)
    requires
        a < b,
        forall|k: int, l: int| 0 <= k < l < s.len() ==> s[k] < s[l],
        forall|k: int| 0 <= k < s.len() ==> #[trigger] s[k] == a || s[k] == b,
        s.contains(a),
        s.contains(b),
    ensures
        s =~= seq![a, b],
{
    if s.len() >= 3 {
        assert(s[0] < s[1] < s[2]);
        assert(s[0] == a || s[0] == b);
        assert(s[1] == a || s[1] == b);
        assert(s[2] == a || s[2] == b);
    }
    if s.len() == 2 {
        assert(s[0] < s[1]);
        assert(s[0] == a || s[0] == b);
        assert(s[1] == a || s[1] == b);
    }
}

/// Column identification goes by what the cells hold, not by where they
/// stand: when the cells of a row are rearranged (`moved[j] == row[p[j]]`
/// for a one-to-one `p`) so that the male `100000` cell still comes before
/// the female one and the row-number `0` cell is still the first `0`, the
/// identified columns are the same cells at their new positions.
pub proof fn lemma_identification_follows_reordering(
    row: Seq<Seq<char>>,
    moved: Seq<Seq<char>>,
    p: Seq<int>,
    c: ColumnIndices,
    row_number: int,
    male: int,
    female: int,
)
    requires
        row_columns(row) == Ok::<Option<ColumnIndices>, PageError>(Some(c)),
        row.len() <= usize::MAX,
        moved.len() == row.len(),
        p.len() == row.len(),
        forall|j: int| 0 <= j < p.len() ==> 0 <= #[trigger] p[j] < row.len() && moved[j] == row[p[j]],
        forall|j: int, k: int| 0 <= j < k < p.len() ==> p[j] != p[k],
        0 <= row_number < row.len(),
        0 <= male < female < row.len(),
        p[row_number] == c.row_number,
        p[male] == c.male,
        p[female] == c.female,
        forall|j: int| 0 <= j < row_number ==> !is_zero_text(#[trigger] moved[j]),
    ensures
        row_columns(moved) == Ok::<Option<ColumnIndices>, PageError>(
            Some(ColumnIndices { row_number: row_number as usize, male: male as usize, female: female as usize }),
        ),
{
    let n = row.len() as int;
    let f = cohort_columns(row, n);
    let g = cohort_columns(moved, n);
    lemma_cohort_columns_bounds(row, n);
    lemma_cohort_columns_bounds(moved, n);
    lemma_first_zero(row, n);
    assert(f.len() == 2 && f[0] == c.male as int && f[1] == c.female as int);
    assert forall|k: int| 0 <= k < g.len() implies #[trigger] g[k] == male || g[k] == female by {
        let j = g[k];
        assert(is_cohort_text(row[p[j]]));
        assert(f.contains(p[j]));
        if p[j] == c.male as int && j != male {
            assert(p[j] == p[male]);
        }
        if p[j] == c.female as int && j != female {
            assert(p[j] == p[female]);
        }
    }
    assert(is_cohort_text(moved[male]) && is_cohort_text(moved[female])) by {
        assert(is_cohort_text(row[f[0]]));
        assert(is_cohort_text(row[f[1]]));
    }
    lemma_increasing_pair(g, male, female);
    assert(is_zero_text(moved[row_number]));
    lemma_first_zero_at(moved, n, row_number);
}

/// Reads the column positions off one row, by the sentinel values its cells
/// hold: the first cell reading `0` is the row number, the first and second
/// cells reading `100000` are the male and female survivor counts.
pub fn identify_row(row: &Vec<String>) -> (r: Result<Option<ColumnIndices>, PageError>)
    ensures
        r == row_columns(row.deep_view()),
        r matches Ok(Some(c)) ==> c.row_number < row.len() && c.male < c.female < row.len(),
{
    let ghost cells = row.deep_view();
    let mut row_number: Option<usize> = None;
    let mut male: Option<usize> = None;
    let mut female: Option<usize> = None;
    let mut i: usize = 0;
    while i < row.len()
        invariant
            cells == row.deep_view(),
            i <= row.len(),
            row_number == (match first_zero(cells, i as int) {
                Some(k) => Some(k as usize),
                None => None::<usize>,
            }),
            cohort_columns(cells, i as int).len() <= 2,
            male == (if cohort_columns(cells, i as int).len() >= 1 {
                Some(cohort_columns(cells, i as int)[0] as usize)
            } else {
                None::<usize>
            }),
            female == (if cohort_columns(cells, i as int).len() >= 2 {
                Some(cohort_columns(cells, i as int)[1] as usize)
            } else {
                None::<usize>
            }),
        decreases row.len() - i,
    {
        let text = row[i].as_str();
        assert(text@ == cells[i as int]);
        if zero_text(text) {
            if row_number.is_none() {
                row_number = Some(i);
            }
        } else if cohort_text(text) {
            if male.is_none() {
                male = Some(i);
            } else if female.is_none() {
                female = Some(i);
            } else {
                assert(cohort_columns(cells, i + 1).len() == 3);
                proof { lemma_cohort_columns_grow(cells, i + 1, cells.len() as int); }
                return Err(PageError::TooManyMatchingColumns);
            }
        }
        i += 1;
    }
    proof {
        lemma_cohort_columns_bounds(cells, cells.len() as int);
        lemma_first_zero(cells, cells.len() as int);
    }
    match (male, female) {
        (Some(m), Some(f)) => match row_number {
            Some(z) => Ok(Some(ColumnIndices { row_number: z, male: m, female: f })),
            None => Err(PageError::MissingRowNumberColumn),
        },
        (Some(_), None) => Err(PageError::AsymmetricColumns),
        _ => Ok(None),
    }
}

/// Scans the rows of a table in order until one gives the column positions
/// (or an error); later rows are not looked at.
pub fn identify_columns(rows: &Vec<Vec<String>>) -> (r: Result<Option<ColumnIndices>, PageError>)
    ensures
        r == table_columns(rows.deep_view(), rows.len() as int),
{
    let ghost t = rows.deep_view();
    let mut i: usize = 0;
    while i < rows.len()
        invariant
            t == rows.deep_view(),
            i <= rows.len(),
            table_columns(t, i as int) == Ok::<Option<ColumnIndices>, PageError>(None),
        decreases rows.len() - i,
    {
        let found = identify_row(&rows[i]);
        assert(rows[i as int].deep_view() == t[i as int]);
        match found {
            Ok(None) => {},
            other => {
                proof { lemma_table_columns_settled(t, i as int + 1, rows.len() as int); }
                return other;
            },
        }
        i += 1;
    }
    Ok(None)
}

/// Once a row has given an answer, later rows do not change it.
pub proof fn lemma_table_columns_settled(rows: Seq<Seq<Seq<char>>>, n: int, m: int)
    requires
        0 <= n <= m,
        table_columns(rows, n) != Ok::<Option<ColumnIndices>, PageError>(None),
    ensures
        table_columns(rows, m) == table_columns(rows, n),
    decreases m - n,
{
    if m > n {
        lemma_table_columns_settled(rows, n, m - 1);
    }
}

} // verus!
