use vstd::prelude::*;
use crate::cells::{parse_u32, parsed_u32};
use crate::columns::{identify_columns, table_columns, ColumnIndices};
use crate::error::PageError;

verus! {

/// The size of the cohort that survivor counts are given out of: the count
/// for age 0.
pub const COHORT: u32 = 100000;

/// The fewest ages that a survivor curve covers is one more than this.
pub const MIN_AGES: usize = 50;

/// Whether a sequence of counts stays within the cohort and never increases.
pub open spec fn valid_counts(s: Seq<u32>) -> bool {
    &&& forall|i: int| 0 <= i < s.len() ==> #[trigger] s[i] <= COHORT
    &&& forall|i: int| 1 <= i < s.len() ==> #[trigger] s[i] <= s[i - 1]
}

/// The survivors at each age, by sex, as counts out of [`COHORT`] births;
/// `male[a] / COHORT` is the fraction of the male cohort alive at age `a`.
#[derive(Debug)]
pub struct SurvivorCurve {
    pub male: Vec<u32>,
    pub female: Vec<u32>,
}

impl SurvivorCurve {
    /// Both sequences of equal length over [`MIN_AGES`], within the cohort,
    /// and non-increasing.
    pub open spec fn wf(&self) -> bool {
        &&& self.male@.len() == self.female@.len()
        &&& self.male@.len() > MIN_AGES
        &&& valid_counts(self.male@)
        &&& valid_counts(self.female@)
    }
}

/// The state of a row walk: the row number expected next and the counts
/// accepted so far.
pub struct WalkState {
    pub expected: nat,
    pub male: Seq<u32>,
    pub female: Seq<u32>,
}

/// A survivor count read from a cell, checked against the counts before it.
pub open spec fn checked_count(text: Seq<char>, before: Seq<u32>) -> Result<u32, PageError> {
    match parsed_u32(text) {
        None => Err(PageError::MalformedCellValue),
        Some(v) => if v > COHORT {
            Err(PageError::ValueOutOfRange)
        } else if before.len() > 0 && v > before.last() {
            Err(PageError::NonMonotonicSequence)
        } else {
            Ok(v)
        },
    }
}

/// Whether a row's row-number cell holds the number expected next.
pub open spec fn is_next_row(row: Seq<Seq<char>>, c: ColumnIndices, expected: nat) -> bool {
    parsed_u32(row[c.row_number as int]) matches Some(v) && v as nat == expected
}

/// One row of the walk. A row too short for all three columns, or whose row
/// number is not the one expected, is skipped; otherwise its male and then its
/// female count are read, checked and appended.
pub open spec fn walk_step(s: WalkState, row: Seq<Seq<char>>, c: ColumnIndices) -> Result<WalkState, PageError> {
    if row.len() <= c.spec_max_index() || !is_next_row(row, c, s.expected) {
        Ok(s)
    } else {
        match checked_count(row[c.male as int], s.male) {
            Err(e) => Err(e),
            Ok(m) => match checked_count(row[c.female as int], s.female) {
                Err(e) => Err(e),
                Ok(f) => Ok(WalkState { expected: s.expected + 1, male: s.male.push(m), female: s.female.push(f) }),
            },
        }
    }
}

/// The walk over the first `n` rows of a table; the first error ends it.
pub open spec fn walk_prefix(rows: Seq<Seq<Seq<char>>>, c: ColumnIndices, n: int) -> Result<WalkState, PageError>
    decreases n,
{
    if n <= 0 {
        Ok(WalkState { expected: 0, male: Seq::empty(), female: Seq::empty() })
    } else {
        match walk_prefix(rows, c, n - 1) {
            Err(e) => Err(e),
            Ok(s) => walk_step(s, rows[n - 1], c),
        }
    }
}

/// The walk over all rows of a table.
pub open spec fn walk_table(rows: Seq<Seq<Seq<char>>>, c: ColumnIndices) -> Result<WalkState, PageError> {
    walk_prefix(rows, c, rows.len() as int)
}

/// What a table gives: its survivor counts, or why it gives none.
pub open spec fn table_curve(rows: Seq<Seq<Seq<char>>>) -> Result<(Seq<u32>, Seq<u32>), PageError> {
    match table_columns(rows, rows.len() as int) {
        Err(e) => Err(e),
        Ok(None) => Err(PageError::InsufficientRows),
        Ok(Some(c)) => match walk_table(rows, c) {
            Err(e) => Err(e),
            Ok(s) => if s.male.len() > MIN_AGES {
                Ok((s.male, s.female))
            } else {
                Err(PageError::InsufficientRows)
            },
        },
    }
}

/// Every state that a walk reaches holds counts of equal length, as many as
/// the row number expected next, within the cohort and never increasing.
pub proof fn lemma_walk_valid(rows: Seq<Seq<Seq<char>>>, c: ColumnIndices, n: int)
    ensures
        walk_prefix(rows, c, n) matches Ok(s) ==> {
            &&& s.male.len() == s.female.len()
            &&& s.male.len() == s.expected
            &&& valid_counts(s.male)
            &&& valid_counts(s.female)
        },
    decreases n,
{
    if n > 0 {
        lemma_walk_valid(rows, c, n - 1);
        if let Ok(s) = walk_prefix(rows, c, n - 1) {
            if let Ok(t) = walk_step(s, rows[n - 1], c) {
                if t.male.len() != s.male.len() {
                    assert(t.male.last() <= COHORT);
                    assert forall|i: int| 1 <= i < t.male.len() implies #[trigger] t.male[i] <= t.male[i - 1] by {
                        if i < s.male.len() {
                            assert(t.male[i] == s.male[i] && t.male[i - 1] == s.male[i - 1]);
                        }
                    }
                    assert forall|i: int| 1 <= i < t.female.len() implies #[trigger] t.female[i] <= t.female[i - 1] by {
                        if i < s.female.len() {
                            assert(t.female[i] == s.female[i] && t.female[i - 1] == s.female[i - 1]);
                        }
                    }
                    assert forall|i: int| 0 <= i < t.male.len() implies #[trigger] t.male[i] <= COHORT by {
                        if i < s.male.len() {
                            assert(t.male[i] == s.male[i]);
                        }
                    }
                    assert forall|i: int| 0 <= i < t.female.len() implies #[trigger] t.female[i] <= COHORT by {
                        if i < s.female.len() {
                            assert(t.female[i] == s.female[i]);
                        }
                    }
                }
            }
        }
    }
}

/// Every curve that a table gives has as many male as female counts, more
/// than [`MIN_AGES`] of them, each within the cohort (a fraction between 0
/// and 1), and neither sequence increases from one age to the next.
pub proof fn lemma_table_curve_valid(rows: Seq<Seq<Seq<char>>>)
    ensures
        table_curve(rows) matches Ok((m, f)) ==> {
            &&& m.len() == f.len()
            &&& m.len() > MIN_AGES
            &&& valid_counts(m)
            &&& valid_counts(f)
        },
{
    if let Ok(Some(c)) = table_columns(rows, rows.len() as int) {
        lemma_walk_valid(rows, c, rows.len() as int);
    }
}

/// Reads one survivor count and checks it against the counts before it.
fn read_count(text: &String, before: &Vec<u32>) -> (r: Result<u32, PageError>)
    ensures
        r == checked_count(text@, before@),
{
    match parse_u32(text.as_str()) {
        None => Err(PageError::MalformedCellValue),
        Some(v) => if v > COHORT {
            Err(PageError::ValueOutOfRange)
        } else if before.len() > 0 && v > before[before.len() - 1] {
            Err(PageError::NonMonotonicSequence)
        } else {
            Ok(v)
        },
    }
}

/// Walks all rows of a table with the given column positions and returns the
/// male and female survivor counts, one pair per row numbered 0, 1, 2, ...
/// in turn. No minimum length is asked of the result here.
pub fn walk_rows(rows: &Vec<Vec<String>>, cols: ColumnIndices) -> (r: Result<(Vec<u32>, Vec<u32>), PageError>)
    ensures
        match (r, walk_table(rows.deep_view(), cols)) {
            (Ok((m, f)), Ok(s)) => m@ == s.male && f@ == s.female,
            (Err(e), Err(d)) => e == d,
            _ => false,
        },
        r matches Ok((m, f)) ==> m@.len() == f@.len() && valid_counts(m@) && valid_counts(f@),
{
    let ghost t = rows.deep_view();
    let mut male: Vec<u32> = Vec::new();
    let mut female: Vec<u32> = Vec::new();
    let mut expected: usize = 0;
    let mut i: usize = 0;
    while i < rows.len()
        invariant
            t == rows.deep_view(),
            i <= rows.len(),
            expected <= i,
            walk_prefix(t, cols, i as int) matches Ok(s) && s.expected == expected && s.male == male@
                && s.female == female@,
        decreases rows.len() - i,
    {
        let row = &rows[i];
        assert(row.deep_view() == t[i as int]);
        if row.len() > cols.max_index() {
            assert(row[cols.row_number as int]@ == t[i as int][cols.row_number as int]);
            let matches_next = match parse_u32(rows[i][cols.row_number].as_str()) {
                Some(v) => v as u64 == expected as u64,
                None => false,
            };
            if matches_next {
                assert(row[cols.male as int]@ == t[i as int][cols.male as int]);
                assert(row[cols.female as int]@ == t[i as int][cols.female as int]);
                let m = match read_count(&row[cols.male], &male) {
                    Ok(m) => m,
                    Err(e) => {
                        proof { lemma_walk_error_stays(t, cols, i as int + 1, t.len() as int); }
                        return Err(e);
                    },
                };
                let f = match read_count(&row[cols.female], &female) {
                    Ok(f) => f,
                    Err(e) => {
                        proof { lemma_walk_error_stays(t, cols, i as int + 1, t.len() as int); }
                        return Err(e);
                    },
                };
                male.push(m);
                female.push(f);
                expected += 1;
            }
        }
        i += 1;
    }
    proof { lemma_walk_valid(t, cols, t.len() as int); }
    Ok((male, female))
}

/// Once a walk has failed, later rows keep the same error.
pub proof fn lemma_walk_error_stays(rows: Seq<Seq<Seq<char>>>, c: ColumnIndices, n: int, m: int)
    requires
        0 <= n <= m,
        walk_prefix(rows, c, n) is Err,
    ensures
        walk_prefix(rows, c, m) == walk_prefix(rows, c, n),
    decreases m - n,
{
    if m > n {
        lemma_walk_error_stays(rows, c, n, m - 1);
    }
}

/// Extracts the survivor curve of one table: finds the column positions,
/// walks the rows, and asks for more than [`MIN_AGES`] ages.
pub fn parse_table(rows: &Vec<Vec<String>>) -> (r: Result<SurvivorCurve, PageError>)
    ensures
        match (r, table_curve(rows.deep_view())) {
            (Ok(c), Ok((m, f))) => c.male@ == m && c.female@ == f,
            (Err(e), Err(d)) => e == d,
            _ => false,
        },
        r matches Ok(c) ==> c.wf(),
{
    let cols = match identify_columns(rows) {
        Err(e) => return Err(e),
        Ok(None) => return Err(PageError::InsufficientRows),
        Ok(Some(c)) => c,
    };
    let (male, female) = match walk_rows(rows, cols) {
        Err(e) => return Err(e),
        Ok(p) => p,
    };
    if male.len() > MIN_AGES {
        Ok(SurvivorCurve { male, female })
    } else {
        Err(PageError::InsufficientRows)
    }
}

} // verus!
