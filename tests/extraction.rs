use life_tables::{
    batch_years, identify_columns, identify_row, locate_table, normalize_cell, normalize_tables,
    parse_page_body, parse_table, parse_tables, parse_u32, walk_rows, ColumnIndices, PageError,
    RateLimiter, SurvivorCurve, YearlyDataset,
};

fn row(cells: &[&str]) -> Vec<String> {
    cells.iter().map(|c| c.to_string()).collect()
}

/// A well-formed table: a header, then `n` ages with counts falling by `drop`
/// per age, columns laid out as `order` gives ("age", "male", "female", "x").
fn synthetic_table(n: u32, order: &[&str]) -> Vec<Vec<String>> {
    let mut rows = vec![order.iter().map(|c| format!("header {}", c)).collect::<Vec<_>>()];
    for age in 0..n {
        let cells = order
            .iter()
            .map(|c| match *c {
                "age" => age.to_string(),
                "male" => (100000 - 40 * age).to_string(),
                "female" => (100000 - 30 * age).to_string(),
                _ => "note".to_string(),
            })
            .collect();
        rows.push(cells);
    }
    rows
}

fn fractions(counts: &[u32]) -> Vec<f32> {
    counts.iter().map(|&c| c as f32 / 100000_f32).collect()
}

fn close(a: &[f32], b: &[f32]) -> bool {
    a.len() == b.len() && a.iter().zip(b).all(|(x, y)| (x - y).abs() < 1e-6)
}

fn page_html(rows: &[Vec<String>]) -> String {
    let mut html = String::from("<html><body><table><tr><td>menu</td></tr></table><table>");
    for r in rows {
        html.push_str("<tr>");
        for c in r {
            html.push_str(&format!("<td> {} </td>", c));
        }
        html.push_str("</tr>");
    }
    html.push_str("</table></body></html>");
    html
}

#[test]
fn scenario_header_and_duplicate_row() {
    let rows = vec![
        row(&["Age", "l(x) male", "l(x) female"]),
        row(&["0", "100000", "100000"]),
        row(&["0", "100000", "100000"]),
        row(&["1", "99950", "99970"]),
        row(&["2", "99800", "99850"]),
    ];
    let cols = identify_columns(&rows).unwrap().unwrap();
    assert_eq!(cols, ColumnIndices { row_number: 0, male: 1, female: 2 });
    let (male, female) = walk_rows(&rows, cols).unwrap();
    assert_eq!(male, vec![100000, 99950, 99800]);
    assert_eq!(female, vec![100000, 99970, 99850]);
    assert!(close(&fractions(&male), &[1.0, 0.9995, 0.998]));
    assert!(close(&fractions(&female), &[1.0, 0.9997, 0.9985]));
}

#[test]
fn scenario_malformed_male_value() {
    let rows = vec![row(&["0", "100000", "100000"]), row(&["1", "abc", "99970"])];
    let cols = identify_columns(&rows).unwrap().unwrap();
    assert_eq!(walk_rows(&rows, cols), Err(PageError::MalformedCellValue));
}

#[test]
fn scenario_increasing_male_value() {
    let rows = vec![
        row(&["0", "100000", "100000"]),
        row(&["1", "99900", "99970"]),
        row(&["2", "99950", "99960"]),
    ];
    let cols = identify_columns(&rows).unwrap().unwrap();
    assert_eq!(walk_rows(&rows, cols), Err(PageError::NonMonotonicSequence));
}

#[test]
fn scenario_document_without_tables() {
    let r = parse_page_body("<html><body><p>nothing here</p></body></html>");
    assert_eq!(r.unwrap_err(), PageError::NoTableFound);
    assert_eq!(parse_tables(&Vec::new()).unwrap_err(), PageError::NoTableFound);
    assert_eq!(locate_table(&Vec::new()), Err(PageError::NoTableFound));
}

#[test]
fn full_page_from_html() {
    let rows = synthetic_table(60, &["age", "male", "female"]);
    let curve: SurvivorCurve = parse_page_body(&page_html(&rows)).unwrap();
    assert_eq!(curve.male.len(), 60);
    assert_eq!(curve.female.len(), 60);
    assert_eq!(curve.male[0], 100000);
    assert_eq!(curve.male[59], 100000 - 40 * 59);
    assert_eq!(curve.female[59], 100000 - 30 * 59);
}

#[test]
fn full_page_with_thousands_separators() {
    let mut rows = synthetic_table(55, &["age", "male", "female"]);
    rows[1][1] = "100,000".to_string();
    rows[1][2] = "100,000".to_string();
    rows[2][1] = "99,960".to_string();
    let curve = parse_page_body(&page_html(&rows)).unwrap();
    assert_eq!(curve.male[0], 100000);
    assert_eq!(curve.male[1], 99960);
    assert_eq!(curve.female[0], 100000);
}

#[test]
fn curves_hold_laws() {
    let rows = synthetic_table(80, &["age", "male", "female"]);
    let curve = parse_table(&rows).unwrap();
    assert_eq!(curve.male.len(), curve.female.len());
    assert!(curve.male.len() > 50);
    for i in 1..curve.male.len() {
        assert!(curve.male[i] <= curve.male[i - 1]);
        assert!(curve.female[i] <= curve.female[i - 1]);
    }
    for v in fractions(&curve.male).into_iter().chain(fractions(&curve.female)) {
        assert!((0.0..=1.0).contains(&v));
    }
}

#[test]
fn reordered_columns_give_same_curve() {
    let plain = parse_table(&synthetic_table(60, &["age", "male", "female"])).unwrap();
    let moved = synthetic_table(60, &["x", "male", "x", "age", "female"]);
    let cols = identify_columns(&moved).unwrap().unwrap();
    assert_eq!(cols, ColumnIndices { row_number: 3, male: 1, female: 4 });
    let curve = parse_table(&moved).unwrap();
    assert_eq!(curve.male, plain.male);
    assert_eq!(curve.female, plain.female);
}

#[test]
fn too_few_rows_is_rejected() {
    let rows = synthetic_table(50, &["age", "male", "female"]);
    assert_eq!(parse_table(&rows).unwrap_err(), PageError::InsufficientRows);
    let rows = synthetic_table(51, &["age", "male", "female"]);
    assert_eq!(parse_table(&rows).unwrap().male.len(), 51);
}

#[test]
fn table_without_sentinels_has_no_rows() {
    let rows = vec![row(&["a", "b"]), row(&["1", "2"])];
    assert_eq!(identify_columns(&rows), Ok(None));
    assert_eq!(parse_table(&rows).unwrap_err(), PageError::InsufficientRows);
}

#[test]
fn value_above_cohort_is_rejected() {
    let rows = vec![row(&["0", "100000", "100000"]), row(&["1", "100001", "99970"])];
    let cols = identify_columns(&rows).unwrap().unwrap();
    assert_eq!(walk_rows(&rows, cols), Err(PageError::ValueOutOfRange));
}

#[test]
fn female_errors_are_reported() {
    let rows = vec![row(&["0", "100000", "100000"]), row(&["1", "99990", "x"])];
    let cols = identify_columns(&rows).unwrap().unwrap();
    assert_eq!(walk_rows(&rows, cols), Err(PageError::MalformedCellValue));
}

#[test]
fn column_errors() {
    assert_eq!(
        identify_row(&row(&["0", "100000", "100000", "100000"])),
        Err(PageError::TooManyMatchingColumns)
    );
    assert_eq!(identify_row(&row(&["0", "100000", "5"])), Err(PageError::AsymmetricColumns));
    assert_eq!(
        identify_row(&row(&["7", "100000", "100000"])),
        Err(PageError::MissingRowNumberColumn)
    );
    assert_eq!(
        identify_row(&row(&["x", "0", "100000", "0", "100000"])),
        Ok(Some(ColumnIndices { row_number: 1, male: 2, female: 4 }))
    );
    let rows = vec![row(&["x"]), row(&["0", "100000"]), row(&["0", "100000", "100000"])];
    assert_eq!(identify_columns(&rows), Err(PageError::AsymmetricColumns));
}

#[test]
fn short_and_unnumbered_rows_are_skipped() {
    let rows = vec![
        row(&["0", "100000", "100000"]),
        row(&["1", "99990"]),
        row(&["total", "5", "5"]),
        row(&["", "", ""]),
        row(&["1", "99980", "99985"]),
        row(&["3", "99970", "99975"]),
    ];
    let cols = identify_columns(&rows).unwrap().unwrap();
    let (male, female) = walk_rows(&rows, cols).unwrap();
    assert_eq!(male, vec![100000, 99980]);
    assert_eq!(female, vec![100000, 99985]);
}

#[test]
fn largest_table_wins_first_on_tie() {
    let t = |n: usize| vec![row(&["c"]); n];
    assert_eq!(locate_table(&vec![t(2), t(5), t(3), t(5)]), Ok(1));
    assert_eq!(locate_table(&vec![t(0)]), Ok(0));
}

#[test]
fn max_index_is_largest() {
    assert_eq!(ColumnIndices { row_number: 0, male: 4, female: 2 }.max_index(), 4);
    assert_eq!(ColumnIndices { row_number: 7, male: 1, female: 2 }.max_index(), 7);
    assert_eq!(ColumnIndices { row_number: 0, male: 1, female: 9 }.max_index(), 9);
}

#[test]
fn cell_normalization() {
    assert_eq!(normalize_cell("  1,234,567 \n"), "1234567");
    assert_eq!(normalize_cell("\t100,000"), "100000");
    assert_eq!(normalize_cell(""), "");
    let raw = vec![vec![vec![" 0 ".to_string(), "1,0".to_string()]]];
    assert_eq!(normalize_tables(&raw), vec![vec![vec!["0".to_string(), "10".to_string()]]]);
}

#[test]
fn integer_parsing() {
    assert_eq!(parse_u32("0"), Some(0));
    assert_eq!(parse_u32("+42"), Some(42));
    assert_eq!(parse_u32("007"), Some(7));
    assert_eq!(parse_u32("4294967295"), Some(u32::MAX));
    assert_eq!(parse_u32("4294967296"), None);
    assert_eq!(parse_u32("99999999999999999999"), None);
    assert_eq!(parse_u32(""), None);
    assert_eq!(parse_u32("+"), None);
    assert_eq!(parse_u32("-1"), None);
    assert_eq!(parse_u32("1 2"), None);
    assert_eq!(parse_u32("abc"), None);
}

#[test]
fn dataset_keeps_years_in_order() {
    let mut data = YearlyDataset::new();
    assert_eq!(data.len(), 0);
    let curve = |drop: u32| parse_table(&synthetic_table(60 + drop, &["age", "male", "female"])).unwrap();
    data.insert(1950, curve(0));
    data.insert(1900, curve(1));
    data.insert(2000, curve(2));
    data.insert(1950, curve(3));
    assert_eq!(data.len(), 3);
    assert_eq!(data.years(), vec![1900, 1950, 2000]);
    assert_eq!(data.get(1950).unwrap().male.len(), 63);
    assert_eq!(data.get(1900).unwrap().male.len(), 61);
    assert!(data.get(1910).is_none());
}

#[test]
fn batch_year_range() {
    let years = batch_years(1900, 2100, 10);
    assert_eq!(years.len(), 21);
    assert_eq!(years[0], 1900);
    assert_eq!(years[20], 2100);
    assert_eq!(batch_years(1900, 1905, 10), vec![1900]);
    assert_eq!(batch_years(2000, 1900, 10), Vec::<u32>::new());
    assert_eq!(batch_years(u32::MAX - 1, u32::MAX, 1), vec![u32::MAX - 1, u32::MAX]);
}

#[test]
fn rate_limiter_spaces_requests() {
    let mut limiter = RateLimiter::new(500);
    assert_eq!(limiter.wait_before(1000), 0);
    limiter.record(1000);
    assert_eq!(limiter.wait_before(1200), 300);
    assert_eq!(limiter.wait_before(1500), 0);
    assert_eq!(limiter.wait_before(900), 500);
    limiter.record(1600);
    assert_eq!(limiter.last_ms, Some(1600));
}

#[test]
fn error_messages_are_distinct() {
    let all = [
        PageError::NoTableFound,
        PageError::TooManyMatchingColumns,
        PageError::AsymmetricColumns,
        PageError::MissingRowNumberColumn,
        PageError::MalformedCellValue,
        PageError::ValueOutOfRange,
        PageError::NonMonotonicSequence,
        PageError::InsufficientRows,
    ];
    for (i, a) in all.iter().enumerate() {
        for b in &all[i + 1..] {
            assert_ne!(a.message(), b.message());
        }
    }
}
