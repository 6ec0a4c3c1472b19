//! Extraction of survivor curves ("survivors per 100,000 births", by sex) from
//! published life-table pages.
//!
//! The logic works on plain values: a page is a list of tables, a table a list
//! of rows, a row a list of cell texts. Survivor counts are kept as integers
//! out of the cohort of 100,000 births; the fraction a count stands for is the
//! count divided by [`curve::COHORT`].
pub mod cells;
pub mod columns;
pub mod curve;
pub mod dataset;
pub mod error;
pub mod page;
pub mod throttle;

pub use cells::{normalize_cell, parse_u32};
pub use columns::{identify_columns, identify_row, ColumnIndices};
pub use curve::{parse_table, walk_rows, SurvivorCurve};
pub use dataset::{batch_years, YearlyDataset};
pub use error::PageError;
pub use page::{locate_table, normalize_tables, parse_page_body, parse_tables};
pub use throttle::RateLimiter;
