//! Markout analysis of trade executions against a reference price series.
//!
//! The verified core joins normalized trades to a minute-aligned price
//! series at several horizons, parses horizon lists, and holds the
//! decisions of the paginated fetches and of batch runs.

pub mod batch;
pub mod horizons;
pub mod markouts;
pub mod paging;
pub mod series;
pub mod text;
pub mod types;
