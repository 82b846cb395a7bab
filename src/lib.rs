//! Fetch-batch-parse-aggregate core for yearly name popularity tables: the
//! request for each year, the split of a year range into fetch batches, the
//! parser for one year's table, and the year-ordered collection of results.
pub mod aggregate;
pub mod cells;
pub mod decimal;
pub mod export;
pub mod laws;
pub mod request;
pub mod schedule;
