//! What a repository does with the rows of a sheet once their cells are read.

pub mod date_cell;
pub mod sheet_rows;
