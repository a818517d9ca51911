//! Material cost per production batch, and the running inventory ledger.
//!
//! Every quantity, amount, ratio and rate is an integer count of millionths (see
//! [`fixed_point`]), so that each result is exact and every function says exactly what
//! it returns. The value objects of [`domain::value_objects`] are checked once, at
//! construction; the entities of [`domain::entities`] are records of them. The two
//! services of [`domain::services`] compute what a batch consumes and costs, and the
//! ledger of all stock events in chronological order. [`domain::repositories`] are the
//! lookups that the cost service asks. [`infrastructure`] reads the rows of a sheet,
//! cell by cell, into entities; [`usecase`] holds the results as plain records.

pub mod domain;
pub mod error;
pub mod fixed_point;
pub mod infrastructure;
pub mod text;
pub mod usecase;
