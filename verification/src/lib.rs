//! Price checking for a list of hardware parts: the catalog and its order,
//! price labels and amounts, the report lines, and the run's decisions.

pub mod amount;
pub mod catalog;
pub mod category;
pub mod extract;
pub mod pipeline;
pub mod report;
pub mod search;
pub mod sorting;
pub mod text;
