//! Response body rewriting: rewrite rules, chains of them, and the named
//! rule sets.
pub mod base;
pub mod templates;

pub use templates::{DefaultResponseFilter, FilterSet, ResponseFilter, ResponseFilterBuilder, ResponseFilters};
