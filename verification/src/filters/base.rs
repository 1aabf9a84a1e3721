//! The kinds of rewrite rule that rule sets are made of.
pub mod regex;
