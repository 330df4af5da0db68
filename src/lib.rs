//! Normalisation of free-text, multi-lingual date strings into canonical
//! `YYYY-MM-DD` dates, with leap-year-aware validation and an explicit
//! imputation policy for missing day and month values.

pub mod text;
pub mod error;
pub mod calendar;
pub mod fastpath;
pub mod normalize;
pub mod split;
pub mod lexicon;
pub mod parse;
pub mod pipeline;
pub mod messages;
