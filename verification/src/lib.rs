//! Directory comparison and difference extraction: status classification,
//! statistics, filtering, configuration merging and report generation.
use vstd::prelude::*;

pub mod text;
pub mod types;
pub mod error;
pub mod filter;
pub mod three_way;
pub mod comparator;
pub mod utils;
pub mod cli;
pub mod config;
pub mod copier;
pub mod safety;
pub mod progress;
pub mod sheet;
pub mod tree_layout;
pub mod excel;
pub mod three_way_excel;
pub mod path_tree;
pub mod report_text;
pub mod summary;
pub mod three_way_summary;
pub mod patch;
pub mod scanner;
pub mod run;
pub mod path_order;

verus! {

} // verus!
