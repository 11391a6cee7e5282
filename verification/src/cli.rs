//! Command-line options, as plain values.
use vstd::prelude::*;

use crate::error::DiffCopyError;
use crate::filter::{entries_valid, filter_error, filter_outcome_ok, parse_filter_status_vec};
use crate::text::lowercase;
use crate::types::{CheckPermissionsMode, ColorMode, LogLevel, MergeStyle, StatusFilter};

verus! {

/// The command-line options; paths are held as text.
#[derive(Debug, Clone)]
pub struct Cli {
    pub source: Option<String>,
    pub target: Option<String>,
    pub output: Option<String>,
    pub config: Option<String>,
    pub exclude: Vec<String>,
    pub force: bool,
    pub summary: Option<String>,
    pub verbose: bool,
    pub dry_run: bool,
    pub both_versions: bool,
    pub check_permissions: String,
    pub patch: bool,
    pub patch_file: Option<String>,
    pub excel: Option<String>,
    pub excel_fold_level: Option<usize>,
    pub show_unchanged: bool,
    pub save_config: Option<String>,
    pub filter_status: Vec<String>,
    pub stats_only: bool,
    pub no_tree: bool,
    pub no_details: bool,
    pub copy_deleted: bool,
    pub preserve_timestamps: bool,
    pub workers: Option<usize>,
    pub temp_dir: Option<String>,
    pub color: String,
    pub log_level: String,
    pub three_way: bool,
    pub base: Option<String>,
    pub merge_style: String,
    pub conflict_only: bool,
}

impl Cli {
    /// The permission check mode that `--check-permissions` names.
    pub fn get_check_permissions_mode(&self) -> (r: Option<CheckPermissionsMode>)
        ensures
            r == CheckPermissionsMode::keyword(lowercase(self.check_permissions@)),
    {
        CheckPermissionsMode::from_str(self.check_permissions.as_str())
    }

    /// The merge style that `--merge-style` names.
    pub fn get_merge_style(&self) -> (r: Option<MergeStyle>)
        ensures
            r == MergeStyle::keyword(lowercase(self.merge_style@)),
    {
        MergeStyle::from_str(self.merge_style.as_str())
    }

    /// The color mode that `--color` names.
    pub fn get_color_mode(&self) -> (r: Option<ColorMode>)
        ensures
            r == ColorMode::keyword(lowercase(self.color@)),
    {
        ColorMode::from_str(self.color.as_str())
    }

    /// The log level that `--log-level` names.
    pub fn get_log_level(&self) -> (r: Option<LogLevel>)
        ensures
            r == LogLevel::keyword(lowercase(self.log_level@)),
    {
        LogLevel::from_str(self.log_level.as_str())
    }

    /// The filter that the `--filter-status` entries describe.
    pub fn parse_filter_status(&self) -> (r: Result<StatusFilter, DiffCopyError>)
        ensures
            r is Ok <==> entries_valid(self.filter_status@.map_values(|s: String| s@)),
            match r {
                Ok(f) => filter_outcome_ok(self.filter_status@.map_values(|s: String| s@), f),
                Err(e) => filter_error(self.filter_status@, e),
            },
    {
        parse_filter_status_vec(&self.filter_status)
    }
}

} // verus!
