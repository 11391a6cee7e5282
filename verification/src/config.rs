//! Configuration: application settings, configuration files and the merged
//! configuration of a run, and its TOML rendering.
use vstd::prelude::*;

use crate::cli::Cli;
use crate::error::DiffCopyError;
use crate::filter::{entries_valid, filter_error, filter_outcome_ok, parse_filter_status_vec};
use crate::text::{bool_str, bool_text, cat2, cat3, debug_escape, debug_quoted, decimal, decimal_string, join, join_strings, lowercase};
use crate::types::{CheckPermissionsMode, ColorMode, LogLevel, MergeStyle, StatusFilter};

verus! {

/// Application-wide settings (`settings.toml` beside the executable).
#[derive(Debug, Clone)]
pub struct AppSettings {
    pub temp_dir: Option<String>,
    pub workers: Option<usize>,
    pub color: Option<String>,
    pub log_level: Option<String>,
    pub default_exclude: Option<Vec<String>>,
}

impl Default for AppSettings {
    fn default() -> (r: AppSettings)
        ensures
            r.temp_dir is None && r.workers is None && r.color is None && r.log_level is None
                && r.default_exclude is None,
    {
        AppSettings { temp_dir: None, workers: None, color: None, log_level: None, default_exclude: None }
    }
}

/// A configuration file (`diffcopy.toml`); paths are held as text.
#[derive(Debug, Clone)]
pub struct InputConfig {
    pub source: Option<String>,
    pub target: Option<String>,
    pub output: Option<String>,
    pub exclude: Vec<String>,
    pub force: bool,
    pub verbose: bool,
    pub dry_run: bool,
    pub both_versions: bool,
    pub summary: Option<String>,
    pub check_permissions: Option<String>,
    pub patch: bool,
    pub patch_file: Option<String>,
    pub excel: Option<String>,
    pub excel_fold_level: Option<usize>,
    pub show_unchanged: bool,
    pub filter_status: Vec<String>,
    pub stats_only: bool,
    pub no_tree: bool,
    pub no_details: bool,
    pub copy_deleted: bool,
    pub preserve_timestamps: bool,
    pub workers: Option<usize>,
    pub temp_dir: Option<String>,
    pub color: Option<String>,
    pub log_level: Option<String>,
    pub three_way: bool,
    pub base: Option<String>,
    pub merge_style: Option<String>,
    pub conflict_only: bool,
}

/// Whether a flag is off (such flags are left out of a written file).
pub fn is_false(b: &bool) -> (r: bool)
    ensures
        r == !*b,
{
    !*b
}

/// The merged configuration of a run; paths are held as text.
#[derive(Debug, Clone)]
pub struct Config {
    pub source: String,
    pub target: String,
    pub output: String,
    pub exclude: Vec<String>,
    pub force: bool,
    pub verbose: bool,
    pub dry_run: bool,
    pub both_versions: bool,
    pub summary: Option<String>,
    pub check_permissions: CheckPermissionsMode,
    pub patch: bool,
    pub patch_file: Option<String>,
    pub excel: Option<String>,
    pub excel_fold_level: Option<usize>,
    pub show_unchanged: bool,
    pub filter_status: StatusFilter,
    pub stats_only: bool,
    pub no_tree: bool,
    pub no_details: bool,
    pub copy_deleted: bool,
    pub preserve_timestamps: bool,
    pub workers: usize,
    pub temp_dir: Option<String>,
    pub color: ColorMode,
    pub log_level: LogLevel,
    pub three_way: bool,
    pub base: Option<String>,
    pub merge_style: MergeStyle,
    pub conflict_only: bool,
    pub save_config: Option<String>,
}

impl Default for Config {
    fn default() -> (r: Config)
        ensures
            r.source@.len() == 0 && r.target@.len() == 0 && r.output@.len() == 0,
            r.exclude@.len() == 0,
            !r.force && !r.verbose && !r.dry_run && !r.both_versions && !r.patch && !r.show_unchanged,
            !r.stats_only && !r.no_tree && !r.no_details && !r.copy_deleted && !r.preserve_timestamps,
            !r.three_way && !r.conflict_only,
            r.summary is None && r.patch_file is None && r.excel is None && r.excel_fold_level is None,
            r.temp_dir is None && r.base is None && r.save_config is None,
            r.check_permissions == CheckPermissionsMode::Off,
            r.filter_status.blank(),
            r.workers == 1,
            r.color == ColorMode::Auto,
            r.log_level == LogLevel::Warn,
            r.merge_style == MergeStyle::All,
    {
        Config {
            source: String::new(),
            target: String::new(),
            output: String::new(),
            exclude: Vec::new(),
            force: false,
            verbose: false,
            dry_run: false,
            both_versions: false,
            summary: None,
            check_permissions: CheckPermissionsMode::Off,
            patch: false,
            patch_file: None,
            excel: None,
            excel_fold_level: None,
            show_unchanged: false,
            filter_status: StatusFilter::new(),
            stats_only: false,
            no_tree: false,
            no_details: false,
            copy_deleted: false,
            preserve_timestamps: false,
            workers: 1,
            temp_dir: None,
            color: ColorMode::Auto,
            log_level: LogLevel::Warn,
            three_way: false,
            base: None,
            merge_style: MergeStyle::All,
            conflict_only: false,
            save_config: None,
        }
    }
}

/// The first present value.
pub open spec fn first_of<T>(a: Option<T>, b: Option<T>) -> Option<T> {
    if a is Some { a } else { b }
}

/// A field of the configuration file, when there is one.
pub open spec fn from_file<T>(ic: Option<InputConfig>, f: spec_fn(InputConfig) -> Option<T>) -> Option<T> {
    match ic {
        Some(c) => f(c),
        None => None,
    }
}

/// A flag of the configuration file (off when there is no file).
pub open spec fn file_flag(ic: Option<InputConfig>, f: spec_fn(InputConfig) -> bool) -> bool {
    match ic {
        Some(c) => f(c),
        None => false,
    }
}

/// The text that names the permission check mode: the command line's unless
/// it is the default `none`, else the configuration file's.
pub open spec fn permission_text(cli: Cli, ic: Option<InputConfig>) -> Option<String> {
    if cli.check_permissions@ != "none"@ {
        Some(cli.check_permissions)
    } else {
        from_file(ic, |c: InputConfig| c.check_permissions)
    }
}

/// The text that names the merge style: the command line's unless it is the
/// default `all`, else the configuration file's.
pub open spec fn merge_text(cli: Cli, ic: Option<InputConfig>) -> Option<String> {
    if cli.merge_style@ != "all"@ {
        Some(cli.merge_style)
    } else {
        from_file(ic, |c: InputConfig| c.merge_style)
    }
}

/// The text that names the color mode: the command line's unless it is the
/// default `auto`, else the configuration file's, else the settings'.
pub open spec fn color_text(cli: Cli, ic: Option<InputConfig>, app: AppSettings) -> Option<String> {
    if cli.color@ != "auto"@ {
        Some(cli.color)
    } else {
        first_of(from_file(ic, |c: InputConfig| c.color), app.color)
    }
}

/// The text that names the log level: the command line's unless it is the
/// default `warn`, else the configuration file's, else the settings'.
pub open spec fn log_text(cli: Cli, ic: Option<InputConfig>, app: AppSettings) -> Option<String> {
    if cli.log_level@ != "warn"@ {
        Some(cli.log_level)
    } else {
        first_of(from_file(ic, |c: InputConfig| c.log_level), app.log_level)
    }
}

/// The filter entries in force: the command line's if it gives any, else the
/// configuration file's.
pub open spec fn filter_entries(cli: Cli, ic: Option<InputConfig>) -> Seq<String> {
    if cli.filter_status@.len() > 0 {
        cli.filter_status@
    } else {
        match ic {
            Some(c) => c.filter_status@,
            None => Seq::empty(),
        }
    }
}

/// A missing required path names its field.
pub open spec fn missing_field(e: DiffCopyError, name: Seq<char>) -> bool {
    e matches DiffCopyError::MissingConfigField(f) && f@ == name
}

/// The error that merging reports, in the order the checks run: a missing
/// source, target or output path, then an unknown permission mode, merge
/// style, color mode or log level, then the first invalid filter entry.
pub open spec fn merge_error(cli: Cli, ic: Option<InputConfig>, app: AppSettings, e: DiffCopyError) -> bool {
    if first_of(cli.source, from_file(ic, |c: InputConfig| c.source)) is None {
        missing_field(e, "source"@)
    } else if first_of(cli.target, from_file(ic, |c: InputConfig| c.target)) is None {
        missing_field(e, "target"@)
    } else if first_of(cli.output, from_file(ic, |c: InputConfig| c.output)) is None {
        missing_field(e, "output"@)
    } else if permission_text(cli, ic) is Some
        && CheckPermissionsMode::keyword(lowercase(permission_text(cli, ic)->0@)) is None {
        e == DiffCopyError::InvalidCheckPermissionsMode(permission_text(cli, ic)->0)
    } else if merge_text(cli, ic) is Some && MergeStyle::keyword(lowercase(merge_text(cli, ic)->0@)) is None {
        e == DiffCopyError::InvalidMergeStyle(merge_text(cli, ic)->0)
    } else if color_text(cli, ic, app) is Some
        && ColorMode::keyword(lowercase(color_text(cli, ic, app)->0@)) is None {
        e == DiffCopyError::InvalidColorMode(color_text(cli, ic, app)->0)
    } else if log_text(cli, ic, app) is Some && LogLevel::keyword(lowercase(log_text(cli, ic, app)->0@)) is None {
        e == DiffCopyError::InvalidLogLevel(log_text(cli, ic, app)->0)
    } else {
        filter_error(filter_entries(cli, ic), e)
    }
}

/// Whether merging succeeds.
pub open spec fn merge_succeeds(cli: Cli, ic: Option<InputConfig>, app: AppSettings) -> bool {
    &&& first_of(cli.source, from_file(ic, |c: InputConfig| c.source)) is Some
    &&& first_of(cli.target, from_file(ic, |c: InputConfig| c.target)) is Some
    &&& first_of(cli.output, from_file(ic, |c: InputConfig| c.output)) is Some
    &&& (permission_text(cli, ic) matches Some(t) ==> CheckPermissionsMode::keyword(lowercase(t@)) is Some)
    &&& (merge_text(cli, ic) matches Some(t) ==> MergeStyle::keyword(lowercase(t@)) is Some)
    &&& (color_text(cli, ic, app) matches Some(t) ==> ColorMode::keyword(lowercase(t@)) is Some)
    &&& (log_text(cli, ic, app) matches Some(t) ==> LogLevel::keyword(lowercase(t@)) is Some)
    &&& entries_valid(filter_entries(cli, ic).map_values(|s: String| s@))
}

/// The setting that a text names, or the default when there is no text.
pub open spec fn named_or<T>(text: Option<String>, parse: spec_fn(Seq<char>) -> Option<T>, default: T) -> T {
    match text {
        Some(t) => parse(lowercase(t@))->0,
        None => default,
    }
}

/// The merged configuration: the command line wins over the configuration
/// file, which wins over the application settings, which win over the
/// defaults; flags are on when any source sets them; exclusion patterns of
/// all sources are kept, settings first.
pub open spec fn merged(c: Config, cli: Cli, ic: Option<InputConfig>, app: AppSettings, default_workers: usize) -> bool {
    let app_exclude: Seq<String> = match app.default_exclude {
        Some(v) => v@,
        None => Seq::empty(),
    };
    let file_exclude: Seq<String> = match ic {
        Some(f) => f.exclude@,
        None => Seq::empty(),
    };
    &&& Some(c.source) == first_of(cli.source, from_file(ic, |f: InputConfig| f.source))
    &&& Some(c.target) == first_of(cli.target, from_file(ic, |f: InputConfig| f.target))
    &&& Some(c.output) == first_of(cli.output, from_file(ic, |f: InputConfig| f.output))
    &&& c.exclude@ == app_exclude + file_exclude + cli.exclude@
    &&& c.force == (cli.force || file_flag(ic, |f: InputConfig| f.force))
    &&& c.verbose == (cli.verbose || file_flag(ic, |f: InputConfig| f.verbose))
    &&& c.dry_run == (cli.dry_run || file_flag(ic, |f: InputConfig| f.dry_run))
    &&& c.both_versions == (cli.both_versions || file_flag(ic, |f: InputConfig| f.both_versions))
    &&& c.stats_only == (cli.stats_only || file_flag(ic, |f: InputConfig| f.stats_only))
    &&& c.no_tree == (cli.no_tree || file_flag(ic, |f: InputConfig| f.no_tree))
    &&& c.no_details == (cli.no_details || file_flag(ic, |f: InputConfig| f.no_details))
    &&& c.copy_deleted == (cli.copy_deleted || file_flag(ic, |f: InputConfig| f.copy_deleted))
    &&& c.preserve_timestamps == (cli.preserve_timestamps || file_flag(ic, |f: InputConfig| f.preserve_timestamps))
    &&& c.patch == (cli.patch || file_flag(ic, |f: InputConfig| f.patch))
    &&& c.three_way == (cli.three_way || file_flag(ic, |f: InputConfig| f.three_way))
    &&& c.conflict_only == (cli.conflict_only || file_flag(ic, |f: InputConfig| f.conflict_only))
    &&& c.summary == first_of(cli.summary, from_file(ic, |f: InputConfig| f.summary))
    &&& c.patch_file == first_of(cli.patch_file, from_file(ic, |f: InputConfig| f.patch_file))
    &&& c.excel == first_of(cli.excel, from_file(ic, |f: InputConfig| f.excel))
    &&& c.excel_fold_level == first_of(cli.excel_fold_level, from_file(ic, |f: InputConfig| f.excel_fold_level))
    &&& c.base == first_of(cli.base, from_file(ic, |f: InputConfig| f.base))
    &&& c.temp_dir == first_of(first_of(cli.temp_dir, from_file(ic, |f: InputConfig| f.temp_dir)), app.temp_dir)
    &&& c.check_permissions == named_or(permission_text(cli, ic), |k: Seq<char>| CheckPermissionsMode::keyword(k), CheckPermissionsMode::Off)
    &&& c.merge_style == named_or(merge_text(cli, ic), |k: Seq<char>| MergeStyle::keyword(k), MergeStyle::All)
    &&& c.color == named_or(color_text(cli, ic, app), |k: Seq<char>| ColorMode::keyword(k), ColorMode::Auto)
    &&& c.log_level == named_or(log_text(cli, ic, app), |k: Seq<char>| LogLevel::keyword(k), LogLevel::Warn)
    &&& Some(c.workers) == first_of(first_of(first_of(cli.workers, from_file(ic, |f: InputConfig| f.workers)), app.workers), Some(default_workers))
    &&& filter_outcome_ok(filter_entries(cli, ic).map_values(|s: String| s@), c.filter_status)
    &&& c.show_unchanged == (cli.show_unchanged || file_flag(ic, |f: InputConfig| f.show_unchanged)
        || c.filter_status.included@.contains("unchanged"@)
        || (c.filter_status.include_all && !c.filter_status.excluded@.contains("unchanged"@)))
    &&& c.save_config == cli.save_config
}

/// A copy of an optional text.
pub fn clone_text(o: &Option<String>) -> (r: Option<String>)
    ensures
        r == *o,
{
    match o {
        Some(s) => Some(s.clone()),
        None => None,
    }
}

fn pick_text(a: &Option<String>, b: &Option<String>) -> (r: Option<String>)
    ensures
        r == first_of(*a, *b),
{
    if a.is_some() { clone_text(a) } else { clone_text(b) }
}

fn append_strings(out: &mut Vec<String>, src: &Vec<String>)
    ensures
        final(out)@ == old(out)@ + src@,
{
    let mut i: usize = 0;
    while i < src.len()
        invariant
            i <= src@.len(),
            out@ == old(out)@ + src@.take(i as int),
        decreases src@.len() - i,
    {
        out.push(src[i].clone());
        proof {
            assert(src@.take(i + 1) =~= src@.take(i as int).push(src@[i as int]));
        }
        i = i + 1;
    }
    proof {
        assert(src@.take(i as int) =~= src@);
    }
}


fn resolve_permissions(cli: &Cli, input_config: &Option<InputConfig>) -> (r: Result<CheckPermissionsMode, DiffCopyError>)
    ensures
        match r {
            Ok(m) => (permission_text(*cli, *input_config) matches Some(t) ==> CheckPermissionsMode::keyword(lowercase(t@)) is Some)
                && m == named_or(permission_text(*cli, *input_config), |k: Seq<char>| CheckPermissionsMode::keyword(k), CheckPermissionsMode::Off),
            Err(e) => permission_text(*cli, *input_config) is Some
                && CheckPermissionsMode::keyword(lowercase(permission_text(*cli, *input_config)->0@)) is None
                && e == DiffCopyError::InvalidCheckPermissionsMode(permission_text(*cli, *input_config)->0),
        },
{
    if !crate::text::str_equal(cli.check_permissions.as_str(), "none") {
        match cli.get_check_permissions_mode() {
            Some(m) => Ok(m),
            None => Err(DiffCopyError::InvalidCheckPermissionsMode(cli.check_permissions.clone())),
        }
    } else {
        match input_config {
            Some(c) => match &c.check_permissions {
                Some(cp) => match CheckPermissionsMode::from_str(cp.as_str()) {
                    Some(m) => Ok(m),
                    None => Err(DiffCopyError::InvalidCheckPermissionsMode(cp.clone())),
                },
                None => Ok(CheckPermissionsMode::Off),
            },
            None => Ok(CheckPermissionsMode::Off),
        }
    }
}

fn resolve_merge_style(cli: &Cli, input_config: &Option<InputConfig>) -> (r: Result<MergeStyle, DiffCopyError>)
    ensures
        match r {
            Ok(m) => (merge_text(*cli, *input_config) matches Some(t) ==> MergeStyle::keyword(lowercase(t@)) is Some)
                && m == named_or(merge_text(*cli, *input_config), |k: Seq<char>| MergeStyle::keyword(k), MergeStyle::All),
            Err(e) => merge_text(*cli, *input_config) is Some
                && MergeStyle::keyword(lowercase(merge_text(*cli, *input_config)->0@)) is None
                && e == DiffCopyError::InvalidMergeStyle(merge_text(*cli, *input_config)->0),
        },
{
    if !crate::text::str_equal(cli.merge_style.as_str(), "all") {
        match cli.get_merge_style() {
            Some(m) => Ok(m),
            None => Err(DiffCopyError::InvalidMergeStyle(cli.merge_style.clone())),
        }
    } else {
        match input_config {
            Some(c) => match &c.merge_style {
                Some(ms) => match MergeStyle::from_str(ms.as_str()) {
                    Some(m) => Ok(m),
                    None => Err(DiffCopyError::InvalidMergeStyle(ms.clone())),
                },
                None => Ok(MergeStyle::All),
            },
            None => Ok(MergeStyle::All),
        }
    }
}

fn resolve_color(cli: &Cli, input_config: &Option<InputConfig>, app_settings: &AppSettings) -> (r: Result<ColorMode, DiffCopyError>)
    ensures
        match r {
            Ok(m) => (color_text(*cli, *input_config, *app_settings) matches Some(t) ==> ColorMode::keyword(lowercase(t@)) is Some)
                && m == named_or(color_text(*cli, *input_config, *app_settings), |k: Seq<char>| ColorMode::keyword(k), ColorMode::Auto),
            Err(e) => color_text(*cli, *input_config, *app_settings) is Some
                && ColorMode::keyword(lowercase(color_text(*cli, *input_config, *app_settings)->0@)) is None
                && e == DiffCopyError::InvalidColorMode(color_text(*cli, *input_config, *app_settings)->0),
        },
{
    if !crate::text::str_equal(cli.color.as_str(), "auto") {
        match cli.get_color_mode() {
            Some(m) => Ok(m),
            None => Err(DiffCopyError::InvalidColorMode(cli.color.clone())),
        }
    } else {
        let text = match input_config {
            Some(c) => pick_text(&c.color, &app_settings.color),
            None => clone_text(&app_settings.color),
        };
        match text {
            Some(t) => match ColorMode::from_str(t.as_str()) {
                Some(m) => Ok(m),
                None => Err(DiffCopyError::InvalidColorMode(t)),
            },
            None => Ok(ColorMode::Auto),
        }
    }
}

fn resolve_log_level(cli: &Cli, input_config: &Option<InputConfig>, app_settings: &AppSettings) -> (r: Result<LogLevel, DiffCopyError>)
    ensures
        match r {
            Ok(m) => (log_text(*cli, *input_config, *app_settings) matches Some(t) ==> LogLevel::keyword(lowercase(t@)) is Some)
                && m == named_or(log_text(*cli, *input_config, *app_settings), |k: Seq<char>| LogLevel::keyword(k), LogLevel::Warn),
            Err(e) => log_text(*cli, *input_config, *app_settings) is Some
                && LogLevel::keyword(lowercase(log_text(*cli, *input_config, *app_settings)->0@)) is None
                && e == DiffCopyError::InvalidLogLevel(log_text(*cli, *input_config, *app_settings)->0),
        },
{
    if !crate::text::str_equal(cli.log_level.as_str(), "warn") {
        match cli.get_log_level() {
            Some(m) => Ok(m),
            None => Err(DiffCopyError::InvalidLogLevel(cli.log_level.clone())),
        }
    } else {
        let text = match input_config {
            Some(c) => pick_text(&c.log_level, &app_settings.log_level),
            None => clone_text(&app_settings.log_level),
        };
        match text {
            Some(t) => match LogLevel::from_str(t.as_str()) {
                Some(m) => Ok(m),
                None => Err(DiffCopyError::InvalidLogLevel(t)),
            },
            None => Ok(LogLevel::Warn),
        }
    }
}

impl Config {
    /// Merges the command line, the configuration file (if one was read) and
    /// the application settings into the configuration of a run;
    /// `default_workers` is the worker count when no source sets one.
    #[verifier::rlimit(40)]
    pub fn from_cli(
        cli: &Cli,
        input_config: &Option<InputConfig>,
        app_settings: &AppSettings,
        default_workers: usize,
    ) -> (r: Result<Config, DiffCopyError>)
        ensures
            r is Ok <==> merge_succeeds(*cli, *input_config, *app_settings),
            match r {
                Ok(c) => merged(c, *cli, *input_config, *app_settings, default_workers),
                Err(e) => merge_error(*cli, *input_config, *app_settings, e),
            },
    {
        let ghost ic = *input_config;
        let source = match input_config {
            Some(c) => pick_text(&cli.source, &c.source),
            None => clone_text(&cli.source),
        };
        let source = match source {
            Some(s) => s,
            None => return Err(DiffCopyError::MissingConfigField("source".to_owned())),
        };
        let target = match input_config {
            Some(c) => pick_text(&cli.target, &c.target),
            None => clone_text(&cli.target),
        };
        let target = match target {
            Some(s) => s,
            None => return Err(DiffCopyError::MissingConfigField("target".to_owned())),
        };
        let output = match input_config {
            Some(c) => pick_text(&cli.output, &c.output),
            None => clone_text(&cli.output),
        };
        let output = match output {
            Some(s) => s,
            None => return Err(DiffCopyError::MissingConfigField("output".to_owned())),
        };

        let mut exclude: Vec<String> = Vec::new();
        if let Some(defaults) = &app_settings.default_exclude {
            append_strings(&mut exclude, defaults);
        }
        if let Some(c) = input_config {
            append_strings(&mut exclude, &c.exclude);
        }
        append_strings(&mut exclude, &cli.exclude);

        let (f_force, f_verbose, f_dry_run, f_both, f_unchanged, f_stats, f_no_tree, f_no_details) =
            match input_config {
                Some(c) => (c.force, c.verbose, c.dry_run, c.both_versions, c.show_unchanged, c.stats_only,
                    c.no_tree, c.no_details),
                None => (false, false, false, false, false, false, false, false),
            };
        let (f_copy_deleted, f_preserve, f_patch, f_three_way, f_conflict_only) = match input_config {
            Some(c) => (c.copy_deleted, c.preserve_timestamps, c.patch, c.three_way, c.conflict_only),
            None => (false, false, false, false, false),
        };

        let (summary, patch_file, excel, base, temp_dir_file, fold_file, workers_file) = match input_config {
            Some(c) => (
                pick_text(&cli.summary, &c.summary),
                pick_text(&cli.patch_file, &c.patch_file),
                pick_text(&cli.excel, &c.excel),
                pick_text(&cli.base, &c.base),
                pick_text(&cli.temp_dir, &c.temp_dir),
                if cli.excel_fold_level.is_some() { cli.excel_fold_level } else { c.excel_fold_level },
                if cli.workers.is_some() { cli.workers } else { c.workers },
            ),
            None => (
                clone_text(&cli.summary),
                clone_text(&cli.patch_file),
                clone_text(&cli.excel),
                clone_text(&cli.base),
                clone_text(&cli.temp_dir),
                cli.excel_fold_level,
                cli.workers,
            ),
        };
        let temp_dir = pick_text(&temp_dir_file, &app_settings.temp_dir);

        let check_permissions = match resolve_permissions(cli, input_config) {
            Ok(m) => m,
            Err(e) => return Err(e),
        };
        let merge_style = match resolve_merge_style(cli, input_config) {
            Ok(m) => m,
            Err(e) => return Err(e),
        };
        let color = match resolve_color(cli, input_config, app_settings) {
            Ok(m) => m,
            Err(e) => return Err(e),
        };
        let log_level = match resolve_log_level(cli, input_config, app_settings) {
            Ok(m) => m,
            Err(e) => return Err(e),
        };

        let workers = match workers_file {
            Some(w) => w,
            None => match app_settings.workers {
                Some(w) => w,
                None => default_workers,
            },
        };

        let no_entries: Vec<String> = Vec::new();
        let entries: &Vec<String> = if cli.filter_status.len() > 0 {
            &cli.filter_status
        } else {
            match input_config {
                Some(c) => &c.filter_status,
                None => &no_entries,
            }
        };
        proof {
            assert(entries@ == filter_entries(*cli, ic));
        }
        let filter_status = match parse_filter_status_vec(entries) {
            Ok(f) => f,
            Err(e) => return Err(e),
        };

        let show_unchanged = cli.show_unchanged || f_unchanged || filter_status.included.contains("unchanged")
            || (filter_status.include_all && !filter_status.excluded.contains("unchanged"));

        let c = Config {
            source,
            target,
            output,
            exclude,
            force: cli.force || f_force,
            verbose: cli.verbose || f_verbose,
            dry_run: cli.dry_run || f_dry_run,
            both_versions: cli.both_versions || f_both,
            summary,
            check_permissions,
            patch: cli.patch || f_patch,
            patch_file,
            excel,
            excel_fold_level: fold_file,
            show_unchanged,
            filter_status,
            stats_only: cli.stats_only || f_stats,
            no_tree: cli.no_tree || f_no_tree,
            no_details: cli.no_details || f_no_details,
            copy_deleted: cli.copy_deleted || f_copy_deleted,
            preserve_timestamps: cli.preserve_timestamps || f_preserve,
            workers,
            temp_dir,
            color,
            log_level,
            three_way: cli.three_way || f_three_way,
            base,
            merge_style,
            conflict_only: cli.conflict_only || f_conflict_only,
            save_config: clone_text(&cli.save_config),
        };
        proof {
            let app = *app_settings;
            let app_exclude: Seq<String> = match app.default_exclude {
                Some(v) => v@,
                None => Seq::empty(),
            };
            let file_exclude: Seq<String> = match ic {
                Some(f) => f.exclude@,
                None => Seq::empty(),
            };
            assert(c.exclude@ =~= app_exclude + file_exclude + cli.exclude@);
        }
        Ok(c)
    }
}

/// `name = "value"` followed by a comment, or the commented-out default.
pub open spec fn optional_line(value: Option<String>, prefix: Seq<char>, suffix: Seq<char>, absent: Seq<char>) -> Seq<char> {
    match value {
        Some(v) => prefix + v@ + suffix,
        None => absent,
    }
}

/// The lines of the first section: the file header and the required paths.
pub open spec fn toml_required_lines(c: Config) -> Seq<Seq<char>> {
    seq![
        "# rs_diffcopy 設定ファイル"@,
        "# このファイルは --save-config オプションにより自動生成されました"@,
        "# 設定を変更して再利用することができます"@,
        ""@,
        "# 必須設定"@,
        "source = \""@ + c.source@ + "\"  # 比較元ディレクトリ（変更する場合はパスを修正してください）"@,
        "target = \""@ + c.target@ + "\"  # 比較先ディレクトリ（変更する場合はパスを修正してください）"@,
        "output = \""@ + c.output@ + "\"  # 出力ディレクトリ（変更する場合はパスを修正してください）"@,
        ""@
    ]
}

/// The lines of the options section.
pub open spec fn toml_option_lines(c: Config) -> Seq<Seq<char>> {
    seq![
        "# オプション設定"@,
        "force = "@ + bool_text(c.force),
        "verbose = "@ + bool_text(c.verbose),
        "# 注: dry_run はこの設定ファイルでは無効になっています"@,
        "# 必要に応じてコメントを外してください"@,
        "# dry_run = "@ + bool_text(c.dry_run),
        "both_versions = "@ + bool_text(c.both_versions),
        optional_line(c.summary, "summary = \""@, "\""@, "# summary = \"./summary.txt\"  # サマリー出力ファイル"@),
        "check_permissions = \""@ + c.check_permissions.name() + "\"  # none / scripts / all"@,
        "patch = "@ + bool_text(c.patch) + "  # 個別パッチファイル生成"@,
        optional_line(c.patch_file, "patch_file = \""@, "\"  # 統合パッチファイル"@, "# patch_file = \"\"  # 統合パッチファイル（空欄で無効）"@),
        optional_line(c.excel, "excel = \""@, "\"  # Excel出力ファイル"@, "# excel = \"\"  # Excel出力ファイル（空欄で無効）"@),
        match c.excel_fold_level {
            Some(level) => "excel_fold_level = "@ + decimal(level as nat) + "  # Excelファイルツリーの折りたたみレベル"@,
            None => "# excel_fold_level = 2  # Excelファイルツリーの折りたたみレベル（省略時は折りたたみなし）"@,
        },
        "show_unchanged = "@ + bool_text(c.show_unchanged) + "  # 変更なしファイルをサマリーに表示"@,
        ""@
    ]
}

/// The lines of the three-way section.
pub open spec fn toml_three_way_lines(c: Config) -> Seq<Seq<char>> {
    seq![
        "# 三者間比較オプション"@,
        "three_way = "@ + bool_text(c.three_way) + "  # 三者間比較モード"@,
        optional_line(c.base, "base = \""@, "\"  # 共通祖先ディレクトリ"@, "# base = \"./base_version\"  # 共通祖先ディレクトリ"@),
        "merge_style = \""@ + c.merge_style.name() + "\"  # all / ours / theirs"@,
        "conflict_only = "@ + bool_text(c.conflict_only) + "  # コンフリクトのみ出力"@,
        ""@
    ]
}

/// How `{:?}` writes a list of strings.
pub open spec fn debug_list(items: Seq<Seq<char>>) -> Seq<char> {
    "["@ + join(items.map_values(|k: Seq<char>| seq!['"'] + debug_escape(k) + seq!['"']), ", "@) + "]"@
}

/// The lines of the filter section: the shown statuses of a filter that has
/// some (in order), the commented example for a blank filter.
pub open spec fn toml_filter_lines(c: Config) -> Seq<Seq<char>> {
    let f = c.filter_status;
    let head: Seq<Seq<char>> = if !f.blank() {
        if f.included@.len() > 0 {
            seq!["# 出力フィルター設定"@, "filter_status = "@ + debug_list(f.included@) + "  # 表示するステータス"@]
        } else {
            seq!["# 出力フィルター設定"@]
        }
    } else {
        seq![
            "# 出力フィルター設定"@,
            "# filter_status = [\"added\", \"modified\"]  # 表示するステータス（省略時は全て表示）"@
        ]
    };
    head + seq![
        "stats_only = "@ + bool_text(c.stats_only) + "  # 統計情報のみ表示"@,
        "no_tree = "@ + bool_text(c.no_tree) + "  # File Treeセクション非表示"@,
        "no_details = "@ + bool_text(c.no_details) + "  # 詳細セクション非表示"@,
        ""@
    ]
}

/// The lines of the copy section.
pub open spec fn toml_copy_lines(c: Config) -> Seq<Seq<char>> {
    seq![
        "# コピーオプション"@,
        "copy_deleted = "@ + bool_text(c.copy_deleted) + "  # 削除ファイルもコピー"@,
        "preserve_timestamps = "@ + bool_text(c.preserve_timestamps) + "  # タイムスタンプを保持"@,
        ""@
    ]
}

/// The lines of the exclusion section.
pub open spec fn toml_exclude_lines(c: Config) -> Seq<Seq<char>> {
    if c.exclude@.len() > 0 {
        seq!["# 除外パターン（glob形式、複数指定可）"@, "exclude = ["@]
            + c.exclude@.map_values(|p: String| "    \""@ + p@ + "\","@)
            + seq!["]"@]
    } else {
        seq![
            "# 除外パターン（glob形式、複数指定可）"@,
            "# exclude = ["@,
            "#     \"*.log\","@,
            "#     \"*.tmp\","@,
            "#     \"node_modules\","@,
            "#     \".git\","@,
            "# ]"@
        ]
    }
}

/// All lines of a saved configuration file.
pub open spec fn toml_lines(c: Config) -> Seq<Seq<char>> {
    toml_required_lines(c) + toml_option_lines(c) + toml_three_way_lines(c) + toml_filter_lines(c)
        + toml_copy_lines(c) + toml_exclude_lines(c)
}

/// The views of a list of strings.
pub open spec fn views(v: Seq<String>) -> Seq<Seq<char>> {
    v.map_values(|s: String| s@)
}

fn push_line(lines: &mut Vec<String>, line: String)
    ensures
        views(final(lines)@) == views(old(lines)@).push(line@),
{
    let ghost before = lines@;
    lines.push(line);
    proof {
        assert(views(lines@) =~= views(before).push(line@));
    }
}

fn optional_text_line(value: &Option<String>, prefix: &str, suffix: &str, absent: &str) -> (r: String)
    ensures
        r@ == optional_line(*value, prefix@, suffix@, absent@),
{
    match value {
        Some(v) => cat3(prefix, v.as_str(), suffix),
        None => absent.to_owned(),
    }
}

impl Config {
    fn required_lines(&self) -> (r: Vec<String>)
        ensures
            views(r@) == toml_required_lines(*self),
    {
        let mut lines: Vec<String> = Vec::new();
        push_line(&mut lines, "# rs_diffcopy 設定ファイル".to_owned());
        push_line(&mut lines, "# このファイルは --save-config オプションにより自動生成されました".to_owned());
        push_line(&mut lines, "# 設定を変更して再利用することができます".to_owned());
        push_line(&mut lines, "".to_owned());
        push_line(&mut lines, "# 必須設定".to_owned());
        push_line(&mut lines, cat3("source = \"", self.source.as_str(), "\"  # 比較元ディレクトリ（変更する場合はパスを修正してください）"));
        push_line(&mut lines, cat3("target = \"", self.target.as_str(), "\"  # 比較先ディレクトリ（変更する場合はパスを修正してください）"));
        push_line(&mut lines, cat3("output = \"", self.output.as_str(), "\"  # 出力ディレクトリ（変更する場合はパスを修正してください）"));
        push_line(&mut lines, "".to_owned());
        proof {
            assert(views(lines@) =~= toml_required_lines(*self));
        }
        lines
    }

    fn option_lines(&self) -> (r: Vec<String>)
        ensures
            views(r@) == toml_option_lines(*self),
    {
        let mut lines: Vec<String> = Vec::new();
        push_line(&mut lines, "# オプション設定".to_owned());
        push_line(&mut lines, cat2("force = ", bool_str(self.force)));
        push_line(&mut lines, cat2("verbose = ", bool_str(self.verbose)));
        push_line(&mut lines, "# 注: dry_run はこの設定ファイルでは無効になっています".to_owned());
        push_line(&mut lines, "# 必要に応じてコメントを外してください".to_owned());
        push_line(&mut lines, cat2("# dry_run = ", bool_str(self.dry_run)));
        push_line(&mut lines, cat2("both_versions = ", bool_str(self.both_versions)));
        push_line(&mut lines, optional_text_line(&self.summary, "summary = \"", "\"", "# summary = \"./summary.txt\"  # サマリー出力ファイル"));
        push_line(&mut lines, cat3("check_permissions = \"", self.check_permissions.as_str(), "\"  # none / scripts / all"));
        push_line(&mut lines, cat3("patch = ", bool_str(self.patch), "  # 個別パッチファイル生成"));
        push_line(&mut lines, optional_text_line(&self.patch_file, "patch_file = \"", "\"  # 統合パッチファイル", "# patch_file = \"\"  # 統合パッチファイル（空欄で無効）"));
        push_line(&mut lines, optional_text_line(&self.excel, "excel = \"", "\"  # Excel出力ファイル", "# excel = \"\"  # Excel出力ファイル（空欄で無効）"));
        let fold = match self.excel_fold_level {
            Some(level) => {
                let d = decimal_string(level as u64);
                cat3("excel_fold_level = ", d.as_str(), "  # Excelファイルツリーの折りたたみレベル")
            },
            None => "# excel_fold_level = 2  # Excelファイルツリーの折りたたみレベル（省略時は折りたたみなし）".to_owned(),
        };
        push_line(&mut lines, fold);
        push_line(&mut lines, cat3("show_unchanged = ", bool_str(self.show_unchanged), "  # 変更なしファイルをサマリーに表示"));
        push_line(&mut lines, "".to_owned());
        proof {
            assert(views(lines@) =~= toml_option_lines(*self));
        }
        lines
    }

    fn three_way_lines(&self) -> (r: Vec<String>)
        ensures
            views(r@) == toml_three_way_lines(*self),
    {
        let mut lines: Vec<String> = Vec::new();
        push_line(&mut lines, "# 三者間比較オプション".to_owned());
        push_line(&mut lines, cat3("three_way = ", bool_str(self.three_way), "  # 三者間比較モード"));
        push_line(&mut lines, optional_text_line(&self.base, "base = \"", "\"  # 共通祖先ディレクトリ", "# base = \"./base_version\"  # 共通祖先ディレクトリ"));
        push_line(&mut lines, cat3("merge_style = \"", self.merge_style.as_str(), "\"  # all / ours / theirs"));
        push_line(&mut lines, cat3("conflict_only = ", bool_str(self.conflict_only), "  # コンフリクトのみ出力"));
        push_line(&mut lines, "".to_owned());
        proof {
            assert(views(lines@) =~= toml_three_way_lines(*self));
        }
        lines
    }

    fn filter_lines(&self) -> (r: Vec<String>)
        ensures
            views(r@) == toml_filter_lines(*self),
    {
        let mut lines: Vec<String> = Vec::new();
        push_line(&mut lines, "# 出力フィルター設定".to_owned());
        if !self.filter_status.is_empty() {
            if !self.filter_status.included.is_empty() {
                let items = self.filter_status.included.to_vec();
                let mut quoted: Vec<String> = Vec::new();
                let mut i: usize = 0;
                while i < items.len()
                    invariant
                        i <= items@.len(),
                        views(items@) == self.filter_status.included@,
                        views(quoted@) == self.filter_status.included@.take(i as int).map_values(
                            |k: Seq<char>| seq!['"'] + debug_escape(k) + seq!['"'],
                        ),
                    decreases items@.len() - i,
                {
                    let q = debug_quoted(items[i].as_str());
                    proof {
                        assert(items@[i as int]@ == self.filter_status.included@[i as int]);
                    }
                    push_line(&mut quoted, q);
                    proof {
                        assert(self.filter_status.included@.take(i + 1).map_values(
                            |k: Seq<char>| seq!['"'] + debug_escape(k) + seq!['"'],
                        ) =~= self.filter_status.included@.take(i as int).map_values(
                            |k: Seq<char>| seq!['"'] + debug_escape(k) + seq!['"'],
                        ).push(q@));
                    }
                    i = i + 1;
                }
                proof {
                    assert(self.filter_status.included@.take(i as int) =~= self.filter_status.included@);
                }
                let list = join_strings(&quoted, ", ");
                let listed = cat3("[", list.as_str(), "]");
                push_line(&mut lines, cat3("filter_status = ", listed.as_str(), "  # 表示するステータス"));
            }
        } else {
            push_line(&mut lines, "# filter_status = [\"added\", \"modified\"]  # 表示するステータス（省略時は全て表示）".to_owned());
        }
        push_line(&mut lines, cat3("stats_only = ", bool_str(self.stats_only), "  # 統計情報のみ表示"));
        push_line(&mut lines, cat3("no_tree = ", bool_str(self.no_tree), "  # File Treeセクション非表示"));
        push_line(&mut lines, cat3("no_details = ", bool_str(self.no_details), "  # 詳細セクション非表示"));
        push_line(&mut lines, "".to_owned());
        proof {
            assert(views(lines@) =~= toml_filter_lines(*self));
        }
        lines
    }

    fn copy_lines(&self) -> (r: Vec<String>)
        ensures
            views(r@) == toml_copy_lines(*self),
    {
        let mut lines: Vec<String> = Vec::new();
        push_line(&mut lines, "# コピーオプション".to_owned());
        push_line(&mut lines, cat3("copy_deleted = ", bool_str(self.copy_deleted), "  # 削除ファイルもコピー"));
        push_line(&mut lines, cat3("preserve_timestamps = ", bool_str(self.preserve_timestamps), "  # タイムスタンプを保持"));
        push_line(&mut lines, "".to_owned());
        proof {
            assert(views(lines@) =~= toml_copy_lines(*self));
        }
        lines
    }

    fn exclude_lines(&self) -> (r: Vec<String>)
        ensures
            views(r@) == toml_exclude_lines(*self),
    {
        let mut lines: Vec<String> = Vec::new();
        push_line(&mut lines, "# 除外パターン（glob形式、複数指定可）".to_owned());
        if self.exclude.len() > 0 {
            push_line(&mut lines, "exclude = [".to_owned());
            let mut i: usize = 0;
            while i < self.exclude.len()
                invariant
                    i <= self.exclude@.len(),
                    views(lines@) == seq!["# 除外パターン（glob形式、複数指定可）"@, "exclude = ["@]
                        + self.exclude@.take(i as int).map_values(|p: String| "    \""@ + p@ + "\","@),
                decreases self.exclude@.len() - i,
            {
                push_line(&mut lines, cat3("    \"", self.exclude[i].as_str(), "\","));
                proof {
                    assert(self.exclude@.take(i + 1).map_values(|p: String| "    \""@ + p@ + "\","@)
                        =~= self.exclude@.take(i as int).map_values(|p: String| "    \""@ + p@ + "\","@).push(
                        "    \""@ + self.exclude@[i as int]@ + "\","@,
                    ));
                }
                i = i + 1;
            }
            push_line(&mut lines, "]".to_owned());
            proof {
                assert(self.exclude@.take(i as int) =~= self.exclude@);
            }
        } else {
            push_line(&mut lines, "# exclude = [".to_owned());
            push_line(&mut lines, "#     \"*.log\",".to_owned());
            push_line(&mut lines, "#     \"*.tmp\",".to_owned());
            push_line(&mut lines, "#     \"node_modules\",".to_owned());
            push_line(&mut lines, "#     \".git\",".to_owned());
            push_line(&mut lines, "# ]".to_owned());
        }
        proof {
            assert(views(lines@) =~= toml_exclude_lines(*self));
        }
        lines
    }

    /// The configuration as the text of a configuration file, with comments.
    pub fn to_toml_string(&self) -> (r: String)
        ensures
            r@ == join(toml_lines(*self), "\n"@),
    {
        let mut lines = self.required_lines();
        let mut more = self.option_lines();
        lines.append(&mut more);
        let mut more = self.three_way_lines();
        lines.append(&mut more);
        let mut more = self.filter_lines();
        lines.append(&mut more);
        let mut more = self.copy_lines();
        lines.append(&mut more);
        let mut more = self.exclude_lines();
        lines.append(&mut more);
        proof {
            assert(views(lines@) =~= toml_lines(*self));
        }
        join_strings(&lines, "\n")
    }
}

} // verus!
