use rs_diffcopy::cli::Cli;
use rs_diffcopy::config::{AppSettings, Config, InputConfig};
use rs_diffcopy::error::DiffCopyError;
use rs_diffcopy::types::{CheckPermissionsMode, ColorMode, LogLevel, MergeStyle};

fn cli() -> Cli {
    Cli {
        source: Some("src".to_string()),
        target: Some("dst".to_string()),
        output: Some("out".to_string()),
        config: None,
        exclude: vec![],
        force: false,
        summary: None,
        verbose: false,
        dry_run: false,
        both_versions: false,
        check_permissions: "none".to_string(),
        patch: false,
        patch_file: None,
        excel: None,
        excel_fold_level: None,
        show_unchanged: false,
        save_config: None,
        filter_status: vec![],
        stats_only: false,
        no_tree: false,
        no_details: false,
        copy_deleted: false,
        preserve_timestamps: false,
        workers: None,
        temp_dir: None,
        color: "auto".to_string(),
        log_level: "warn".to_string(),
        three_way: false,
        base: None,
        merge_style: "all".to_string(),
        conflict_only: false,
    }
}

fn input() -> InputConfig {
    InputConfig {
        source: Some("file_src".to_string()),
        target: Some("file_dst".to_string()),
        output: Some("file_out".to_string()),
        exclude: vec!["*.tmp".to_string()],
        force: false,
        verbose: true,
        dry_run: false,
        both_versions: true,
        summary: None,
        check_permissions: Some("all".to_string()),
        patch: false,
        patch_file: None,
        excel: None,
        excel_fold_level: None,
        show_unchanged: false,
        filter_status: vec![],
        stats_only: false,
        no_tree: false,
        no_details: false,
        copy_deleted: false,
        preserve_timestamps: false,
        workers: Some(3),
        temp_dir: None,
        color: None,
        log_level: None,
        three_way: false,
        base: None,
        merge_style: None,
        conflict_only: false,
    }
}

fn settings() -> AppSettings {
    AppSettings {
        temp_dir: None,
        workers: Some(7),
        color: Some("never".to_string()),
        log_level: Some("debug".to_string()),
        default_exclude: Some(vec![".git".to_string()]),
    }
}

#[test]
fn command_line_alone_gives_defaults() {
    let c = Config::from_cli(&cli(), &None, &AppSettings::default(), 4).unwrap();
    assert_eq!((c.source.as_str(), c.target.as_str(), c.output.as_str()), ("src", "dst", "out"));
    assert_eq!(c.workers, 4);
    assert_eq!(c.check_permissions, CheckPermissionsMode::Off);
    assert_eq!(c.color, ColorMode::Auto);
    assert_eq!(c.log_level, LogLevel::Warn);
    assert_eq!(c.merge_style, MergeStyle::All);
    assert!(c.exclude.is_empty());
}

#[test]
fn command_line_wins_over_files_and_excludes_accumulate() {
    let mut a = cli();
    a.exclude = vec!["*.log".to_string()];
    let c = Config::from_cli(&a, &Some(input()), &settings(), 4).unwrap();
    assert_eq!(c.source, "src");
    assert!(c.verbose && c.both_versions);
    assert_eq!(c.workers, 3);
    assert_eq!(c.exclude, vec![".git".to_string(), "*.tmp".to_string(), "*.log".to_string()]);
    assert_eq!(c.color, ColorMode::Never);
    assert_eq!(c.log_level, LogLevel::Debug);
    assert_eq!(c.check_permissions, CheckPermissionsMode::All);
}

#[test]
fn config_file_fills_missing_paths() {
    let mut a = cli();
    a.source = None;
    let c = Config::from_cli(&a, &Some(input()), &settings(), 4).unwrap();
    assert_eq!(c.source, "file_src");
    assert_eq!(c.target, "dst");
}

#[test]
fn missing_source_is_an_error() {
    let mut a = cli();
    a.source = None;
    match Config::from_cli(&a, &None, &AppSettings::default(), 1) {
        Err(DiffCopyError::MissingConfigField(f)) => assert_eq!(f, "source"),
        other => panic!("unexpected {:?}", other.map(|c| c.source)),
    }
}

#[test]
fn invalid_mode_names_are_errors() {
    let mut a = cli();
    a.merge_style = "middle".to_string();
    assert!(matches!(Config::from_cli(&a, &None, &AppSettings::default(), 1), Err(DiffCopyError::InvalidMergeStyle(_))));
}

#[test]
fn filtering_unchanged_shows_unchanged() {
    let mut a = cli();
    a.filter_status = vec!["unchanged".to_string()];
    let c = Config::from_cli(&a, &None, &AppSettings::default(), 1).unwrap();
    assert!(c.show_unchanged);
}

#[test]
fn saved_configuration_lists_the_options() {
    let mut a = cli();
    a.exclude = vec!["*.log".to_string()];
    a.patch = true;
    let c = Config::from_cli(&a, &None, &AppSettings::default(), 1).unwrap();
    let text = c.to_toml_string();
    let lines: Vec<&str> = text.lines().collect();
    assert_eq!(lines[0], "# rs_diffcopy 設定ファイル");
    assert!(lines.contains(&"source = \"src\"  # 比較元ディレクトリ（変更する場合はパスを修正してください）"));
    assert!(lines.contains(&"force = false"));
    assert!(lines.contains(&"# dry_run = false"));
    assert!(lines.contains(&"patch = true  # 個別パッチファイル生成"));
    assert!(lines.contains(&"check_permissions = \"none\"  # none / scripts / all"));
    assert!(lines.contains(&"    \"*.log\","));
    assert_eq!(*lines.last().unwrap(), "]");
    assert!(!text.ends_with('\n'));
}
