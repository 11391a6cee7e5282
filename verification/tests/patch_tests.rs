use rs_diffcopy::config::Config;
use rs_diffcopy::patch::{is_binary_content, PatchGenerator};

fn create_test_config(source: &str, target: &str, output: &str) -> Config {
    let mut c = Config::default();
    c.source = source.to_string();
    c.target = target.to_string();
    c.output = output.to_string();
    c.patch = true;
    c
}

#[test]
fn test_patch_generator_new() {
    let config = create_test_config("tmp/source", "tmp/target", "tmp/output");
    let _generator = PatchGenerator::new(&config);
}

#[test]
fn test_create_unified_diff_simple() {
    let config = create_test_config("tmp/source", "tmp/target", "tmp/output");
    let generator = PatchGenerator::new(&config);

    let old_content = "line1\nline2\nline3\n";
    let new_content = "line1\nmodified\nline3\n";

    let diff = generator.create_unified_diff("test.txt", old_content, new_content);

    assert!(diff.contains("--- a/test.txt"));
    assert!(diff.contains("+++ b/test.txt"));
    assert!(diff.contains("-line2"));
    assert!(diff.contains("+modified"));
}

#[test]
fn test_create_unified_diff_addition() {
    let config = create_test_config("tmp/source", "tmp/target", "tmp/output");
    let generator = PatchGenerator::new(&config);

    let old_content = "line1\nline2\n";
    let new_content = "line1\nline2\nline3\n";

    let diff = generator.create_unified_diff("test.txt", old_content, new_content);

    assert!(diff.contains("+line3"));
}

#[test]
fn test_create_unified_diff_deletion() {
    let config = create_test_config("tmp/source", "tmp/target", "tmp/output");
    let generator = PatchGenerator::new(&config);

    let old_content = "line1\nline2\nline3\n";
    let new_content = "line1\nline3\n";

    let diff = generator.create_unified_diff("test.txt", old_content, new_content);

    assert!(diff.contains("-line2"));
}

#[test]
fn test_create_unified_diff_empty_to_content() {
    let config = create_test_config("tmp/source", "tmp/target", "tmp/output");
    let generator = PatchGenerator::new(&config);

    let old_content = "";
    let new_content = "new line\n";

    let diff = generator.create_unified_diff("test.txt", old_content, new_content);

    assert!(diff.contains("+new line"));
}

#[test]
fn test_create_unified_diff_no_changes() {
    let config = create_test_config("tmp/source", "tmp/target", "tmp/output");
    let generator = PatchGenerator::new(&config);

    let content = "line1\nline2\n";

    let diff = generator.create_unified_diff("test.txt", content, content);

    assert!(diff.contains("--- a/test.txt"));
    assert!(diff.contains("+++ b/test.txt"));
    assert!(!diff.contains("@@"));
}

#[test]
fn binary_detection_looks_for_nul_and_invalid_utf8() {
    assert!(!is_binary_content(b""));
    assert!(!is_binary_content("This is text.\n日本語も含む。".as_bytes()));
    assert!(is_binary_content(&[0x00, 0x01, 0x02, 0xFF]));
    assert!(is_binary_content(&[0xFF, 0xFE, 0x41]));
}

#[test]
fn unified_diff_has_header_and_hunk_counts() {
    let config = create_test_config("tmp/source", "tmp/target", "tmp/output");
    let generator = PatchGenerator::new(&config);
    let diff = generator.create_unified_diff("f.txt", "a\nb\nc\n", "a\nB\nc\n");
    assert_eq!(diff, "--- a/f.txt\n+++ b/f.txt\n@@ -1,3 +1,3 @@\n a\n-b\n+B\n c\n");
}

#[test]
fn combined_patch_separates_patches_with_blank_lines() {
    let config = create_test_config("tmp/source", "tmp/target", "tmp/output");
    let generator = PatchGenerator::new(&config);
    let text = generator.write_combined_patch(&vec!["p1\n".to_string(), "p2\n".to_string()]);
    assert_eq!(text, "p1\n\np2\n\n");
    assert_eq!(generator.patch_file_path("d/x.txt"), "tmp/output/d/x.txt.patch");
}
