use rs_diffcopy::sheet::{tone_color, Tone};
use rs_diffcopy::utils::{hash_file, hash_read, components, cp932_box_bytes, display_width, format_size, is_script_file, pad_to_width, to_cp932};

#[test]
fn test_display_width() {
    assert_eq!(display_width("hello"), 5);
    assert_eq!(display_width("日本語"), 6);
    assert_eq!(display_width("hello日本語"), 11);
    assert_eq!(display_width(""), 0);
    assert_eq!(display_width("한글"), 4);
}

#[test]
fn test_display_width_halfwidth_katakana() {
    assert_eq!(display_width("ｱｲｳｴｵ"), 5);
    assert_eq!(display_width("アイウエオ"), 10);
    assert_eq!(display_width("ｱｲｳ日本語"), 9);
}

#[test]
fn test_display_width_tree_connectors() {
    assert_eq!(display_width("├── "), 7);
    assert_eq!(display_width("└── "), 7);
    assert_eq!(display_width("│   "), 5);
    assert_eq!(display_width("├── file.txt"), 15);
    assert_eq!(display_width("├── 日本語.txt"), 17);
}

#[test]
fn test_pad_to_width() {
    assert_eq!(pad_to_width("abc", 5), "abc  ");
    assert_eq!(pad_to_width("日本", 6), "日本  ");
    assert_eq!(pad_to_width("toolong", 3), "toolong");
    assert_eq!(pad_to_width("exact", 5), "exact");
    assert_eq!(pad_to_width("", 3), "   ");
}

#[test]
fn test_format_size() {
    assert_eq!(format_size(0), "0 B");
    assert_eq!(format_size(500), "500 B");
    assert_eq!(format_size(1023), "1023 B");
    assert_eq!(format_size(1024), "1.0 KB");
    assert_eq!(format_size(1536), "1.5 KB");
    assert_eq!(format_size(1048576), "1.0 MB");
    assert_eq!(format_size(1073741824), "1.0 GB");
    assert_eq!(format_size(2147483648), "2.0 GB");
}

#[test]
fn format_size_agrees_with_float_formatting() {
    let samples: [u64; 14] = [
        1024, 1075, 1126, 1280, 1331, 1945, 2047, 10239, 10240, 1048575, 1572864, 5 * 1073741824 + 7,
        1099511627776, u64::MAX,
    ];
    for &b in samples.iter() {
        let expected = if b >= 1073741824 {
            format!("{:.1} GB", b as f64 / 1073741824.0)
        } else if b >= 1048576 {
            format!("{:.1} MB", b as f64 / 1048576.0)
        } else {
            format!("{:.1} KB", b as f64 / 1024.0)
        };
        assert_eq!(format_size(b), expected, "bytes {}", b);
    }
}

#[test]
fn test_is_script_file() {
    assert!(is_script_file("test.sh"));
    assert!(is_script_file("test.bash"));
    assert!(is_script_file("test.zsh"));

    assert!(is_script_file("test.py"));
    assert!(is_script_file("test.pyw"));

    assert!(is_script_file("test.js"));
    assert!(is_script_file("test.mjs"));
    assert!(is_script_file("test.ts"));

    assert!(is_script_file("test.rb"));
    assert!(is_script_file("test.php"));
    assert!(is_script_file("test.lua"));
    assert!(is_script_file("test.pl"));
    assert!(is_script_file("test.ps1"));
    assert!(is_script_file("test.bat"));
    assert!(is_script_file("test.cmd"));

    assert!(!is_script_file("test.txt"));
    assert!(!is_script_file("test.rs"));
    assert!(!is_script_file("test.c"));
    assert!(!is_script_file("test.h"));
    assert!(!is_script_file("noextension"));

    assert!(is_script_file("test.SH"));
    assert!(is_script_file("test.PY"));
}

#[test]
fn test_cp932_conversion_ascii() {
    let input = "Hello, World!";
    let encoded = to_cp932(input);
    assert_eq!(encoded.as_slice(), b"Hello, World!");
}

#[test]
fn test_cp932_conversion_japanese() {
    let input = "日本語";
    let encoded = to_cp932(input);
    assert!(!encoded.is_empty());
    assert_ne!(encoded.as_slice(), input.as_bytes());
}

#[test]
fn test_cp932_conversion_mixed() {
    let input = "Hello 日本語 World";
    let encoded = to_cp932(input);
    assert!(!encoded.is_empty());
    assert!(encoded.len() > input.len() / 2);
}

#[test]
fn test_cp932_conversion_unconvertible() {
    let input = "Hello 😀 World";
    let encoded = to_cp932(input);
    assert!(!encoded.contains(&0xF0));
}

#[test]
fn test_cp932_conversion_box_drawing() {
    let input = "├── file.txt";
    let encoded = to_cp932(input);
    assert!(!encoded.is_empty());
    assert_eq!(&encoded[0..6], &[0x84, 0xA5, 0x84, 0x9F, 0x84, 0x9F]);
}

#[test]
fn test_cp932_box_drawing_explicit_mapping() {
    let box_chars = [('─', [0x84u8, 0x9F]), ('│', [0x84, 0xA0]), ('└', [0x84, 0xA4]), ('├', [0x84, 0xA5])];

    for (c, expected_bytes) in &box_chars {
        assert!(c.is_ascii() == false, "Box drawing char {} should be non-ASCII", c);
        assert_eq!(expected_bytes.len(), 2, "CP932 keisen should be 2 bytes");
        assert_eq!(expected_bytes[0], 0x84, "First byte of keisen should be 0x84");
        assert!(
            expected_bytes[1] >= 0x9F && expected_bytes[1] <= 0xA9,
            "Second byte 0x{:02X} should be in keisen range",
            expected_bytes[1]
        );
        assert_eq!(cp932_box_bytes(*c), Some((expected_bytes[0], expected_bytes[1])));
    }
}

#[test]
fn test_path_components_extraction() {
    assert_eq!(components("dir1/dir2/file.txt"), vec!["dir1", "dir2", "file.txt"]);
    assert_eq!(components("file.txt"), vec!["file.txt"]);
    assert_eq!(components("a/b/c/d/e/f.txt"), vec!["a", "b", "c", "d", "e", "f.txt"]);
}

#[test]
fn test_path_components_japanese() {
    assert_eq!(components("日本語/ディレクトリ/ファイル.txt"), vec!["日本語", "ディレクトリ", "ファイル.txt"]);
}

#[test]
fn test_path_components_normalized() {
    let parts = components("dir1//dir2/file.txt");
    assert!(parts.contains(&"dir1".to_string()));
    assert!(parts.contains(&"file.txt".to_string()));
}

#[test]
fn hash_file_is_blake3_hex() {
    assert_eq!(hash_file(b""), "af1349b9f5f9a1a6a0404dea36dcc9499bcb25c9adc112b7cc9a93cae41f3262");
    assert_eq!(hash_file(b"abc"), "6437b3ac38465133ffb63b75273a8db548c558465d79db03fd359c6cd5bd9d85");
    assert_ne!(hash_file(b"abc"), hash_file(b"abd"));
    assert_eq!(hash_file(b"some text").len(), 64);
}

#[test]
fn hash_read_passes_errors_on() {
    assert_eq!(hash_read(&Ok(b"abc".to_vec())), Some(hash_file(b"abc")));
    assert_eq!(hash_read(&Err("denied".to_string())), None);
}

#[test]
fn tone_colors() {
    assert_eq!(tone_color(Tone::Neutral), None);
    assert_eq!(tone_color(Tone::Added), Some(0x008000));
    assert_eq!(tone_color(Tone::Modified), Some(0x0066CC));
    assert_eq!(tone_color(Tone::Conflict), Some(0xCC0000));
    assert_eq!(tone_color(Tone::DeletedThree), Some(0xFFC7CE));
}
