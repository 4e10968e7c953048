use rep::flags::Flag;
use rep::output::{format_count, format_match, OutputConfig, OutputMode};

#[test]
fn test_output_mode_from_flags() {
    assert_eq!(OutputMode::from_flags(&[]), OutputMode::FullLines);
    assert_eq!(OutputMode::from_flags(&[Flag::LineNumbers]), OutputMode::FullLines);
    assert_eq!(OutputMode::from_flags(&[Flag::Count]), OutputMode::Count);
    assert_eq!(OutputMode::from_flags(&[Flag::LineNumbers, Flag::Count]), OutputMode::Count);
}

#[test]
fn test_output_config() {
    let config = OutputConfig::new(&[Flag::LineNumbers], false);
    assert_eq!(config.mode, OutputMode::FullLines);
    assert!(config.show_line_numbers);
    assert!(!config.show_filename);

    let config = OutputConfig::new(&[Flag::LineNumbers, Flag::Count], true);
    assert_eq!(config.mode, OutputMode::Count);
    assert!(!config.show_line_numbers);
    assert!(config.show_filename);
}

#[test]
fn test_format_match() {
    let config = OutputConfig {
        mode: OutputMode::FullLines,
        show_line_numbers: false,
        show_filename: false,
    };
    assert_eq!(format_match("test line", 0, None, &config), "test line");

    let config = OutputConfig {
        mode: OutputMode::FullLines,
        show_line_numbers: true,
        show_filename: false,
    };
    assert_eq!(format_match("test line", 0, None, &config), "1:test line");

    let config = OutputConfig {
        mode: OutputMode::FullLines,
        show_line_numbers: true,
        show_filename: true,
    };
    assert_eq!(format_match("test line", 0, Some("file.txt"), &config), "file.txt:1:test line");
}

#[test]
fn test_format_count() {
    assert_eq!(format_count(5, None, false), "5");
    assert_eq!(format_count(5, Some("file.txt"), false), "5");
    assert_eq!(format_count(5, Some("file.txt"), true), "file.txt:5");
}
