use symbol_extractor::config::Config;
use symbol_extractor::errors::BRError;

#[test]
fn config_needs_both_arguments() {
    let config =
        Config::from_arguments(Some("lib.so".to_string()), Some("out".to_string())).unwrap();
    assert_eq!(config.input_path, "lib.so");
    assert_eq!(config.output_dir, "out");
}

#[test]
fn config_without_input_reports_the_input() {
    match Config::from_arguments(None, Some("out".to_string())) {
        Err(BRError::UsageError(message)) => assert_eq!(message, "Input file required"),
        other => panic!("expected a usage error, got {:?}", other),
    }
}

#[test]
fn config_without_output_reports_the_output() {
    match Config::from_arguments(Some("lib.so".to_string()), None) {
        Err(BRError::UsageError(message)) => assert_eq!(message, "Output directory required"),
        other => panic!("expected a usage error, got {:?}", other),
    }
}

#[test]
fn config_without_anything_reports_the_input() {
    match Config::from_arguments(None, None) {
        Err(BRError::UsageError(message)) => assert_eq!(message, "Input file required"),
        other => panic!("expected a usage error, got {:?}", other),
    }
}

#[test]
fn default_config_has_empty_paths() {
    let config = Config::default();
    assert_eq!(config.input_path, "");
    assert_eq!(config.output_dir, "");
}
