//! Command-line option parsing tests.

use tempfile::TempDir;
use webserve::ServeOptions;

fn args_of(parts: &[&str]) -> Vec<String> {
    parts.iter().map(|s| s.to_string()).collect()
}

#[test]
fn test_cli_options_defaults() {
    let args = args_of(&["webserve"]);
    let options = ServeOptions::from_iter(&args).unwrap();
    assert_eq!(options.port, 8080);
    assert_eq!(options.host, "127.0.0.1");
    assert!(!options.spa);
    assert!(!options.watch);
}

#[test]
fn test_cli_options_custom_port() {
    let args = args_of(&["webserve", "--port", "3000"]);
    let options = ServeOptions::from_iter(&args).unwrap();
    assert_eq!(options.port, 3000);
}

#[test]
fn test_cli_options_custom_host() {
    let args = args_of(&["webserve", "--host", "0.0.0.0"]);
    let options = ServeOptions::from_iter(&args).unwrap();
    assert_eq!(options.host, "0.0.0.0");
}

#[test]
fn test_cli_options_spa_flag() {
    let args = args_of(&["webserve", "--spa"]);
    let options = ServeOptions::from_iter(&args).unwrap();
    assert!(options.spa);
}

#[test]
fn test_cli_options_watch_flag() {
    let args = args_of(&["webserve", "--watch"]);
    let options = ServeOptions::from_iter(&args).unwrap();
    assert!(options.watch);
}

#[test]
fn test_cli_options_directory() {
    let temp_dir = TempDir::new().unwrap();
    let dir_str = temp_dir.path().to_str().unwrap();
    let args = args_of(&["webserve", "--dir", dir_str]);
    let options = ServeOptions::from_iter(&args).unwrap();
    assert_eq!(options.directory.unwrap(), dir_str);
}

#[test]
fn test_cli_options_short_flags() {
    let args = args_of(&["webserve", "-p", "3000", "-h", "0.0.0.0", "-d", "/srv/www", "-w"]);
    let options = ServeOptions::from_iter(&args).unwrap();
    assert_eq!(options.port, 3000);
    assert_eq!(options.host, "0.0.0.0");
    assert_eq!(options.directory.unwrap(), "/srv/www");
    assert!(options.watch);
    assert!(!options.spa);
}

#[test]
fn test_cli_options_unknown_flag_rejected() {
    let args = args_of(&["webserve", "--verbose"]);
    let err = ServeOptions::from_iter(&args).unwrap_err();
    assert_eq!(err, webserve::OptionsError::UnknownFlag);
}

#[test]
fn test_cli_options_missing_value_rejected() {
    let args = args_of(&["webserve", "--port"]);
    let err = ServeOptions::from_iter(&args).unwrap_err();
    assert_eq!(err, webserve::OptionsError::MissingValue);
}

#[test]
fn test_cli_options_port_not_a_number_rejected() {
    let args = args_of(&["webserve", "--port", "eighty"]);
    let err = ServeOptions::from_iter(&args).unwrap_err();
    assert_eq!(err, webserve::OptionsError::InvalidPort);
}

#[test]
fn test_cli_options_port_too_large_rejected() {
    let args = args_of(&["webserve", "--port", "65536"]);
    let err = ServeOptions::from_iter(&args).unwrap_err();
    assert_eq!(err, webserve::OptionsError::InvalidPort);
}

#[test]
fn test_cli_options_port_leading_zeros() {
    let args = args_of(&["webserve", "--port", "0008080"]);
    let options = ServeOptions::from_iter(&args).unwrap();
    assert_eq!(options.port, 8080);
}
