use matrix_webhook::config::{
    config_file_name, default_host, default_matrix_url, default_port, default_verbosity, log_level, CliArgs,
    MissingSetting, PartialSettings, Settings,
};

fn settings() -> Settings {
    Settings {
        host: default_host(),
        port: default_port(),
        server_path: None,
        matrix_url: default_matrix_url(),
        matrix_id: "@bot:test.org".to_string(),
        matrix_pw: None,
        matrix_token: Some("token".to_string()),
        api_key: "test-key".to_string(),
        formatters_dir: None,
        verbosity: default_verbosity(),
    }
}

fn no_args() -> CliArgs {
    CliArgs {
        host: None,
        port: None,
        server_path: None,
        matrix_url: None,
        matrix_id: None,
        matrix_pw: None,
        matrix_token: None,
        api_key: None,
        formatters_dir: None,
        verbose: 0,
        config: None,
    }
}

#[test]
fn defaults() {
    assert_eq!(default_host(), "");
    assert_eq!(default_port(), 4785);
    assert_eq!(default_matrix_url(), "https://matrix.org");
    assert_eq!(default_verbosity(), 2);
}

#[test]
fn no_arguments_change_nothing() {
    let s = settings().with_cli_args(no_args());
    assert_eq!(s.port, 4785);
    assert_eq!(s.matrix_token, Some("token".to_string()));
    assert_eq!(s.verbosity, 2);
    assert_eq!(s.api_key, "test-key");
}

#[test]
fn arguments_override() {
    let mut args = no_args();
    args.port = Some(8080);
    args.api_key = Some("cli-key".to_string());
    args.formatters_dir = Some("/f".to_string());
    args.verbose = 4;
    let s = settings().with_cli_args(args);
    assert_eq!(s.port, 8080);
    assert_eq!(s.api_key, "cli-key");
    assert_eq!(s.formatters_dir, Some("/f".to_string()));
    assert_eq!(s.verbosity, 4);
    assert_eq!(s.matrix_id, "@bot:test.org");
}

#[test]
fn config_file_precedence() {
    assert_eq!(config_file_name(Some("a.toml".to_string()), Some("b.toml".to_string())), "a.toml");
    assert_eq!(config_file_name(None, Some("b.toml".to_string())), "b.toml");
    assert_eq!(config_file_name(None, None), "");
}

#[test]
fn levels() {
    assert_eq!(log_level(0), "error");
    assert_eq!(log_level(1), "warn");
    assert_eq!(log_level(2), "info");
    assert_eq!(log_level(3), "debug");
    assert_eq!(log_level(4), "trace");
    assert_eq!(log_level(200), "trace");
}

fn partial(matrix_id: Option<&str>, api_key: Option<&str>) -> PartialSettings {
    PartialSettings {
        host: default_host(),
        port: default_port(),
        server_path: None,
        matrix_url: default_matrix_url(),
        matrix_id: matrix_id.map(|s| s.to_string()),
        matrix_pw: Some("pw".to_string()),
        matrix_token: None,
        api_key: api_key.map(|s| s.to_string()),
        formatters_dir: None,
        verbosity: default_verbosity(),
    }
}

#[test]
fn command_line_supplies_required_settings() {
    let mut args = no_args();
    args.matrix_id = Some("@cli:test.org".to_string());
    args.api_key = Some("cli-key".to_string());
    args.port = Some(9000);
    let s = partial(None, None).complete_with(args).unwrap();
    assert_eq!(s.matrix_id, "@cli:test.org");
    assert_eq!(s.api_key, "cli-key");
    assert_eq!(s.port, 9000);
    assert_eq!(s.matrix_pw, Some("pw".to_string()));
    assert_eq!(s.verbosity, 2);
}

#[test]
fn command_line_overrides_required_settings() {
    let mut args = no_args();
    args.api_key = Some("cli-key".to_string());
    let s = partial(Some("@file:test.org"), Some("file-key")).complete_with(args).unwrap();
    assert_eq!(s.matrix_id, "@file:test.org");
    assert_eq!(s.api_key, "cli-key");
}

#[test]
fn missing_required_settings() {
    let e = partial(None, None).complete_with(no_args()).unwrap_err();
    assert_eq!(e, MissingSetting::MatrixId);
    assert_eq!(e.name(), "matrix_id");
    let e = partial(Some("@bot:test.org"), None).complete_with(no_args()).unwrap_err();
    assert_eq!(e, MissingSetting::ApiKey);
    assert_eq!(e.name(), "api_key");
}
