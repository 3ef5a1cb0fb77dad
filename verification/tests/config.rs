use mg_calr::config::{ConfigError, ConfigPaths, ConfigSource, StoreSettings, resolve_config};

fn env(entries: &[(&str, &str)]) -> Vec<(String, String)> {
    entries.iter().map(|(key, value)| ((*key).to_owned(), (*value).to_owned())).collect()
}

#[test]
fn xdg_paths_use_each_distinct_base_directory() {
    let vars = env(&[
        ("HOME", "/home/tester"),
        ("XDG_CONFIG_HOME", "/xdg/config"),
        ("XDG_DATA_HOME", "/xdg/data"),
        ("XDG_STATE_HOME", "/xdg/state"),
        ("XDG_CACHE_HOME", "/xdg/cache"),
    ]);

    let paths = ConfigPaths::from_env(&vars).expect("valid XDG environment");

    assert_eq!(paths.config_dir, "/xdg/config/mg-calr");
    assert_eq!(paths.data_dir, "/xdg/data/mg-calr");
    assert_eq!(paths.state_dir, "/xdg/state/mg-calr");
    assert_eq!(paths.cache_dir, "/xdg/cache/mg-calr");
    assert_eq!(paths.config_file, "/xdg/config/mg-calr/config.toml");
}

#[test]
fn xdg_paths_fall_back_under_home() {
    let vars = env(&[("HOME", "/home/tester")]);
    let paths = ConfigPaths::from_env(&vars).expect("HOME is sufficient");

    assert_eq!(paths.config_dir, "/home/tester/.config/mg-calr");
    assert_eq!(paths.data_dir, "/home/tester/.local/share/mg-calr");
    assert_eq!(paths.state_dir, "/home/tester/.local/state/mg-calr");
    assert_eq!(paths.cache_dir, "/home/tester/.cache/mg-calr");
}

#[test]
fn a_missing_home_and_base_directory_is_refused() {
    let vars = env(&[("XDG_CONFIG_HOME", "/xdg/config")]);
    assert_eq!(ConfigPaths::from_env(&vars), Err(ConfigError::MissingHome));
}

#[test]
fn store_path_precedence_is_cli_then_environment_then_file_then_data_directory() {
    let vars = env(&[("HOME", "/home/tester"), ("MG_CALR_DB", "/env/calr.sqlite")]);
    let file = Ok(Some("/file/calr.sqlite".to_owned()));

    let from_cli = resolve_config(&vars, file.clone(), Some("/cli/calr.sqlite".to_owned())).unwrap();
    assert_eq!(from_cli.database.source(), ConfigSource::Cli);
    assert_eq!(from_cli.database.path(), "/cli/calr.sqlite");

    let from_env = resolve_config(&vars, file.clone(), None).unwrap();
    assert_eq!(from_env.database.source(), ConfigSource::Environment);
    assert_eq!(from_env.database.path(), "/env/calr.sqlite");

    let without_env = env(&[("HOME", "/home/tester")]);
    let from_file = resolve_config(&without_env, file, None).unwrap();
    assert_eq!(from_file.database.source(), ConfigSource::File);
    assert_eq!(from_file.database.path(), "/file/calr.sqlite");

    let by_default = resolve_config(&without_env, Ok(None), None).unwrap();
    assert_eq!(by_default.database.source(), ConfigSource::Default);
    assert_eq!(by_default.database.path(), "/home/tester/.local/share/mg-calr/calr.sqlite");

    assert_eq!(
        resolve_config(&without_env, Err("expected `=`".to_owned()), None).unwrap_err(),
        ConfigError::InvalidToml { message: "expected `=`".to_owned() }
    );
}

#[test]
fn the_store_summary_names_the_path_and_what_chose_it() {
    let settings = StoreSettings { path: "/data/calr.sqlite".to_owned(), source: ConfigSource::Environment };
    assert_eq!(settings.safe_summary(), "SQLite store /data/calr.sqlite (Environment)");
}

#[test]
fn the_resolved_configuration_keeps_every_path_of_the_environment() {
    let vars = env(&[("HOME", "/home/tester"), ("XDG_STATE_HOME", "/state"), ("XDG_CACHE_HOME", "/cache")]);
    let config = resolve_config(&vars, Ok(None), None).unwrap();
    let paths = ConfigPaths::from_env(&vars).unwrap();
    assert_eq!(config.paths, paths);
    assert_eq!(config.paths.state_dir, "/state/mg-calr");
    assert_eq!(config.paths.cache_dir, "/cache/mg-calr");
    assert_eq!(config.paths.config_file, "/home/tester/.config/mg-calr/config.toml");
}
