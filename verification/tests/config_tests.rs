use hotreload::config::{BuildMode, Config, child_args, manifest_path, resolve_mode};

fn base_config() -> Config {
    Config {
        project_path: String::from("."),
        device_id: None,
        flavor: None,
        mode: BuildMode::Debug,
        debounce_ms: 1000,
        extra_args: Vec::new(),
    }
}

#[test]
fn default_config_runs_bare() {
    assert_eq!(child_args(&base_config()), vec!["run".to_string()]);
}

#[test]
fn full_config_orders_arguments() {
    let c = Config {
        device_id: Some(String::from("emulator-5554")),
        flavor: Some(String::from("staging")),
        mode: BuildMode::Release,
        extra_args: vec![String::from("--no-sound-null-safety"), String::from("-v")],
        ..base_config()
    };
    assert_eq!(
        child_args(&c),
        vec![
            "run",
            "--device-id",
            "emulator-5554",
            "--flavor",
            "staging",
            "--release",
            "--no-sound-null-safety",
            "-v",
        ]
        .into_iter()
        .map(String::from)
        .collect::<Vec<String>>()
    );
}

#[test]
fn profile_mode_maps_to_profile_flag() {
    let c = Config { mode: BuildMode::Profile, ..base_config() };
    assert_eq!(child_args(&c), vec!["run".to_string(), "--profile".to_string()]);
}

#[test]
fn release_wins_over_profile() {
    assert_eq!(resolve_mode(true, true), BuildMode::Release);
    assert_eq!(resolve_mode(true, false), BuildMode::Release);
    assert_eq!(resolve_mode(false, true), BuildMode::Profile);
    assert_eq!(resolve_mode(false, false), BuildMode::Debug);
}

#[test]
fn pass_through_arguments_come_last() {
    let c = Config {
        device_id: Some(String::from("pixel")),
        extra_args: vec![String::from("--trace-startup")],
        ..base_config()
    };
    assert_eq!(
        child_args(&c),
        vec!["run", "--device-id", "pixel", "--trace-startup"]
            .into_iter()
            .map(String::from)
            .collect::<Vec<String>>()
    );
}

#[test]
fn manifest_path_joins_pubspec() {
    assert_eq!(manifest_path("."), "./pubspec.yaml");
    assert_eq!(manifest_path("/home/dev/app"), "/home/dev/app/pubspec.yaml");
}
