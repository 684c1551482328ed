use orion_scheduler::config::{Config, TargetConfig, DEFAULT_LOG_DIR};

fn target(ws: &str) -> TargetConfig {
    TargetConfig {
        server_ws: ws.to_string(),
        scorpio_base_url: format!("{}/base", ws),
        scorpio_lfs_url: format!("{}/lfs", ws),
    }
}

#[test]
fn new_config_has_no_targets() {
    let c = Config::new("/tmp".to_string());
    assert_eq!(c.log_dir(), "/tmp");
    assert!(c.get("aws-gitmega").is_none());
    assert!(c.target_names().is_empty());
}

#[test]
fn loaded_config_finds_targets() {
    let c = Config::from_parsed(
        vec![("aws-gitmega".to_string(), target("ws://a")), ("gcp-buck2hub".to_string(), target("ws://g"))],
        Some("/var/log/x".to_string()),
    );
    assert_eq!(c.get("aws-gitmega").unwrap().server_ws, "ws://a");
    assert_eq!(c.get("gcp-buck2hub").unwrap().scorpio_lfs_url, "ws://g/lfs");
    assert!(c.get("aws-gitmono").is_none());
    assert_eq!(c.log_dir(), "/var/log/x");
    let mut names: Vec<String> = c.target_names().into_iter().cloned().collect();
    names.sort();
    assert_eq!(names, vec!["aws-gitmega".to_string(), "gcp-buck2hub".to_string()]);
}

#[test]
fn later_entry_wins_and_names_are_unique() {
    let c = Config::from_parsed(
        vec![
            ("t".to_string(), target("ws://first")),
            ("u".to_string(), target("ws://u")),
            ("t".to_string(), target("ws://second")),
        ],
        None,
    );
    assert_eq!(c.get("t").unwrap().server_ws, "ws://second");
    assert_eq!(c.target_names().len(), 2);
}

#[test]
fn default_log_dir_when_missing() {
    let c = Config::from_parsed(vec![], None);
    assert_eq!(c.log_dir(), "/var/log/orion-scheduler");
    assert_eq!(c.log_dir(), DEFAULT_LOG_DIR);
}
