use switchy::{
    check_state_name, shell_invocation, Config, ConfigCommandItemState, ConfigError, ConfigItem,
    ConfigManager,
};

fn state(name: &str, command: &str) -> ConfigCommandItemState {
    ConfigCommandItemState { name: name.to_string(), command: command.to_string() }
}

fn build_item() -> ConfigItem {
    ConfigItem::new_command(
        "build".to_string(),
        vec![state("debug", "echo d"), state("release", "echo r")],
    )
    .unwrap()
}

fn names(config: &Config) -> Vec<String> {
    config.items.iter().map(|it| it.get_name().to_string()).collect()
}

#[test]
fn new_item_starts_in_first_state() {
    let item = build_item();
    assert_eq!(item.get_name(), "build");
    assert_eq!(item.get_current_state(), "debug");
    assert_eq!(item.get_state_names(), vec!["debug", "release"]);
    assert_eq!(item.get_type_string(), "Command");
    assert_eq!(item.current_state_index(), Some(0));
}

#[test]
fn new_item_errors() {
    let r = ConfigItem::new_command(String::new(), vec![state("a", "x")]);
    assert!(matches!(r, Err(ConfigError::EmptyItemName)));
    let r = ConfigItem::new_command("n".to_string(), vec![]);
    assert!(matches!(r, Err(ConfigError::NoStates)));
    let r = ConfigItem::new_command("n".to_string(), vec![state("a", "x"), state("", "y")]);
    assert!(matches!(r, Err(ConfigError::EmptyStateName)));
    let r = ConfigItem::new_command("n".to_string(), vec![state("a", "x"), state("a", "y")]);
    assert!(matches!(r, Err(ConfigError::DuplicateStateName)));
    // the first offending state decides the error
    let r = ConfigItem::new_command(
        "n".to_string(),
        vec![state("a", "x"), state("a", "y"), state("", "z")],
    );
    assert!(matches!(r, Err(ConfigError::DuplicateStateName)));
}

#[test]
fn state_name_checks() {
    let states = vec![state("on", "echo on")];
    assert_eq!(check_state_name(&states, &"off".to_string()), Ok(()));
    assert_eq!(check_state_name(&states, &"on".to_string()), Err(ConfigError::DuplicateStateName));
    assert_eq!(check_state_name(&states, &String::new()), Err(ConfigError::EmptyStateName));
    assert_eq!(check_state_name(&vec![], &"on".to_string()), Ok(()));
}

#[test]
fn transition_to_known_state_returns_its_command() {
    let mut item = build_item();
    let cmd = item.set_current_state("release".to_string());
    assert_eq!(cmd, Some("echo r".to_string()));
    assert_eq!(item.get_current_state(), "release");
    assert_eq!(item.get_state_names(), vec!["debug", "release"]);
    assert_eq!(item.current_state_index(), Some(1));
}

#[test]
fn transition_to_unknown_state_runs_nothing() {
    let mut item = build_item();
    let cmd = item.set_current_state("profile".to_string());
    assert_eq!(cmd, None);
    assert_eq!(item.get_current_state(), "profile");
    assert_eq!(item.current_state_index(), None);
}

#[test]
fn transition_to_current_state_runs_it_again() {
    let mut item = build_item();
    assert_eq!(item.set_current_state("debug".to_string()), Some("echo d".to_string()));
    assert_eq!(item.get_current_state(), "debug");
}

#[test]
fn item_rendering() {
    let mut item = build_item();
    assert_eq!(item.to_string(), "build [Command]\n* debug\n  release");
    item.set_current_state("release".to_string());
    assert_eq!(item.to_string(), "build [Command]\n  debug\n* release");
}

#[test]
fn store_rendering() {
    let mut config = ConfigManager::get_default_config();
    assert_eq!(config.render_items(), "");
    config.add_item(build_item()).unwrap();
    config
        .add_item(ConfigItem::new_command("vpn".to_string(), vec![state("on", "up")]).unwrap())
        .unwrap();
    assert_eq!(
        config.render_items(),
        "build [Command]\n* debug\n  release\n\nvpn [Command]\n* on"
    );
}

#[test]
fn fresh_manager_is_empty() {
    let cm = ConfigManager::new("/tmp/dir".to_string());
    assert_eq!(cm.path, "/tmp/dir");
    assert!(cm.config.items.is_empty());
    assert!(ConfigManager::get_default_config().items.is_empty());
}

#[test]
fn adding_duplicate_name_fails_and_keeps_store() {
    let mut config = ConfigManager::get_default_config();
    assert_eq!(config.add_item(build_item()), Ok(()));
    let other = ConfigItem::new_command("build".to_string(), vec![state("x", "y")]).unwrap();
    assert_eq!(config.add_item(other), Err(ConfigError::DuplicateItem));
    assert_eq!(names(&config), vec!["build"]);
    assert_eq!(config.items[0].get_current_state(), "debug");
}

#[test]
fn find_items_by_name() {
    let mut config = ConfigManager::get_default_config();
    config.add_item(build_item()).unwrap();
    config
        .add_item(ConfigItem::new_command("vpn".to_string(), vec![state("on", "up")]).unwrap())
        .unwrap();
    assert_eq!(config.find("vpn"), Some(1));
    assert_eq!(config.find("build"), Some(0));
    assert_eq!(config.find("Build"), None);
}

#[test]
fn removing_items() {
    let mut config = ConfigManager::get_default_config();
    for n in ["a", "b", "c"] {
        config
            .add_item(ConfigItem::new_command(n.to_string(), vec![state("s", "t")]).unwrap())
            .unwrap();
    }
    let removed = config.remove_item("a").unwrap();
    assert_eq!(removed.get_name(), "a");
    assert_eq!(names(&config), vec!["c", "b"]);
    assert_eq!(config.find("a"), None);
    assert!(matches!(config.remove_item("a"), Err(ConfigError::MissingItem)));
    assert_eq!(names(&config), vec!["c", "b"]);
    config.remove_item("b").unwrap();
    config.remove_item("c").unwrap();
    assert!(config.items.is_empty());
}

#[test]
fn shell_per_host() {
    let (p, a) = shell_invocation("echo r", false);
    assert_eq!(p, "sh");
    assert_eq!(a, vec!["-c".to_string(), "echo r".to_string()]);
    let (p, a) = shell_invocation("echo r", true);
    assert_eq!(p, "cmd");
    assert_eq!(a, vec!["/C".to_string(), "echo r".to_string()]);
}

#[test]
fn build_item_switch_scenario() {
    let mut cm = ConfigManager::new("dir".to_string());
    cm.config.add_item(build_item()).unwrap();
    let i = cm.config.find("build").unwrap();
    let cmd = cm.config.items[i].set_current_state("release".to_string());
    assert_eq!(cmd, Some("echo r".to_string()));
    let (p, a) = shell_invocation(&cmd.unwrap(), false);
    assert_eq!(p, "sh");
    assert_eq!(a[1], "echo r");
    assert_eq!(cm.config.items[i].get_current_state(), "release");
}
