use agency::config::{choose_editor_argv, AgencyConfig};

fn words(v: &[&str]) -> Vec<String> {
    v.iter().map(|s| s.to_string()).collect()
}

#[test]
fn configured_editor_wins() {
    let cfg = AgencyConfig { editor: Some(words(&["code", "-w"])), ..AgencyConfig::empty() };
    assert_eq!(cfg.editor_argv(Some("nano")), words(&["code", "-w"]));
}

#[test]
fn editor_env_is_split_into_words() {
    let cfg = AgencyConfig { editor: Some(vec![]), ..AgencyConfig::empty() };
    assert_eq!(cfg.editor_argv(Some("nano -w")), words(&["nano", "-w"]));
    assert_eq!(AgencyConfig::empty().editor_argv(Some("'my editor' --wait")), words(&["my editor", "--wait"]));
}

#[test]
fn editor_falls_back_to_vi() {
    assert_eq!(AgencyConfig::empty().editor_argv(None), words(&["vi"]));
    assert_eq!(AgencyConfig::empty().editor_argv(Some("   ")), words(&["vi"]));
    assert_eq!(AgencyConfig::empty().editor_argv(Some("'unclosed")), words(&["vi"]));
}

#[test]
fn choose_editor_takes_first_non_empty() {
    assert_eq!(choose_editor_argv(&None, Some(vec![])), words(&["vi"]));
    assert_eq!(choose_editor_argv(&Some(vec![]), Some(words(&["ed"]))), words(&["ed"]));
    assert_eq!(choose_editor_argv(&Some(words(&["hx"])), Some(words(&["ed"]))), words(&["hx"]));
}
