use pane_switcher::keybind::{
    create_keybind_config, KeybindError, Keybinds, LIST_PANES, NEXT_STAR, PLUGIN_HIDE,
    PLUGIN_SELECT_DOWN,
};
use std::collections::BTreeMap;
use zellij_tile::prelude::{BareKey, InputMode, KeyWithModifier};

fn stanza(mode: &str, key: &str, plugin_id: u32, action: &str) -> String {
    format!(
        "\n        keybinds {{\n            \"{}\" {{\n                bind \"{}\" {{\n                    MessagePluginId {} {{\n                        name \"{}\"\n                    }}\n                }}\n            }}\n        }}\n        ",
        mode, key, plugin_id, action
    )
}

fn pairs(map: BTreeMap<String, String>) -> Vec<(String, String)> {
    map.into_iter().collect()
}

#[test]
fn test_bind_global_keys() {
    let keybinds = Keybinds {
        toggle_star: None,
        ..Default::default()
    };
    let base_mode = InputMode::Normal;
    let plugin_id = 42;

    let got_configs: Vec<String> = keybinds
        .bind_global_keys(base_mode, plugin_id)
        .into_iter()
        .map(|(config, _)| config)
        .collect();

    let expected = [
        stanza("normal", "Alt y", 42, "list_panes"),
        stanza("normal", "Alt o", 42, "navigate_back"),
        stanza("normal", "Alt i", 42, "next_star"),
        stanza("normal", "Alt u", 42, "previous_star"),
    ]
    .join("");
    assert_eq!(got_configs.join(""), expected);
}

#[test]
fn bind_global_keys_flags_are_false() {
    let keybinds = Keybinds::default();
    let configs = keybinds.bind_global_keys(InputMode::Locked, 7);
    assert_eq!(configs.len(), 5);
    assert!(configs.iter().all(|(_, flag)| !flag));
    assert_eq!(configs[2].0, stanza("locked", "Alt l", 7, "toggle_star"));
}

#[test]
fn bind_global_keys_skips_every_unbound_action() {
    let keybinds = Keybinds {
        list_panes: None,
        navigate_back: None,
        toggle_star: None,
        next_star: None,
        previous_star: None,
        ..Default::default()
    };
    assert!(keybinds.bind_global_keys(InputMode::Normal, 1).is_empty());
}

#[test]
fn create_keybind_config_exact_text() {
    let key = KeyWithModifier::new(BareKey::Down).with_ctrl_modifier();
    let got = create_keybind_config(InputMode::EnterSearch, 1234567, &key, "next_star");
    assert_eq!(
        got,
        "\n        keybinds {\n            \"entersearch\" {\n                bind \"Ctrl \u{2193}\" {\n                    MessagePluginId 1234567 {\n                        name \"next_star\"\n                    }\n                }\n            }\n        }\n        "
    );
}

#[test]
fn create_keybind_config_plugin_id_zero() {
    let key = KeyWithModifier::new(BareKey::Char('y')).with_alt_modifier();
    let got = create_keybind_config(InputMode::Normal, 0, &key, LIST_PANES);
    assert_eq!(got, stanza("normal", "Alt y", 0, "list_panes"));
}

#[test]
fn test_try_from() {
    let map = BTreeMap::from([
        (PLUGIN_SELECT_DOWN.to_string(), String::from("Ctrl Down")),
        (PLUGIN_HIDE.to_string(), String::from("")),
        (String::from("unknown_key"), String::from("Invalid")),
    ]);

    let keybinds = Keybinds::from_overrides(&pairs(map)).unwrap();

    assert_eq!(
        keybinds.plugin_select_down,
        Some(KeyWithModifier::new(BareKey::Down).with_ctrl_modifier()),
    );
    assert_eq!(
        keybinds.plugin_select_up,
        Some(KeyWithModifier::new(BareKey::Up),)
    );
    assert_eq!(keybinds.plugin_hide, None);
}

#[test]
fn overrides_leave_other_actions_at_defaults() {
    let map = BTreeMap::from([
        (String::from("plugin_select_down"), String::from("Ctrl Down")),
        (String::from("plugin_hide"), String::from("")),
    ]);
    let keybinds = Keybinds::from_overrides(&pairs(map)).unwrap();
    let defaults = Keybinds::default();
    assert_eq!(
        keybinds.plugin_select_down,
        Some(KeyWithModifier::new(BareKey::Down).with_ctrl_modifier())
    );
    assert_eq!(keybinds.plugin_hide, None);
    assert_eq!(keybinds.plugin_select_up, defaults.plugin_select_up);
    assert_eq!(keybinds.plugin_navigate_to, defaults.plugin_navigate_to);
    assert_eq!(keybinds.plugin_toggle_star, defaults.plugin_toggle_star);
    assert_eq!(keybinds.list_panes, defaults.list_panes);
    assert_eq!(keybinds.navigate_back, defaults.navigate_back);
    assert_eq!(keybinds.toggle_star, defaults.toggle_star);
    assert_eq!(keybinds.next_star, defaults.next_star);
    assert_eq!(keybinds.previous_star, defaults.previous_star);
}

#[test]
fn default_keybinds_are_the_built_in_keys() {
    let keybinds = Keybinds::default();
    let alt = |c| Some(KeyWithModifier::new(BareKey::Char(c)).with_alt_modifier());
    assert_eq!(keybinds.list_panes, alt('y'));
    assert_eq!(keybinds.navigate_back, alt('o'));
    assert_eq!(keybinds.toggle_star, alt('l'));
    assert_eq!(keybinds.next_star, alt('i'));
    assert_eq!(keybinds.previous_star, alt('u'));
    assert_eq!(keybinds.plugin_select_down, Some(KeyWithModifier::new(BareKey::Down)));
    assert_eq!(keybinds.plugin_select_up, Some(KeyWithModifier::new(BareKey::Up)));
    assert_eq!(keybinds.plugin_navigate_to, Some(KeyWithModifier::new(BareKey::Enter)));
    assert_eq!(keybinds.plugin_hide, Some(KeyWithModifier::new(BareKey::Esc)));
    assert_eq!(keybinds.plugin_toggle_star, Some(KeyWithModifier::new(BareKey::Char(' '))));
}

#[test]
fn global_override_changes_the_emitted_key() {
    let overrides = vec![(NEXT_STAR.to_string(), String::from("Super F5"))];
    let keybinds = Keybinds::from_overrides(&overrides).unwrap();
    let configs = keybinds.bind_global_keys(InputMode::Normal, 3);
    assert_eq!(configs[3].0, stanza("normal", "Super F5", 3, "next_star"));
}

#[test]
fn invalid_override_fails_the_configuration() {
    let overrides = vec![
        (String::from("plugin_select_up"), String::from("Ctrl Up")),
        (String::from("next_star"), String::from("Invalid")),
    ];
    match Keybinds::from_overrides(&overrides) {
        Err(KeybindError::FromStr(message)) => assert_eq!(message, "unsupported key"),
        Ok(_) => panic!("an invalid key was accepted"),
    }
}

#[test]
fn invalid_modifier_fails_the_configuration() {
    let overrides = vec![(String::from("plugin_hide"), String::from("Hyper Esc"))];
    match Keybinds::from_overrides(&overrides) {
        Err(KeybindError::FromStr(message)) => assert_eq!(message, "unsupported modifier"),
        Ok(_) => panic!("an invalid modifier was accepted"),
    }
}

#[test]
fn invalid_value_of_unknown_action_is_ignored() {
    let overrides = vec![(String::from("unknown_key"), String::from("Invalid"))];
    assert!(Keybinds::from_overrides(&overrides).is_ok());
}
