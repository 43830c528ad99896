use pane_switcher::pane_id::PaneId;
use pane_switcher::plugin::{clip, HostAction, KeyCommand, State, TableRow};
use pane_switcher::registry::{Pane, PaneInfo, TabInfo};
use std::collections::HashMap;
use zellij_tile::prelude::{BareKey, InputMode, KeyWithModifier};

fn tab(name: &str) -> TabInfo {
    TabInfo {
        name: String::from(name),
        ..Default::default()
    }
}

fn active_tab(name: &str) -> TabInfo {
    TabInfo {
        name: String::from(name),
        active: true,
    }
}

fn pane(id: u32) -> PaneInfo {
    PaneInfo {
        id,
        is_selectable: true,
        ..Default::default()
    }
}

fn focus_pane(id: u32) -> PaneInfo {
    PaneInfo {
        id,
        is_focused: true,
        is_selectable: true,
        ..Default::default()
    }
}

fn focus_plugin_pane(id: u32) -> PaneInfo {
    PaneInfo {
        id,
        is_focused: true,
        is_selectable: true,
        is_plugin: true,
        ..Default::default()
    }
}

fn two_panes() -> Vec<Pane> {
    vec![
        Pane {
            pane_title: String::from("Pane 1"),
            pane_id: PaneId::Terminal(1),
            tab_name: String::from("Tab"),
        },
        Pane {
            pane_title: String::from("Pane 2"),
            pane_id: PaneId::Terminal(2),
            tab_name: String::from("Tab"),
        },
    ]
}

fn titles(state: &State) -> Vec<(String, String, PaneId)> {
    state
        .panes
        .iter()
        .map(|p| (p.tab_name.clone(), p.pane_title.clone(), p.pane_id))
        .collect()
}

fn row(starred: bool, tab_name: &str, pane_number: u32, pane_title: &str, selected: bool) -> TableRow {
    TableRow {
        starred,
        tab_name: String::from(tab_name),
        pane_number,
        pane_title: String::from(pane_title),
        selected,
    }
}

fn same_rows(got: &[TableRow], expected: &[TableRow]) {
    assert_eq!(got.len(), expected.len());
    for (g, e) in got.iter().zip(expected) {
        assert_eq!(g.starred, e.starred);
        assert_eq!(g.tab_name, e.tab_name);
        assert_eq!(g.pane_number, e.pane_number);
        assert_eq!(g.pane_title, e.pane_title);
        assert_eq!(g.selected, e.selected);
    }
}

#[test]
fn panes_as_table() {
    let mut state = State {
        tab_infos: vec![tab("Tab 1"), tab("Tab 2")],
        pane_infos: HashMap::from([
            (
                // This will be the last because it is the last tab.
                1,
                vec![PaneInfo {
                    id: 55,
                    title: String::from("Pane 55"),
                    is_selectable: true,
                    ..Default::default()
                }],
            ),
            (
                0,
                vec![
                    PaneInfo {
                        id: 1,
                        title: String::from("Pane 1"),
                        is_selectable: true,
                        ..Default::default()
                    },
                    PaneInfo {
                        id: 2,
                        title: String::from("Pane 2"),
                        is_selectable: true,
                        ..Default::default()
                    },
                    // Hidden because is not selectable
                    PaneInfo {
                        id: 3,
                        title: String::from("Pane 3 (not selectable)"),
                        ..Default::default()
                    },
                    // Hidden because is suppressed
                    PaneInfo {
                        id: 4,
                        title: String::from("Pane 4 (suppressed)"),
                        is_selectable: true,
                        is_suppressed: true,
                        ..Default::default()
                    },
                    // Hidden because is the plugin
                    PaneInfo {
                        id: 4,
                        title: String::from("Pane 4 (suppressed)"),
                        is_selectable: true,
                        is_plugin: true,
                        ..Default::default()
                    },
                ],
            ),
            (
                // The following tab does not exist.
                2,
                vec![PaneInfo {
                    id: 99,
                    title: String::from("Pane 99 on non existing tab"),
                    is_selectable: true,
                    ..Default::default()
                }],
            ),
        ]),
        selected: 1,
        plugin_id: Some(4),
        ..Default::default()
    };

    state.stars.toggle(PaneId::Terminal(2));
    state.update_state();

    same_rows(
        &state.panes_as_table(20),
        &[
            row(false, "Tab 1", 1, "Pane 1", false),
            row(true, "Tab 1", 2, "Pane 2", true),
            row(false, "Tab 2", 55, "Pane 55", false),
        ],
    );
}

#[test]
fn panes_as_table_clips_long_names() {
    let mut state = State {
        tab_infos: vec![tab("A very long tab name")],
        pane_infos: HashMap::from([(
            0,
            vec![PaneInfo {
                id: 7,
                title: String::from("A rather long pane title"),
                is_selectable: true,
                is_plugin: true,
                ..Default::default()
            }],
        )]),
        ..Default::default()
    };
    state.update_state();
    // Tab column: 12; title column: 30 - 12 - 7 = 11.
    same_rows(
        &state.panes_as_table(30),
        &[row(false, "A very lo...", 7, "A rather...", true)],
    );
    // Too narrow for any title.
    same_rows(&state.panes_as_table(10), &[row(false, "A very lo...", 7, "", true)]);
}

#[test]
fn select_downward_without_panes() {
    let mut state = State::default();
    state.select_downward();
    assert_eq!(state.selected, 0);
}

#[test]
fn select_upward_without_panes() {
    let mut state = State::default();
    state.select_upward();
    assert_eq!(state.selected, 0);
}

#[test]
fn select_downward() {
    let mut state = State {
        panes: two_panes(),
        selected: 0,
        ..Default::default()
    };
    state.select_downward();
    assert_eq!(state.selected, 1);
}

#[test]
fn select_upward() {
    let mut state = State {
        panes: two_panes(),
        selected: 1,
        ..Default::default()
    };
    state.select_upward();
    assert_eq!(state.selected, 0);
}

#[test]
fn select_downward_overflow() {
    let mut state = State {
        panes: two_panes(),
        selected: 0,
        ..Default::default()
    };
    state.select_downward();
    state.select_downward();
    assert_eq!(state.selected, 0);
}

#[test]
fn select_upward_overflow() {
    let mut state = State {
        panes: two_panes(),
        selected: 1,
        ..Default::default()
    };
    state.select_upward();
    state.select_upward();
    assert_eq!(state.selected, 1);
}

#[test]
fn select_from_out_of_range_index() {
    let mut state = State {
        panes: two_panes(),
        selected: usize::MAX,
        ..Default::default()
    };
    state.select_downward();
    assert_eq!(state.selected, 0);
    state.selected = 5;
    state.select_upward();
    assert_eq!(state.selected, 0);
}

fn focus_after_update(
    tab_infos: Vec<TabInfo>,
    pane_infos: HashMap<usize, Vec<PaneInfo>>,
) -> (Option<PaneId>, Option<PaneId>) {
    let mut state = State {
        tab_infos,
        pane_infos,
        current_focus: Some(PaneId::Terminal(10)),
        previous_focus: Some(PaneId::Terminal(11)),
        ..Default::default()
    };
    state.update_state();
    (state.current_focus, state.previous_focus)
}

#[test]
fn no_changes_in_focus_no_panes_in_tab() {
    let got = focus_after_update(vec![active_tab("Tab")], HashMap::from([(1, vec![focus_pane(1)])]));
    assert_eq!(got, (Some(PaneId::Terminal(10)), Some(PaneId::Terminal(11))));
}

#[test]
fn no_changes_in_focus_no_tabs() {
    let got = focus_after_update(vec![], HashMap::from([(1, vec![focus_pane(1)])]));
    assert_eq!(got, (Some(PaneId::Terminal(10)), Some(PaneId::Terminal(11))));
}

#[test]
fn no_changes_in_focus_focus_pane_is_plugin() {
    let got = focus_after_update(
        vec![active_tab("Tab")],
        HashMap::from([(0, vec![focus_plugin_pane(1)])]),
    );
    assert_eq!(got, (Some(PaneId::Terminal(10)), Some(PaneId::Terminal(11))));
}

#[test]
fn no_changes_in_focus_focus_pane_is_current() {
    let got = focus_after_update(vec![active_tab("Tab")], HashMap::from([(0, vec![focus_pane(10)])]));
    assert_eq!(got, (Some(PaneId::Terminal(10)), Some(PaneId::Terminal(11))));
}

#[test]
fn no_changes_in_focus_inactive_tab() {
    let got = focus_after_update(vec![tab("Tab")], HashMap::from([(0, vec![focus_pane(1)])]));
    assert_eq!(got, (Some(PaneId::Terminal(10)), Some(PaneId::Terminal(11))));
}

#[test]
fn change_in_focus_current_focus_exists() {
    let got = focus_after_update(
        vec![active_tab("Tab")],
        HashMap::from([(0, vec![focus_pane(1), pane(10)])]),
    );
    assert_eq!(got, (Some(PaneId::Terminal(1)), Some(PaneId::Terminal(10))));
}

#[test]
fn change_in_focus_current_focus_not_exists_previous_exists() {
    let got = focus_after_update(
        vec![active_tab("Tab")],
        HashMap::from([(0, vec![focus_pane(1), pane(11)])]),
    );
    assert_eq!(got, (Some(PaneId::Terminal(1)), Some(PaneId::Terminal(11))));
}

#[test]
fn change_in_focus_current_and_previous_focus_not_exists() {
    let got = focus_after_update(vec![active_tab("Tab")], HashMap::from([(0, vec![focus_pane(1)])]));
    assert_eq!(got, (Some(PaneId::Terminal(1)), None));
}

#[test]
fn change_in_focus_last_focused_pane_wins() {
    let got = focus_after_update(
        vec![active_tab("Tab")],
        HashMap::from([(0, vec![focus_pane(1), focus_pane(2)])]),
    );
    assert_eq!(got, (Some(PaneId::Terminal(2)), None));
}

#[test]
fn clip_text_long_limit() {
    assert_eq!(clip("Lorem ipsum dolor sit amet", 100), "Lorem ipsum dolor sit amet".to_string());
}

#[test]
fn clip_text_cut() {
    assert_eq!(clip("Lorem ipsum dolor sit amet", 5), "Lo...".to_string());
}

#[test]
fn clip_text_shorter_than_ellipsis() {
    assert_eq!(clip("Lorem ipsum dolor sit amet", 2), "..".to_string());
}

#[test]
fn clip_text_zero() {
    assert_eq!(clip("Lorem ipsum dolor sit amet", 0), "".to_string());
}

#[test]
fn clip_text_exact_fit() {
    assert_eq!(clip("Lorem", 5), "Lorem".to_string());
}

fn scenario_tabs() -> Vec<TabInfo> {
    vec![active_tab("Tab 1"), tab("Tab 2")]
}

fn scenario_panes() -> HashMap<usize, Vec<PaneInfo>> {
    HashMap::from([
        (
            0,
            vec![
                PaneInfo {
                    id: 1,
                    title: String::from("Pane 1"),
                    is_selectable: true,
                    ..Default::default()
                },
                PaneInfo {
                    id: 2,
                    title: String::from("Pane 2"),
                    is_selectable: true,
                    is_focused: true,
                    ..Default::default()
                },
                PaneInfo {
                    id: 3,
                    title: String::from("Pane 3"),
                    ..Default::default()
                },
                PaneInfo {
                    id: 4,
                    title: String::from("Pane 4"),
                    is_selectable: true,
                    is_suppressed: true,
                    ..Default::default()
                },
            ],
        ),
        (
            1,
            vec![PaneInfo {
                id: 55,
                title: String::from("Pane 55"),
                is_selectable: true,
                ..Default::default()
            }],
        ),
    ])
}

fn scenario_list() -> Vec<(String, String, PaneId)> {
    vec![
        (String::from("Tab 1"), String::from("Pane 1"), PaneId::Terminal(1)),
        (String::from("Tab 1"), String::from("Pane 2"), PaneId::Terminal(2)),
        (String::from("Tab 2"), String::from("Pane 55"), PaneId::Terminal(55)),
    ]
}

#[test]
fn end_to_end_tabs_first() {
    let mut state = State::default();
    state.on_tab_update(scenario_tabs());
    assert!(state.panes.is_empty());
    state.on_pane_update(scenario_panes());
    assert_eq!(titles(&state), scenario_list());
    assert_eq!(state.current_focus, Some(PaneId::Terminal(2)));
    assert_eq!(state.previous_focus, None);
}

#[test]
fn end_to_end_panes_first() {
    let mut state = State::default();
    state.on_pane_update(scenario_panes());
    assert!(state.panes.is_empty());
    assert_eq!(state.current_focus, None);
    state.on_tab_update(scenario_tabs());
    assert_eq!(titles(&state), scenario_list());
    assert_eq!(state.current_focus, Some(PaneId::Terminal(2)));
}

#[test]
fn focus_moves_back_and_forth() {
    let mut state = State::default();
    state.on_tab_update(scenario_tabs());
    state.on_pane_update(scenario_panes());
    let mut panes = scenario_panes();
    panes.get_mut(&0).unwrap()[1].is_focused = false;
    panes.get_mut(&0).unwrap()[0].is_focused = true;
    state.on_pane_update(panes);
    assert_eq!(state.current_focus, Some(PaneId::Terminal(1)));
    assert_eq!(state.previous_focus, Some(PaneId::Terminal(2)));
}

#[test]
fn previous_focus_kept_when_current_closes() {
    let mut state = State {
        current_focus: Some(PaneId::Terminal(9)),
        previous_focus: Some(PaneId::Terminal(55)),
        ..Default::default()
    };
    state.on_tab_update(scenario_tabs());
    state.on_pane_update(scenario_panes());
    assert_eq!(state.current_focus, Some(PaneId::Terminal(2)));
    assert_eq!(state.previous_focus, Some(PaneId::Terminal(55)));
}

#[test]
fn update_clamps_selection_and_drops_dead_stars() {
    let mut state = State {
        selected: 7,
        ..Default::default()
    };
    state.stars.toggle(PaneId::Terminal(55));
    state.stars.toggle(PaneId::Terminal(99));
    state.on_tab_update(scenario_tabs());
    assert_eq!(state.selected, 0);
    assert_eq!(state.stars.to_vec(), Vec::<PaneId>::new());
    state.stars.toggle(PaneId::Terminal(55));
    state.stars.toggle(PaneId::Terminal(99));
    state.selected = 7;
    state.on_pane_update(scenario_panes());
    assert_eq!(state.selected, 2);
    assert_eq!(state.stars.to_vec(), vec![PaneId::Terminal(55)]);
}

#[test]
fn own_plugin_pane_is_not_listed() {
    let mut state = State {
        plugin_id: Some(3),
        ..Default::default()
    };
    state.on_tab_update(vec![active_tab("Tab")]);
    state.on_pane_update(HashMap::from([(0, vec![focus_plugin_pane(3), pane(3), focus_plugin_pane(4)])]));
    assert_eq!(
        state.panes.iter().map(|p| p.pane_id).collect::<Vec<_>>(),
        vec![PaneId::Terminal(3), PaneId::Plugin(4)]
    );
    assert_eq!(state.current_focus, None);
}

fn listed_state() -> State {
    let mut state = State::default();
    state.on_tab_update(scenario_tabs());
    state.on_pane_update(scenario_panes());
    state
}

#[test]
fn keys_move_and_choose() {
    let mut state = listed_state();
    let down = KeyWithModifier::new(BareKey::Down);
    let up = KeyWithModifier::new(BareKey::Up);
    let enter = KeyWithModifier::new(BareKey::Enter);
    assert_eq!(state.on_key(&down), HostAction::Nothing);
    assert_eq!(state.selected, 1);
    assert_eq!(state.on_key(&up), HostAction::Nothing);
    assert_eq!(state.on_key(&up), HostAction::Nothing);
    assert_eq!(state.selected, 2);
    assert_eq!(state.on_key(&enter), HostAction::FocusAndHide(PaneId::Terminal(55)));
}

#[test]
fn keys_type_and_hide() {
    let mut state = listed_state();
    let a = KeyWithModifier::new(BareKey::Char('a'));
    let ctrl_b = KeyWithModifier::new(BareKey::Char('b')).with_ctrl_modifier();
    let esc = KeyWithModifier::new(BareKey::Esc);
    assert_eq!(state.key_command(&a), KeyCommand::Type('a'));
    assert_eq!(state.key_command(&ctrl_b), KeyCommand::Ignore);
    assert_eq!(state.on_key(&a), HostAction::Nothing);
    assert_eq!(state.on_key(&ctrl_b), HostAction::Nothing);
    assert_eq!(state.search_key, "a");
    assert_eq!(state.on_key(&esc), HostAction::Hide);
    assert_eq!(state.search_key, "");
}

#[test]
fn key_toggles_star_of_selected_pane() {
    let mut state = listed_state();
    state.selected = 1;
    let space = KeyWithModifier::new(BareKey::Char(' '));
    assert_eq!(state.key_command(&space), KeyCommand::ToggleStar);
    state.on_key(&space);
    assert_eq!(state.stars.to_vec(), vec![PaneId::Terminal(2)]);
    state.on_key(&space);
    assert!(state.stars.to_vec().is_empty());
}

#[test]
fn choosing_on_empty_list_does_nothing() {
    let mut state = State::default();
    state.search_key = String::from("abc");
    assert_eq!(state.apply_key_command(KeyCommand::NavigateTo), HostAction::Nothing);
    assert_eq!(state.apply_key_command(KeyCommand::ToggleStar), HostAction::Nothing);
    assert_eq!(state.search_key, "abc");
    assert!(state.stars.to_vec().is_empty());
}

#[test]
fn pipe_from_elsewhere_is_declined() {
    let mut state = listed_state();
    assert_eq!(state.pipe(false, true, "list_panes"), None);
    assert_eq!(state.pipe(true, false, "list_panes"), None);
}

#[test]
fn pipe_actions() {
    let mut state = listed_state();
    assert_eq!(state.pipe(true, true, "list_panes"), Some(HostAction::ShowSelf));
    assert_eq!(state.pipe(true, true, "navigate_back"), Some(HostAction::Nothing));
    assert_eq!(state.pipe(true, true, "next_star"), Some(HostAction::Nothing));
    assert_eq!(state.pipe(true, true, "toggle_star"), Some(HostAction::Nothing));
    assert_eq!(state.stars.to_vec(), vec![PaneId::Terminal(2)]);
    state.stars.toggle(PaneId::Terminal(55));
    assert_eq!(state.pipe(true, true, "next_star"), Some(HostAction::Focus(PaneId::Terminal(55))));
    assert_eq!(state.pipe(true, true, "previous_star"), Some(HostAction::Focus(PaneId::Terminal(55))));
    assert_eq!(state.pipe(true, true, "List_Panes"), Some(HostAction::Nothing));
    state.previous_focus = Some(PaneId::Terminal(1));
    assert_eq!(state.pipe(true, true, "navigate_back"), Some(HostAction::Focus(PaneId::Terminal(1))));
}

#[test]
fn global_keys_are_bound_once() {
    let mut state = State {
        plugin_id: Some(42),
        ..Default::default()
    };
    assert!(state.on_mode_update(None).is_empty());
    assert!(!state.bound_key);
    let configs = state.on_mode_update(Some(InputMode::Normal));
    assert_eq!(configs.len(), 5);
    assert!(configs[0].0.contains("MessagePluginId 42"));
    assert!(state.bound_key);
    assert!(state.on_mode_update(Some(InputMode::Locked)).is_empty());
}

#[test]
fn global_keys_wait_for_plugin_id() {
    let mut state = State::default();
    assert!(state.on_mode_update(Some(InputMode::Normal)).is_empty());
    assert!(!state.bound_key);
}

#[test]
fn pipe_messages_leave_the_rest_alone() {
    let mut state = listed_state();
    state.search_key = String::from("ab");
    state.bound_key = true;
    state.plugin_id = Some(9);
    state.selected = 1;
    state.previous_focus = Some(PaneId::Terminal(1));
    for (from_keybind, is_private, name) in [
        (false, true, "toggle_star"),
        (true, true, "list_panes"),
        (true, true, "navigate_back"),
        (true, true, "next_star"),
        (true, true, "previous_star"),
        (true, true, "unknown"),
    ] {
        state.pipe(from_keybind, is_private, name);
        assert_eq!(state.search_key, "ab");
        assert!(state.bound_key);
        assert_eq!(state.plugin_id, Some(9));
        assert_eq!(state.selected, 1);
        assert_eq!(state.current_focus, Some(PaneId::Terminal(2)));
        assert_eq!(state.previous_focus, Some(PaneId::Terminal(1)));
        assert_eq!(state.panes.len(), 3);
        assert_eq!(state.tab_infos.len(), 2);
        assert_eq!(state.pane_infos.len(), 2);
        assert!(state.stars.to_vec().is_empty());
    }
}

#[test]
fn choosing_a_pane_keeps_the_focus() {
    let mut state = listed_state();
    state.previous_focus = Some(PaneId::Terminal(1));
    state.selected = 2;
    let enter = KeyWithModifier::new(BareKey::Enter);
    assert_eq!(state.on_key(&enter), HostAction::FocusAndHide(PaneId::Terminal(55)));
    assert_eq!(state.current_focus, Some(PaneId::Terminal(2)));
    assert_eq!(state.previous_focus, Some(PaneId::Terminal(1)));
    assert_eq!(state.selected, 2);
    assert!(!state.bound_key);
}
