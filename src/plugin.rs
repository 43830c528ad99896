use crate::keybind::{
    global_bindings, lemma_global_names_distinct, push_char, stanzas, Keybinds, LIST_PANES, NAVIGATE_BACK, NEXT_STAR, PREV_STAR,
    TOGGLE_STAR,
};
use crate::pane_id::PaneId;
use crate::registry::{
    collect_panes, focus_candidate, ids_of, pane_ids, reconcile_focus, reconciled, visible_panes,
    Pane, PaneInfo, TabInfo,
};
use crate::star::{star_after, star_before, synced, toggled, Star};
use std::collections::HashMap;
use vstd::arithmetic::div_mod::{
    lemma_add_mod_noop_right, lemma_mod_add_multiples_vanish, lemma_small_mod,
};
use vstd::prelude::*;
use zellij_tile::prelude::{BareKey, InputMode, KeyWithModifier};

verus! {

/// Whether two keys are the same key to `KeyWithModifier`'s `PartialEq`,
/// which takes an upper-case character for its lower-case one with Shift.
pub uninterp spec fn keys_equal(a: KeyWithModifier, b: KeyWithModifier) -> bool;

/// The character of a character key, and `None` for any other key.
pub uninterp spec fn char_of_key(k: KeyWithModifier) -> Option<char>;

/// Whether a key is pressed without modifiers.
pub uninterp spec fn unmodified(k: KeyWithModifier) -> bool;

/// Relies on `KeyWithModifier`'s `PartialEq`.
#[verifier::external_body]
fn same_key(a: &KeyWithModifier, b: &KeyWithModifier) -> (r: bool)
    ensures
        r == keys_equal(*a, *b),
{
    a == b
}

/// Relies on the `bare_key` field of `KeyWithModifier` and `BareKey::Char`.
#[verifier::external_body]
fn key_char(k: &KeyWithModifier) -> (r: Option<char>)
    ensures
        r == char_of_key(*k),
{
    match k.bare_key {
        BareKey::Char(c) => Some(c),
        _ => None,
    }
}

/// Relies on `KeyWithModifier::has_no_modifiers`.
#[verifier::external_body]
fn has_no_modifiers(k: &KeyWithModifier) -> (r: bool)
    ensures
        r == unmodified(*k),
{
    k.has_no_modifiers()
}

/// What the host is asked to do after an event.
#[derive(Debug, Clone, Copy, PartialEq, Eq, Structural)]
pub enum HostAction {
    Nothing,
    /// Show this plugin's pane.
    ShowSelf,
    /// Hide this plugin's pane.
    Hide,
    /// Focus the pane, making its tab the active one.
    Focus(PaneId),
    /// Focus the pane, making its tab the active one, then hide this plugin's pane.
    FocusAndHide(PaneId),
}

/// What a key press inside the plugin's pane asks for.
#[derive(Debug, Clone, Copy, PartialEq, Eq, Structural)]
pub enum KeyCommand {
    SelectDown,
    SelectUp,
    NavigateTo,
    Hide,
    ToggleStar,
    /// A character typed into the search text.
    Type(char),
    Ignore,
}

/// One line of the pane table, its texts clipped to their columns.
#[derive(Debug)]
pub struct TableRow {
    pub starred: bool,
    pub tab_name: String,
    pub pane_number: u32,
    pub pane_title: String,
    pub selected: bool,
}

/// Whether `key` is the key of `binding`.
pub open spec fn key_matches(key: KeyWithModifier, binding: Option<KeyWithModifier>) -> bool {
    binding is Some && keys_equal(key, binding->Some_0)
}

/// The command that `key` gives under the bindings `kb`: the first binding
/// that it matches, else typing its character when it has no modifiers.
pub open spec fn command_of(kb: Keybinds, key: KeyWithModifier) -> KeyCommand {
    if key_matches(key, kb.plugin_select_down) {
        KeyCommand::SelectDown
    } else if key_matches(key, kb.plugin_select_up) {
        KeyCommand::SelectUp
    } else if key_matches(key, kb.plugin_navigate_to) {
        KeyCommand::NavigateTo
    } else if key_matches(key, kb.plugin_hide) {
        KeyCommand::Hide
    } else if key_matches(key, kb.plugin_toggle_star) {
        KeyCommand::ToggleStar
    } else if char_of_key(key) is Some && unmodified(key) {
        KeyCommand::Type(char_of_key(key)->Some_0)
    } else {
        KeyCommand::Ignore
    }
}

/// The selection after moving down a list of `len` panes.
pub open spec fn selection_below(selected: usize, len: nat) -> usize {
    if len == 0 {
        selected
    } else {
        ((selected + 1) % (len as int)) as usize
    }
}

/// The selection after moving up a list of `len` panes.
pub open spec fn selection_above(selected: usize, len: nat) -> usize {
    if len == 0 {
        selected
    } else {
        ((selected + len - 1) % (len as int)) as usize
    }
}

/// The selection kept in range after the list changed to `len` panes.
pub open spec fn clamped(selected: usize, len: nat) -> usize {
    if len == 0 {
        0
    } else if selected >= len {
        (len - 1) as usize
    } else {
        selected
    }
}

/// `s` cut to `max` characters, its end replaced by dots when it is cut.
pub open spec fn clipped(s: Seq<char>, max: nat) -> Seq<char> {
    if s.len() > max {
        if max >= 3 {
            s.take(max - 3) + seq!['.', '.', '.']
        } else {
            seq!['.', '.', '.'].take(max as int)
        }
    } else {
        s
    }
}

/// The pane that the selection points at, if it points at one.
pub open spec fn selected_pane(panes: Seq<Pane>, selected: usize) -> Option<PaneId> {
    if selected < panes.len() {
        Some(panes[selected as int].pane_id)
    } else {
        None
    }
}

/// Widest a tab name column gets.
pub const MAX_TAB_COLUMN: usize = 12;

/// Width of the columns and separators other than the tab name and title.
pub const FIXED_COLUMNS: usize = 7;

/// The length of the longest tab name among the panes.
pub open spec fn longest_tab_name(panes: Seq<Pane>) -> nat
    decreases panes.len(),
{
    if panes.len() == 0 {
        0
    } else {
        let rest = longest_tab_name(panes.drop_last());
        let n = panes.last().tab_name@.len();
        if n > rest {
            n
        } else {
            rest
        }
    }
}

/// The width of the tab name column: the longest name, at most the maximum;
/// the maximum when there are no panes.
pub open spec fn tab_column_width(panes: Seq<Pane>) -> nat {
    if panes.len() == 0 || longest_tab_name(panes) > MAX_TAB_COLUMN {
        MAX_TAB_COLUMN as nat
    } else {
        longest_tab_name(panes)
    }
}

/// The width left for pane titles in a table `width` columns wide, none when
/// the other columns take it all.
pub open spec fn title_column_width(panes: Seq<Pane>, width: usize) -> nat {
    if width >= tab_column_width(panes) + FIXED_COLUMNS {
        (width - tab_column_width(panes) - FIXED_COLUMNS) as nat
    } else {
        0
    }
}

/// Whether two texts are equal.
fn same_text(a: &str, b: &str) -> (r: bool)
    ensures
        r == (a@ == b@),
{
    String::from_str(a) == String::from_str(b)
}

/// Cuts `string` to `max_len` characters; a cut text ends in dots.
pub fn clip(string: &str, max_len: usize) -> (r: String)
    ensures
        r@ == clipped(string@, max_len as nat),
{
    let ellipsis = "...";
    proof {
        reveal_strlit("...");
    }
    assert(ellipsis@ =~= seq!['.', '.', '.']);
    let len = string.unicode_len();
    if len > max_len {
        if max_len >= 3 {
            let head = String::from_str(string.substring_char(0, max_len - 3));
            head.concat(ellipsis)
        } else {
            String::from_str(ellipsis.substring_char(0, max_len))
        }
    } else {
        String::from_str(string)
    }
}

/// The plugin's state: the last snapshots from the host, the list built from
/// them, focus history, stars, selection, search text and key bindings.
pub struct State {
    pub tab_infos: Vec<TabInfo>,
    pub pane_infos: HashMap<usize, Vec<PaneInfo>>,
    pub panes: Vec<Pane>,
    pub current_focus: Option<PaneId>,
    pub previous_focus: Option<PaneId>,
    pub selected: usize,
    pub search_key: String,
    pub stars: Star,
    /// Set once the global keys have been bound; they are bound once per
    /// plugin instance.
    pub bound_key: bool,
    pub keybinds: Keybinds,
    pub plugin_id: Option<u32>,
}

impl Default for State {
    fn default() -> (r: State)
        ensures
            r.tab_infos@.len() == 0,
            r.pane_infos@ == Map::<usize, Vec<PaneInfo>>::empty(),
            r.panes@.len() == 0,
            r.current_focus is None,
            r.previous_focus is None,
            r.selected == 0,
            r.search_key@.len() == 0,
            r.stars@.len() == 0,
            !r.bound_key,
            r.keybinds == crate::keybind::default_keybinds(),
            r.plugin_id is None,
    {
        State {
            tab_infos: Vec::new(),
            pane_infos: HashMap::new(),
            panes: Vec::new(),
            current_focus: None,
            previous_focus: None,
            selected: 0,
            search_key: String::new(),
            stars: Star::new(),
            bound_key: false,
            keybinds: Keybinds::default(),
            plugin_id: None,
        }
    }
}

impl State {
    /// A state with the given bindings and plugin id, and nothing else yet.
    pub fn new(keybinds: Keybinds, plugin_id: Option<u32>) -> (r: State)
        ensures
            r.tab_infos@.len() == 0,
            r.pane_infos@ == Map::<usize, Vec<PaneInfo>>::empty(),
            r.panes@.len() == 0,
            r.current_focus is None,
            r.previous_focus is None,
            r.selected == 0,
            r.search_key@.len() == 0,
            r.stars@.len() == 0,
            !r.bound_key,
            r.keybinds == keybinds,
            r.plugin_id == plugin_id,
    {
        State {
            tab_infos: Vec::new(),
            pane_infos: HashMap::new(),
            panes: Vec::new(),
            current_focus: None,
            previous_focus: None,
            selected: 0,
            search_key: String::new(),
            stars: Star::new(),
            bound_key: false,
            keybinds,
            plugin_id,
        }
    }

    /// Rebuilds the list from the stored snapshots, updates the current and
    /// previous focus, and drops the stars of panes that are gone. Either
    /// snapshot may be newer than the other.
    pub fn update_state(&mut self)
        ensures
            final(self).panes@ == visible_panes(
                old(self).tab_infos@,
                old(self).pane_infos@,
                old(self).plugin_id,
            ),
            (final(self).current_focus, final(self).previous_focus) == reconciled(
                old(self).current_focus,
                old(self).previous_focus,
                focus_candidate(old(self).tab_infos@, old(self).pane_infos@, old(self).plugin_id),
                ids_of(final(self).panes@),
            ),
            final(self).stars@ == synced(old(self).stars@, ids_of(final(self).panes@)),
            final(self).stars@.no_duplicates(),
            final(self).tab_infos == old(self).tab_infos,
            final(self).pane_infos == old(self).pane_infos,
            final(self).selected == old(self).selected,
            final(self).search_key == old(self).search_key,
            final(self).bound_key == old(self).bound_key,
            final(self).keybinds == old(self).keybinds,
            final(self).plugin_id == old(self).plugin_id,
    {
        let (panes, candidate) = collect_panes(&self.tab_infos, &self.pane_infos, self.plugin_id);
        let ids = pane_ids(&panes);
        let (current, previous) = reconcile_focus(
            self.current_focus,
            self.previous_focus,
            candidate,
            ids.as_slice(),
        );
        self.current_focus = current;
        self.previous_focus = previous;
        self.stars.sync(ids.as_slice());
        self.panes = panes;
    }

    /// Keeps the selection on the list after it changed.
    fn clamp_selection(&mut self)
        ensures
            final(self).selected == clamped(old(self).selected, old(self).panes@.len()),
            final(self).panes == old(self).panes,
            final(self).tab_infos == old(self).tab_infos,
            final(self).pane_infos == old(self).pane_infos,
            final(self).current_focus == old(self).current_focus,
            final(self).previous_focus == old(self).previous_focus,
            final(self).stars == old(self).stars,
            final(self).search_key == old(self).search_key,
            final(self).bound_key == old(self).bound_key,
            final(self).keybinds == old(self).keybinds,
            final(self).plugin_id == old(self).plugin_id,
    {
        let len = self.panes.len();
        if len == 0 {
            self.selected = 0;
        } else if self.selected >= len {
            self.selected = len - 1;
        }
    }

    /// Takes a new tab snapshot and rebuilds from it and the stored pane snapshot.
    pub fn on_tab_update(&mut self, tab_infos: Vec<TabInfo>)
        ensures
            final(self).tab_infos == tab_infos,
            final(self).panes@ == visible_panes(
                tab_infos@,
                old(self).pane_infos@,
                old(self).plugin_id,
            ),
            (final(self).current_focus, final(self).previous_focus) == reconciled(
                old(self).current_focus,
                old(self).previous_focus,
                focus_candidate(tab_infos@, old(self).pane_infos@, old(self).plugin_id),
                ids_of(final(self).panes@),
            ),
            final(self).stars@ == synced(old(self).stars@, ids_of(final(self).panes@)),
            final(self).selected == clamped(old(self).selected, final(self).panes@.len()),
            final(self).pane_infos == old(self).pane_infos,
            final(self).search_key == old(self).search_key,
            final(self).bound_key == old(self).bound_key,
            final(self).keybinds == old(self).keybinds,
            final(self).plugin_id == old(self).plugin_id,
    {
        self.tab_infos = tab_infos;
        self.update_state();
        self.clamp_selection();
    }

    /// Takes a new pane snapshot, keyed by tab position, and rebuilds from it
    /// and the stored tab snapshot.
    pub fn on_pane_update(&mut self, pane_infos: HashMap<usize, Vec<PaneInfo>>)
        ensures
            final(self).pane_infos == pane_infos,
            final(self).panes@ == visible_panes(
                old(self).tab_infos@,
                pane_infos@,
                old(self).plugin_id,
            ),
            (final(self).current_focus, final(self).previous_focus) == reconciled(
                old(self).current_focus,
                old(self).previous_focus,
                focus_candidate(old(self).tab_infos@, pane_infos@, old(self).plugin_id),
                ids_of(final(self).panes@),
            ),
            final(self).stars@ == synced(old(self).stars@, ids_of(final(self).panes@)),
            final(self).selected == clamped(old(self).selected, final(self).panes@.len()),
            final(self).tab_infos == old(self).tab_infos,
            final(self).search_key == old(self).search_key,
            final(self).bound_key == old(self).bound_key,
            final(self).keybinds == old(self).keybinds,
            final(self).plugin_id == old(self).plugin_id,
    {
        self.pane_infos = pane_infos;
        self.update_state();
        self.clamp_selection();
    }

    /// Moves the selection one pane down, from the last pane to the first.
    pub fn select_downward(&mut self)
        ensures
            final(self).selected == selection_below(old(self).selected, old(self).panes@.len()),
            final(self).panes == old(self).panes,
            final(self).stars == old(self).stars,
            final(self).search_key == old(self).search_key,
            final(self).current_focus == old(self).current_focus,
            final(self).previous_focus == old(self).previous_focus,
            final(self).keybinds == old(self).keybinds,
            final(self).tab_infos == old(self).tab_infos,
            final(self).pane_infos == old(self).pane_infos,
            final(self).bound_key == old(self).bound_key,
            final(self).plugin_id == old(self).plugin_id,
    {
        let len = self.panes.len();
        if len > 0 {
            let s = self.selected % len;
            let next = if s + 1 == len {
                0
            } else {
                s + 1
            };
            proof {
                lemma_add_mod_noop_right(1, self.selected as int, len as int);
                if s + 1 < len {
                    lemma_small_mod((s + 1) as nat, len as nat);
                } else {
                    vstd::arithmetic::div_mod::lemma_mod_self_0(len as int);
                }
                assert(next == (self.selected + 1) % (len as int));
            }
            self.selected = next;
        }
    }

    /// Moves the selection one pane up, from the first pane to the last.
    pub fn select_upward(&mut self)
        ensures
            final(self).selected == selection_above(old(self).selected, old(self).panes@.len()),
            final(self).panes == old(self).panes,
            final(self).stars == old(self).stars,
            final(self).search_key == old(self).search_key,
            final(self).current_focus == old(self).current_focus,
            final(self).previous_focus == old(self).previous_focus,
            final(self).keybinds == old(self).keybinds,
            final(self).tab_infos == old(self).tab_infos,
            final(self).pane_infos == old(self).pane_infos,
            final(self).bound_key == old(self).bound_key,
            final(self).plugin_id == old(self).plugin_id,
    {
        let len = self.panes.len();
        if len > 0 {
            let s = self.selected % len;
            let prev = if s == 0 {
                len - 1
            } else {
                s - 1
            };
            proof {
                lemma_add_mod_noop_right(len - 1, self.selected as int, len as int);
                if s == 0 {
                    lemma_small_mod((len - 1) as nat, len as nat);
                } else {
                    lemma_mod_add_multiples_vanish(s - 1, len as int);
                    lemma_small_mod((s - 1) as nat, len as nat);
                }
                assert(prev == (self.selected + len - 1) % (len as int));
            }
            self.selected = prev;
        }
    }

    /// Binds the global keys the first time the host reports its base mode:
    /// returns the configuration stanzas to send, and nothing on later reports.
    pub fn on_mode_update(&mut self, base_mode: Option<InputMode>) -> (r: Vec<(String, bool)>)
        ensures
            ({
                let binds = base_mode is Some && !old(self).bound_key && old(self).plugin_id is Some;
                &&& binds ==> r@.map_values(|c: (String, bool)| c.0@) == stanzas(
                    global_bindings(old(self).keybinds),
                    base_mode->Some_0,
                    old(self).plugin_id->Some_0,
                )
                &&& !binds ==> r@.len() == 0
                &&& final(self).bound_key == (old(self).bound_key || binds)
            }),
            forall|i: int| 0 <= i < r@.len() ==> !(#[trigger] r@[i]).1,
            final(self).keybinds == old(self).keybinds,
            final(self).panes == old(self).panes,
            final(self).stars == old(self).stars,
            final(self).current_focus == old(self).current_focus,
            final(self).previous_focus == old(self).previous_focus,
            final(self).selected == old(self).selected,
            final(self).search_key == old(self).search_key,
            final(self).tab_infos == old(self).tab_infos,
            final(self).pane_infos == old(self).pane_infos,
            final(self).plugin_id == old(self).plugin_id,
    {
        if let Some(mode) = base_mode {
            if !self.bound_key {
                if let Some(plugin_id) = self.plugin_id {
                    let configs = self.keybinds.bind_global_keys(mode, plugin_id);
                    self.bound_key = true;
                    return configs;
                }
            }
        }
        Vec::new()
    }

    /// Whether `key` is the key of `binding`.
    fn matches_binding(key: &KeyWithModifier, binding: &Option<KeyWithModifier>) -> (r: bool)
        ensures
            r == key_matches(*key, *binding),
    {
        match binding {
            Some(b) => same_key(key, b),
            None => false,
        }
    }

    /// The command that a key press inside the plugin's pane gives.
    pub fn key_command(&self, key: &KeyWithModifier) -> (r: KeyCommand)
        ensures
            r == command_of(self.keybinds, *key),
    {
        if Self::matches_binding(key, &self.keybinds.plugin_select_down) {
            KeyCommand::SelectDown
        } else if Self::matches_binding(key, &self.keybinds.plugin_select_up) {
            KeyCommand::SelectUp
        } else if Self::matches_binding(key, &self.keybinds.plugin_navigate_to) {
            KeyCommand::NavigateTo
        } else if Self::matches_binding(key, &self.keybinds.plugin_hide) {
            KeyCommand::Hide
        } else if Self::matches_binding(key, &self.keybinds.plugin_toggle_star) {
            KeyCommand::ToggleStar
        } else {
            match key_char(key) {
                Some(c) => if has_no_modifiers(key) {
                    KeyCommand::Type(c)
                } else {
                    KeyCommand::Ignore
                },
                None => KeyCommand::Ignore,
            }
        }
    }

    /// Carries out a command. Going to or starring the selected pane does
    /// nothing when no pane is selected (the list is empty).
    pub fn apply_key_command(&mut self, command: KeyCommand) -> (r: HostAction)
        ensures
            ({
                let len = old(self).panes@.len();
                let chosen = selected_pane(old(self).panes@, old(self).selected);
                match command {
                    KeyCommand::SelectDown => r == HostAction::Nothing && final(self).selected
                        == selection_below(old(self).selected, len),
                    KeyCommand::SelectUp => r == HostAction::Nothing && final(self).selected
                        == selection_above(old(self).selected, len),
                    KeyCommand::NavigateTo => match chosen {
                        Some(p) => r == HostAction::FocusAndHide(p) && final(self).search_key@.len()
                            == 0,
                        None => r == HostAction::Nothing && final(self).search_key == old(
                            self).search_key,
                    },
                    KeyCommand::Hide => r == HostAction::Hide && final(self).search_key@.len()
                        == 0,
                    KeyCommand::ToggleStar => r == HostAction::Nothing && final(self).stars@
                        == match chosen {
                        Some(p) => toggled(old(self).stars@, p),
                        None => old(self).stars@,
                    },
                    KeyCommand::Type(c) => r == HostAction::Nothing && final(self).search_key@
                        == old(self).search_key@.push(c),
                    KeyCommand::Ignore => r == HostAction::Nothing,
                }
            }),
            !(command is SelectDown || command is SelectUp) ==> final(self).selected == old(self).selected,
            !(command is ToggleStar && selected_pane(old(self).panes@, old(self).selected) is Some)
                ==> final(self).stars == old(self).stars,
            !(command is NavigateTo || command is Hide || command is Type) ==> final(self).search_key == old(self).search_key,
            final(self).panes == old(self).panes,
            final(self).current_focus == old(self).current_focus,
            final(self).previous_focus == old(self).previous_focus,
            final(self).keybinds == old(self).keybinds,
            final(self).tab_infos == old(self).tab_infos,
            final(self).pane_infos == old(self).pane_infos,
            final(self).bound_key == old(self).bound_key,
            final(self).plugin_id == old(self).plugin_id,
    {
        match command {
            KeyCommand::SelectDown => {
                self.select_downward();
                HostAction::Nothing
            },
            KeyCommand::SelectUp => {
                self.select_upward();
                HostAction::Nothing
            },
            KeyCommand::NavigateTo => {
                if self.selected < self.panes.len() {
                    let pane_id = self.panes[self.selected].pane_id;
                    self.search_key = String::new();
                    HostAction::FocusAndHide(pane_id)
                } else {
                    HostAction::Nothing
                }
            },
            KeyCommand::Hide => {
                self.search_key = String::new();
                HostAction::Hide
            },
            KeyCommand::ToggleStar => {
                if self.selected < self.panes.len() {
                    let pane_id = self.panes[self.selected].pane_id;
                    self.stars.toggle(pane_id);
                }
                HostAction::Nothing
            },
            KeyCommand::Type(c) => {
                push_char(&mut self.search_key, c);
                HostAction::Nothing
            },
            KeyCommand::Ignore => HostAction::Nothing,
        }
    }

    /// Handles a key press inside the plugin's pane.
    pub fn on_key(&mut self, key: &KeyWithModifier) -> (r: HostAction)
        ensures
            ({
                let command = command_of(old(self).keybinds, *key);
                let len = old(self).panes@.len();
                let chosen = selected_pane(old(self).panes@, old(self).selected);
                &&& r == match command {
                    KeyCommand::NavigateTo => match chosen {
                        Some(p) => HostAction::FocusAndHide(p),
                        None => HostAction::Nothing,
                    },
                    KeyCommand::Hide => HostAction::Hide,
                    _ => HostAction::Nothing,
                }
                &&& final(self).selected == match command {
                    KeyCommand::SelectDown => selection_below(old(self).selected, len),
                    KeyCommand::SelectUp => selection_above(old(self).selected, len),
                    _ => old(self).selected,
                }
                &&& final(self).stars@ == match (command, chosen) {
                    (KeyCommand::ToggleStar, Some(p)) => toggled(old(self).stars@, p),
                    _ => old(self).stars@,
                }
                &&& match (command, chosen) {
                    (KeyCommand::NavigateTo, Some(_)) => final(self).search_key@.len() == 0,
                    (KeyCommand::Hide, _) => final(self).search_key@.len() == 0,
                    (KeyCommand::Type(c), _) => final(self).search_key@ == old(
                        self).search_key@.push(c),
                    _ => final(self).search_key == old(self).search_key,
                }
                &&& !(command is ToggleStar && chosen is Some) ==> final(self).stars == old(
                    self).stars
            }),
            final(self).panes == old(self).panes,
            final(self).keybinds == old(self).keybinds,
            final(self).current_focus == old(self).current_focus,
            final(self).previous_focus == old(self).previous_focus,
            final(self).tab_infos == old(self).tab_infos,
            final(self).pane_infos == old(self).pane_infos,
            final(self).bound_key == old(self).bound_key,
            final(self).plugin_id == old(self).plugin_id,
    {
        let command = self.key_command(key);
        self.apply_key_command(command)
    }

    /// Handles a message sent by one of the global key bindings: `None` when
    /// the message is not one (it did not come from a key binding, or is not
    /// private), else what the host is to do.
    pub fn pipe(&mut self, from_keybind: bool, is_private: bool, name: &str) -> (r: Option<
        HostAction,
    >)
        ensures
            !(from_keybind && is_private) ==> r is None,
            from_keybind && is_private ==> r == Some(
                if name@ == LIST_PANES@ {
                    HostAction::ShowSelf
                } else if name@ == NAVIGATE_BACK@ {
                    match old(self).previous_focus {
                        Some(p) => HostAction::Focus(p),
                        None => HostAction::Nothing,
                    }
                } else if (name@ == NEXT_STAR@ || name@ == PREV_STAR@)
                    && old(self).current_focus is Some {
                    match if name@ == NEXT_STAR@ {
                        star_after(old(self).stars@, old(self).current_focus->Some_0)
                    } else {
                        star_before(old(self).stars@, old(self).current_focus->Some_0)
                    } {
                        Some(p) => HostAction::Focus(p),
                        None => HostAction::Nothing,
                    }
                } else {
                    HostAction::Nothing
                },
            ),
            final(self).stars@ == if from_keybind && is_private && name@ == TOGGLE_STAR@
                && old(self).current_focus is Some {
                toggled(old(self).stars@, old(self).current_focus->Some_0)
            } else {
                old(self).stars@
            },
            !(from_keybind && is_private && name@ == TOGGLE_STAR@ && old(self).current_focus is Some)
                ==> final(self).stars == old(self).stars,
            final(self).panes == old(self).panes,
            final(self).current_focus == old(self).current_focus,
            final(self).previous_focus == old(self).previous_focus,
            final(self).selected == old(self).selected,
            final(self).search_key == old(self).search_key,
            final(self).keybinds == old(self).keybinds,
            final(self).tab_infos == old(self).tab_infos,
            final(self).pane_infos == old(self).pane_infos,
            final(self).bound_key == old(self).bound_key,
            final(self).plugin_id == old(self).plugin_id,
    {
        if !(from_keybind && is_private) {
            return None;
        }
        proof {
            lemma_global_names_distinct();
        }
        let action = if same_text(name, LIST_PANES) {
            HostAction::ShowSelf
        } else if same_text(name, NAVIGATE_BACK) {
            match self.previous_focus {
                Some(id) => HostAction::Focus(id),
                None => HostAction::Nothing,
            }
        } else if same_text(name, TOGGLE_STAR) {
            if let Some(pane_id) = self.current_focus {
                self.stars.toggle(pane_id);
            }
            HostAction::Nothing
        } else if same_text(name, NEXT_STAR) {
            match self.current_focus {
                Some(pane_id) => match self.stars.next(&pane_id) {
                    Some(id) => HostAction::Focus(id),
                    None => HostAction::Nothing,
                },
                None => HostAction::Nothing,
            }
        } else if same_text(name, PREV_STAR) {
            match self.current_focus {
                Some(pane_id) => match self.stars.previous(&pane_id) {
                    Some(id) => HostAction::Focus(id),
                    None => HostAction::Nothing,
                },
                None => HostAction::Nothing,
            }
        } else {
            HostAction::Nothing
        };
        Some(action)
    }

    /// The width of the tab name column for the current list.
    fn tab_column(&self) -> (r: usize)
        ensures
            r == tab_column_width(self.panes@),
    {
        let mut longest: usize = 0;
        let mut i: usize = 0;
        while i < self.panes.len()
            invariant
                0 <= i <= self.panes@.len(),
                longest == longest_tab_name(self.panes@.take(i as int)),
            decreases self.panes@.len() - i,
        {
            assert(self.panes@.take(i + 1).drop_last() =~= self.panes@.take(i as int));
            let n = self.panes[i].tab_name.as_str().unicode_len();
            if n > longest {
                longest = n;
            }
            i = i + 1;
        }
        assert(self.panes@.take(self.panes@.len() as int) =~= self.panes@);
        if self.panes.len() == 0 || longest > MAX_TAB_COLUMN {
            MAX_TAB_COLUMN
        } else {
            longest
        }
    }

    /// The lines of the pane table for a table `width` columns wide: for each
    /// listed pane, whether it is starred, its tab name and title clipped to
    /// their columns, its number, and whether it is the selected one.
    pub fn panes_as_table(&self, width: usize) -> (r: Vec<TableRow>)
        ensures
            r@.len() == self.panes@.len(),
            forall|i: int|
                #![trigger r@[i]]
                0 <= i < r@.len() ==> {
                    let pane = self.panes@[i];
                    &&& r@[i].starred == self.stars@.contains(pane.pane_id)
                    &&& r@[i].tab_name@ == clipped(
                        pane.tab_name@,
                        tab_column_width(self.panes@),
                    )
                    &&& r@[i].pane_number == match pane.pane_id {
                        PaneId::Terminal(n) => n,
                        PaneId::Plugin(n) => n,
                    }
                    &&& r@[i].pane_title@ == clipped(
                        pane.pane_title@,
                        title_column_width(self.panes@, width),
                    )
                    &&& r@[i].selected == (i == self.selected)
                },
    {
        let tab_name_width = self.tab_column();
        let pane_title_width = if width >= tab_name_width + FIXED_COLUMNS {
            width - tab_name_width - FIXED_COLUMNS
        } else {
            0
        };
        let mut rows: Vec<TableRow> = Vec::new();
        let mut i: usize = 0;
        while i < self.panes.len()
            invariant
                0 <= i <= self.panes@.len(),
                tab_name_width == tab_column_width(self.panes@),
                pane_title_width == title_column_width(self.panes@, width),
                rows@.len() == i,
                forall|k: int|
                    #![trigger rows@[k]]
                    0 <= k < i ==> {
                        let pane = self.panes@[k];
                        &&& rows@[k].starred == self.stars@.contains(pane.pane_id)
                        &&& rows@[k].tab_name@ == clipped(pane.tab_name@, tab_name_width as nat)
                        &&& rows@[k].pane_number == match pane.pane_id {
                            PaneId::Terminal(n) => n,
                            PaneId::Plugin(n) => n,
                        }
                        &&& rows@[k].pane_title@ == clipped(
                            pane.pane_title@,
                            pane_title_width as nat,
                        )
                        &&& rows@[k].selected == (k == self.selected)
                    },
            decreases self.panes@.len() - i,
        {
            let pane = &self.panes[i];
            let row = TableRow {
                starred: self.stars.has(&pane.pane_id),
                tab_name: clip(pane.tab_name.as_str(), tab_name_width),
                pane_number: pane.pane_id.number(),
                pane_title: clip(pane.pane_title.as_str(), pane_title_width),
                selected: i == self.selected,
            };
            rows.push(row);
            i = i + 1;
        }
        rows
    }
}

} // verus!
