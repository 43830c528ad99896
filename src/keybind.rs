use vstd::prelude::*;
use zellij_tile::prelude::{BareKey, InputMode, KeyWithModifier};

verus! {

#[verifier::external_type_specification]
#[verifier::external_body]
pub struct ExKeyWithModifier(KeyWithModifier);

#[verifier::external_type_specification]
#[verifier::external_body]
pub struct ExInputMode(InputMode);

#[verifier::external_type_specification]
pub struct ExBareKey(BareKey);

/// Action names that the global key bindings send to this plugin.
pub const LIST_PANES: &'static str = "list_panes";
pub const NAVIGATE_BACK: &'static str = "navigate_back";
pub const TOGGLE_STAR: &'static str = "toggle_star";
pub const PREV_STAR: &'static str = "previous_star";
pub const NEXT_STAR: &'static str = "next_star";

/// Action names of the keys that act inside the plugin's own pane.
pub const PLUGIN_SELECT_DOWN: &'static str = "plugin_select_down";
pub const PLUGIN_SELECT_UP: &'static str = "plugin_select_up";
pub const PLUGIN_NAVIGATE_TO: &'static str = "plugin_navigate_to";
pub const PLUGIN_HIDE: &'static str = "plugin_hide";
pub const PLUGIN_TOGGLE_STAR: &'static str = "plugin_toggle_star";

/// The five global action names differ from one another.
pub proof fn lemma_global_names_distinct()
    ensures
        LIST_PANES@ != NAVIGATE_BACK@,
        LIST_PANES@ != TOGGLE_STAR@,
        LIST_PANES@ != NEXT_STAR@,
        LIST_PANES@ != PREV_STAR@,
        NAVIGATE_BACK@ != TOGGLE_STAR@,
        NAVIGATE_BACK@ != NEXT_STAR@,
        NAVIGATE_BACK@ != PREV_STAR@,
        TOGGLE_STAR@ != NEXT_STAR@,
        TOGGLE_STAR@ != PREV_STAR@,
        NEXT_STAR@ != PREV_STAR@,
{
    reveal_strlit("list_panes");
    reveal_strlit("navigate_back");
    reveal_strlit("toggle_star");
    reveal_strlit("next_star");
    reveal_strlit("previous_star");
    assert(LIST_PANES@.len() == 10);
    assert(NAVIGATE_BACK@.len() == 13);
    assert(TOGGLE_STAR@.len() == 11);
    assert(NEXT_STAR@.len() == 9);
    assert(PREV_STAR@.len() == 13);
    assert(NAVIGATE_BACK@[0] == 'n');
    assert(PREV_STAR@[0] == 'p');
}

/// The key `KeyWithModifier::new` makes of a bare key: no modifiers.
pub uninterp spec fn key_from_bare(b: BareKey) -> KeyWithModifier;

/// The key `KeyWithModifier::with_alt_modifier` makes: Alt added.
pub uninterp spec fn alt_of(k: KeyWithModifier) -> KeyWithModifier;

/// The key that `KeyWithModifier::from_str` reads from a descriptor, or
/// `None` where it reports an error.
pub uninterp spec fn parsed_key(s: Seq<char>) -> Option<KeyWithModifier>;

/// The descriptor that `KeyWithModifier`'s `Display` writes.
pub uninterp spec fn descriptor_of(k: KeyWithModifier) -> Seq<char>;

/// What `InputMode`'s `Debug` writes: the variant's name.
pub uninterp spec fn mode_text(m: InputMode) -> Seq<char>;

/// What `str::to_lowercase` returns.
pub uninterp spec fn lower_of(s: Seq<char>) -> Seq<char>;

/// What `str`'s `Debug` writes: the text quoted and escaped.
pub uninterp spec fn quoted_of(s: Seq<char>) -> Seq<char>;

/// Relies on `KeyWithModifier::new`.
#[verifier::external_body]
fn plain_key(b: BareKey) -> (r: KeyWithModifier)
    ensures
        r == key_from_bare(b),
{
    KeyWithModifier::new(b)
}

/// Relies on `KeyWithModifier::with_alt_modifier`.
#[verifier::external_body]
fn with_alt(k: KeyWithModifier) -> (r: KeyWithModifier)
    ensures
        r == alt_of(k),
{
    k.with_alt_modifier()
}

/// Relies on `KeyWithModifier::from_str`; its error is kept as its message.
#[verifier::external_body]
fn parse_key(s: &str) -> (r: Result<KeyWithModifier, String>)
    ensures
        match r {
            Ok(k) => parsed_key(s@) == Some(k),
            Err(_) => parsed_key(s@) is None,
        },
{
    <KeyWithModifier as std::str::FromStr>::from_str(s).map_err(|e| e.to_string())
}

/// Relies on `KeyWithModifier`'s `Display`.
#[verifier::external_body]
fn key_descriptor(k: &KeyWithModifier) -> (r: String)
    ensures
        r@ == descriptor_of(*k),
{
    k.to_string()
}

/// Relies on `InputMode`'s `Debug`.
#[verifier::external_body]
fn mode_name(m: InputMode) -> (r: String)
    ensures
        r@ == mode_text(m),
{
    format!("{:?}", m)
}

/// Relies on `str::to_lowercase`.
#[verifier::external_body]
fn lowercase(s: &str) -> (r: String)
    ensures
        r@ == lower_of(s@),
{
    s.to_lowercase()
}

/// Relies on `str`'s `Debug`.
#[verifier::external_body]
fn quoted(s: &str) -> (r: String)
    ensures
        r@ == quoted_of(s@),
{
    format!("{:?}", s)
}

pub open spec fn digit_char(d: nat) -> char {
    ((d + 48) as u8) as char
}

/// The decimal digits of `n`, most significant first, without leading zeros.
pub open spec fn decimal_text(n: nat) -> Seq<char>
    decreases n,
{
    if n < 10 {
        seq![digit_char(n)]
    } else {
        decimal_text(n / 10).push(digit_char(n % 10))
    }
}

/// Relies on `String::push`: the character goes at the end.
#[verifier::external_body]
pub(crate) fn push_char(s: &mut String, c: char)
    ensures
        final(s)@ == old(s)@.push(c),
{
    s.push(c)
}

/// The decimal digits of `n`, as `u32`'s `Display` writes them.
fn decimal(n: u32) -> (r: String)
    ensures
        r@ == decimal_text(n as nat),
    decreases n,
{
    let digit = ((n % 10) as u8 + 48) as char;
    if n < 10 {
        let mut r = String::new();
        push_char(&mut r, digit);
        r
    } else {
        let mut r = decimal(n / 10);
        push_char(&mut r, digit);
        r
    }
}

/// The fixed pieces of a configuration stanza, between its four values.
pub const CONFIG_OPEN: &'static str = "\n        keybinds {\n            ";

pub const CONFIG_BIND: &'static str = " {\n                bind \"";

pub const CONFIG_PLUGIN: &'static str = "\" {\n                    MessagePluginId ";

pub const CONFIG_NAME: &'static str = " {\n                        name \"";

pub const CONFIG_CLOSE: &'static str = "\"\n                    }\n                }\n            }\n        }\n        ";

/// One configuration stanza: in the mode block `mode`, bind the key
/// `key` to sending the message `action` to plugin `plugin_id`.
pub open spec fn config_text(
    mode: Seq<char>,
    key: Seq<char>,
    plugin_id: Seq<char>,
    action: Seq<char>,
) -> Seq<char> {
    CONFIG_OPEN@ + mode + CONFIG_BIND@ + key + CONFIG_PLUGIN@ + plugin_id + CONFIG_NAME@ + action
        + CONFIG_CLOSE@
}

/// The stanza that binds `key` in `mode` to the action `action` of plugin `plugin_id`.
pub open spec fn keybind_config(
    mode: InputMode,
    plugin_id: u32,
    key: KeyWithModifier,
    action: Seq<char>,
) -> Seq<char> {
    config_text(
        quoted_of(lower_of(mode_text(mode))),
        descriptor_of(key),
        decimal_text(plugin_id as nat),
        action,
    )
}

/// Builds the configuration text that binds `key`, in `mode`, to sending
/// the message `message_plugin_id` to plugin `plugin_id`.
pub fn create_keybind_config(
    mode: InputMode,
    plugin_id: u32,
    key: &KeyWithModifier,
    message_plugin_id: &str,
) -> (r: String)
    ensures
        r@ == keybind_config(mode, plugin_id, *key, message_plugin_id@),
{
    let mode_text = mode_name(mode);
    let lower = lowercase(mode_text.as_str());
    let mode_block = quoted(lower.as_str());
    let key_text = key_descriptor(key);
    let id_text = decimal(plugin_id);
    let mut r = String::from_str(CONFIG_OPEN);
    r.append(mode_block.as_str());
    r.append(CONFIG_BIND);
    r.append(key_text.as_str());
    r.append(CONFIG_PLUGIN);
    r.append(id_text.as_str());
    r.append(CONFIG_NAME);
    r.append(message_plugin_id);
    r.append(CONFIG_CLOSE);
    r
}

/// The key bound to each action; `None` leaves an action unbound.
#[derive(Debug)]
pub struct Keybinds {
    pub list_panes: Option<KeyWithModifier>,
    pub navigate_back: Option<KeyWithModifier>,
    pub toggle_star: Option<KeyWithModifier>,
    pub next_star: Option<KeyWithModifier>,
    pub previous_star: Option<KeyWithModifier>,
    // Keys that act while the plugin's own pane has the focus.
    pub plugin_select_down: Option<KeyWithModifier>,
    pub plugin_select_up: Option<KeyWithModifier>,
    pub plugin_navigate_to: Option<KeyWithModifier>,
    pub plugin_hide: Option<KeyWithModifier>,
    pub plugin_toggle_star: Option<KeyWithModifier>,
}

/// The built-in bindings.
pub open spec fn default_keybinds() -> Keybinds {
    Keybinds {
        list_panes: Some(alt_of(key_from_bare(BareKey::Char('y')))),
        navigate_back: Some(alt_of(key_from_bare(BareKey::Char('o')))),
        toggle_star: Some(alt_of(key_from_bare(BareKey::Char('l')))),
        next_star: Some(alt_of(key_from_bare(BareKey::Char('i')))),
        previous_star: Some(alt_of(key_from_bare(BareKey::Char('u')))),
        plugin_select_down: Some(key_from_bare(BareKey::Down)),
        plugin_select_up: Some(key_from_bare(BareKey::Up)),
        plugin_navigate_to: Some(key_from_bare(BareKey::Enter)),
        plugin_hide: Some(key_from_bare(BareKey::Esc)),
        plugin_toggle_star: Some(key_from_bare(BareKey::Char(' '))),
    }
}

impl Default for Keybinds {
    fn default() -> (r: Keybinds)
        ensures
            r == default_keybinds(),
    {
        Keybinds {
            list_panes: Some(with_alt(plain_key(BareKey::Char('y')))),
            navigate_back: Some(with_alt(plain_key(BareKey::Char('o')))),
            toggle_star: Some(with_alt(plain_key(BareKey::Char('l')))),
            next_star: Some(with_alt(plain_key(BareKey::Char('i')))),
            previous_star: Some(with_alt(plain_key(BareKey::Char('u')))),
            plugin_select_down: Some(plain_key(BareKey::Down)),
            plugin_select_up: Some(plain_key(BareKey::Up)),
            plugin_navigate_to: Some(plain_key(BareKey::Enter)),
            plugin_hide: Some(plain_key(BareKey::Esc)),
            plugin_toggle_star: Some(plain_key(BareKey::Char(' '))),
        }
    }
}

/// A key override that does not read as a key.
#[derive(Debug)]
pub enum KeybindError {
    /// The parser's message.
    FromStr(String),
}

/// The value given for `name` in the overrides: the first pair with that name.
pub open spec fn override_of(ov: Seq<(String, String)>, name: Seq<char>) -> Option<Seq<char>>
    decreases ov.len(),
{
    if ov.len() == 0 {
        None
    } else if ov[0].0@ == name {
        Some(ov[0].1@)
    } else {
        override_of(ov.drop_first(), name)
    }
}

/// The binding of `name` once the overrides apply: the built-in one when there
/// is no override, none for an empty override, else the key that the override
/// reads as.
pub open spec fn resolved(
    default: Option<KeyWithModifier>,
    ov: Seq<(String, String)>,
    name: Seq<char>,
) -> Option<KeyWithModifier> {
    match override_of(ov, name) {
        None => default,
        Some(t) => if t.len() == 0 {
            None
        } else {
            parsed_key(t)
        },
    }
}

/// The override of `name` is not empty and does not read as a key.
pub open spec fn override_fails(ov: Seq<(String, String)>, name: Seq<char>) -> bool {
    match override_of(ov, name) {
        None => false,
        Some(t) => t.len() > 0 && parsed_key(t) is None,
    }
}

/// Some override of a known action does not read as a key.
pub open spec fn any_override_fails(ov: Seq<(String, String)>) -> bool {
    ||| override_fails(ov, PLUGIN_SELECT_DOWN@)
    ||| override_fails(ov, PLUGIN_SELECT_UP@)
    ||| override_fails(ov, PLUGIN_NAVIGATE_TO@)
    ||| override_fails(ov, PLUGIN_HIDE@)
    ||| override_fails(ov, PLUGIN_TOGGLE_STAR@)
    ||| override_fails(ov, LIST_PANES@)
    ||| override_fails(ov, NAVIGATE_BACK@)
    ||| override_fails(ov, TOGGLE_STAR@)
    ||| override_fails(ov, PREV_STAR@)
    ||| override_fails(ov, NEXT_STAR@)
}

/// The bindings after the overrides apply to the built-in ones.
pub open spec fn overridden(ov: Seq<(String, String)>) -> Keybinds {
    let d = default_keybinds();
    Keybinds {
        list_panes: resolved(d.list_panes, ov, LIST_PANES@),
        navigate_back: resolved(d.navigate_back, ov, NAVIGATE_BACK@),
        toggle_star: resolved(d.toggle_star, ov, TOGGLE_STAR@),
        next_star: resolved(d.next_star, ov, NEXT_STAR@),
        previous_star: resolved(d.previous_star, ov, PREV_STAR@),
        plugin_select_down: resolved(d.plugin_select_down, ov, PLUGIN_SELECT_DOWN@),
        plugin_select_up: resolved(d.plugin_select_up, ov, PLUGIN_SELECT_UP@),
        plugin_navigate_to: resolved(d.plugin_navigate_to, ov, PLUGIN_NAVIGATE_TO@),
        plugin_hide: resolved(d.plugin_hide, ov, PLUGIN_HIDE@),
        plugin_toggle_star: resolved(d.plugin_toggle_star, ov, PLUGIN_TOGGLE_STAR@),
    }
}

/// The position of the first override for `name`.
fn find_override(overrides: &Vec<(String, String)>, name: &str) -> (r: Option<usize>)
    ensures
        match r {
            Some(i) => i < overrides@.len() && override_of(overrides@, name@) == Some(
                overrides@[i as int].1@,
            ),
            None => override_of(overrides@, name@) is None,
        },
{
    let wanted = String::from_str(name);
    let mut i: usize = 0;
    assert(overrides@.skip(0) =~= overrides@);
    while i < overrides.len()
        invariant
            0 <= i <= overrides@.len(),
            wanted@ == name@,
            override_of(overrides@, name@) == override_of(overrides@.skip(i as int), name@),
        decreases overrides@.len() - i,
    {
        let ghost rest = overrides@.skip(i as int);
        assert(rest[0] == overrides@[i as int]);
        if overrides[i].0 == wanted {
            return Some(i);
        }
        assert(rest.drop_first() =~= overrides@.skip(i + 1));
        i = i + 1;
    }
    None
}

/// Applies the override of `name`, if there is one, to the binding `default`.
fn resolve_binding(
    default: Option<KeyWithModifier>,
    overrides: &Vec<(String, String)>,
    name: &str,
) -> (r: Result<Option<KeyWithModifier>, KeybindError>)
    ensures
        match r {
            Ok(k) => !override_fails(overrides@, name@) && k == resolved(
                default,
                overrides@,
                name@,
            ),
            Err(_) => override_fails(overrides@, name@),
        },
{
    match find_override(overrides, name) {
        None => Ok(default),
        Some(i) => {
            let text = overrides[i].1.as_str();
            if text.is_empty() {
                Ok(None)
            } else {
                match parse_key(text) {
                    Ok(k) => Ok(Some(k)),
                    Err(message) => Err(KeybindError::FromStr(message)),
                }
            }
        },
    }
}

/// A binding paired with the action it sends.
pub open spec fn global_bindings(kb: Keybinds) -> Seq<(Option<KeyWithModifier>, Seq<char>)> {
    seq![
        (kb.list_panes, LIST_PANES@),
        (kb.navigate_back, NAVIGATE_BACK@),
        (kb.toggle_star, TOGGLE_STAR@),
        (kb.next_star, NEXT_STAR@),
        (kb.previous_star, PREV_STAR@),
    ]
}

/// The stanzas for the bound entries of `bs`, in their order.
pub open spec fn stanzas(
    bs: Seq<(Option<KeyWithModifier>, Seq<char>)>,
    mode: InputMode,
    plugin_id: u32,
) -> Seq<Seq<char>>
    decreases bs.len(),
{
    if bs.len() == 0 {
        Seq::empty()
    } else {
        let rest = stanzas(bs.drop_last(), mode, plugin_id);
        match bs.last().0 {
            Some(k) => rest.push(keybind_config(mode, plugin_id, k, bs.last().1)),
            None => rest,
        }
    }
}

/// Holds of the entries that carry a key.
pub open spec fn is_bound() -> spec_fn((Option<KeyWithModifier>, Seq<char>)) -> bool {
    |b: (Option<KeyWithModifier>, Seq<char>)| b.0 is Some
}

/// The stanza of a bound entry.
pub open spec fn stanza_of(mode: InputMode, plugin_id: u32) -> spec_fn(
    (Option<KeyWithModifier>, Seq<char>),
) -> Seq<char> {
    |b: (Option<KeyWithModifier>, Seq<char>)| keybind_config(mode, plugin_id, b.0->Some_0, b.1)
}

/// Binding emits one stanza for each entry that carries a key, in the order
/// of the entries, and none for an entry without a key.
pub proof fn lemma_unbound_skipped(
    bs: Seq<(Option<KeyWithModifier>, Seq<char>)>,
    mode: InputMode,
    plugin_id: u32,
)
    ensures
        stanzas(bs, mode, plugin_id) == bs.filter(is_bound()).map_values(
            stanza_of(mode, plugin_id),
        ),
    decreases bs.len(),
{
    reveal(Seq::filter);
    if bs.len() > 0 {
        lemma_unbound_skipped(bs.drop_last(), mode, plugin_id);
        let sub = bs.drop_last().filter(is_bound());
        if bs.last().0 is Some {
            assert(sub.push(bs.last()).map_values(stanza_of(mode, plugin_id)) =~= sub.map_values(
                stanza_of(mode, plugin_id),
            ).push(keybind_config(mode, plugin_id, bs.last().0->Some_0, bs.last().1)));
        }
    } else {
        assert(bs.filter(is_bound()).map_values(stanza_of(mode, plugin_id)) =~= Seq::<
            Seq<char>,
        >::empty());
    }
}

impl Keybinds {
    /// Reads the bindings from the plugin's configuration, given as
    /// (action name, key descriptor) pairs: an override replaces the
    /// built-in binding, an empty one unbinds the action, and names of no
    /// known action are ignored. One override that does not read as a key
    /// fails the whole configuration. The pairs come from a map, so each name
    /// appears once; should a name repeat, its first pair counts.
    pub fn from_overrides(overrides: &Vec<(String, String)>) -> (r: Result<Keybinds, KeybindError>)
        ensures
            match r {
                Ok(kb) => !any_override_fails(overrides@) && kb == overridden(overrides@),
                Err(_) => any_override_fails(overrides@),
            },
    {
        let Keybinds {
            list_panes,
            navigate_back,
            toggle_star,
            next_star,
            previous_star,
            plugin_select_down,
            plugin_select_up,
            plugin_navigate_to,
            plugin_hide,
            plugin_toggle_star,
        } = Keybinds::default();
        let plugin_select_down = match resolve_binding(plugin_select_down, overrides, PLUGIN_SELECT_DOWN) {
            Ok(k) => k,
            Err(e) => return Err(e),
        };
        let plugin_select_up = match resolve_binding(plugin_select_up, overrides, PLUGIN_SELECT_UP) {
            Ok(k) => k,
            Err(e) => return Err(e),
        };
        let plugin_navigate_to = match resolve_binding(plugin_navigate_to, overrides, PLUGIN_NAVIGATE_TO) {
            Ok(k) => k,
            Err(e) => return Err(e),
        };
        let plugin_hide = match resolve_binding(plugin_hide, overrides, PLUGIN_HIDE) {
            Ok(k) => k,
            Err(e) => return Err(e),
        };
        let plugin_toggle_star = match resolve_binding(plugin_toggle_star, overrides, PLUGIN_TOGGLE_STAR) {
            Ok(k) => k,
            Err(e) => return Err(e),
        };
        let list_panes = match resolve_binding(list_panes, overrides, LIST_PANES) {
            Ok(k) => k,
            Err(e) => return Err(e),
        };
        let navigate_back = match resolve_binding(navigate_back, overrides, NAVIGATE_BACK) {
            Ok(k) => k,
            Err(e) => return Err(e),
        };
        let toggle_star = match resolve_binding(toggle_star, overrides, TOGGLE_STAR) {
            Ok(k) => k,
            Err(e) => return Err(e),
        };
        let previous_star = match resolve_binding(previous_star, overrides, PREV_STAR) {
            Ok(k) => k,
            Err(e) => return Err(e),
        };
        let next_star = match resolve_binding(next_star, overrides, NEXT_STAR) {
            Ok(k) => k,
            Err(e) => return Err(e),
        };
        Ok(
            Keybinds {
                list_panes,
                navigate_back,
                toggle_star,
                next_star,
                previous_star,
                plugin_select_down,
                plugin_select_up,
                plugin_navigate_to,
                plugin_hide,
                plugin_toggle_star,
            },
        )
    }

    /// The configuration stanzas that bind the global keys in `base_mode`,
    /// one per bound action, in the order list, back, toggle, next,
    /// previous; each comes with the flag `false`.
    pub fn bind_global_keys(&self, base_mode: InputMode, plugin_id: u32) -> (r: Vec<(String, bool)>)
        ensures
            r@.map_values(|c: (String, bool)| c.0@) == stanzas(
                global_bindings(*self),
                base_mode,
                plugin_id,
            ),
            forall|i: int| 0 <= i < r@.len() ==> !(#[trigger] r@[i]).1,
    {
        let key_actions: [(&Option<KeyWithModifier>, &str); 5] = [
            (&self.list_panes, LIST_PANES),
            (&self.navigate_back, NAVIGATE_BACK),
            (&self.toggle_star, TOGGLE_STAR),
            (&self.next_star, NEXT_STAR),
            (&self.previous_star, PREV_STAR),
        ];
        let ghost bs = global_bindings(*self);
        let mut configs: Vec<(String, bool)> = Vec::new();
        let mut i: usize = 0;
        while i < 5
            invariant
                0 <= i <= 5,
                bs == global_bindings(*self),
                forall|j: int| 0 <= j < 5 ==> (*key_actions@[j].0, key_actions@[j].1@) == bs[j],
                configs@.map_values(|c: (String, bool)| c.0@) == stanzas(
                    bs.take(i as int),
                    base_mode,
                    plugin_id,
                ),
                forall|j: int| 0 <= j < configs@.len() ==> !(#[trigger] configs@[j]).1,
            decreases 5 - i,
        {
            let (key, action) = key_actions[i];
            assert(bs.take(i + 1).drop_last() =~= bs.take(i as int));
            assert(bs.take(i + 1).last() == bs[i as int]);
            if let Some(key) = key {
                let config = create_keybind_config(base_mode, plugin_id, key, action);
                let ghost before = configs@;
                configs.push((config, false));
                assert(configs@.map_values(|c: (String, bool)| c.0@) =~= before.map_values(
                    |c: (String, bool)| c.0@,
                ).push(config@));
            }
            i = i + 1;
        }
        assert(bs.take(5) =~= bs);
        configs
    }
}

} // verus!
