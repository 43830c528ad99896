use vstd::prelude::*;

verus! {

/// Identity of a pane. Terminal panes and plugin panes number their ids
/// separately, so the tag is part of the identity.
#[derive(Clone, Copy, Debug, PartialEq, Eq, Structural, Hash)]
pub enum PaneId {
    Terminal(u32),
    Plugin(u32),
}

/// Plugin keys start here, above every terminal key.
pub const PLUGIN_KEY_BASE: u64 = 4294967296;

/// A pane id packed into one integer: terminal ids as they are, plugin ids
/// shifted above the terminal range.
pub open spec fn key_of(p: PaneId) -> u64 {
    match p {
        PaneId::Terminal(n) => n as u64,
        PaneId::Plugin(n) => (n as u64 + PLUGIN_KEY_BASE) as u64,
    }
}

/// The pane id that a key stands for.
pub open spec fn pane_of_key(k: u64) -> PaneId {
    if k < PLUGIN_KEY_BASE {
        PaneId::Terminal(k as u32)
    } else {
        PaneId::Plugin((k - PLUGIN_KEY_BASE) as u32)
    }
}

/// Keys that `key_of` can produce.
pub open spec fn is_pane_key(k: u64) -> bool {
    k < 2 * PLUGIN_KEY_BASE
}

/// Packing a pane id and unpacking it again gives the same id.
pub proof fn lemma_key_round_trip(p: PaneId)
    ensures
        is_pane_key(key_of(p)),
        pane_of_key(key_of(p)) == p,
{
}

/// On the keys that `key_of` produces, unpacking and packing again gives the same key.
pub proof fn lemma_pane_round_trip(k: u64)
    requires
        is_pane_key(k),
    ensures
        key_of(pane_of_key(k)) == k,
{
}

impl PaneId {
    /// The numeric id, whatever the tag.
    pub fn number(&self) -> (r: u32)
        ensures
            r == match *self {
                PaneId::Terminal(n) => n,
                PaneId::Plugin(n) => n,
            },
    {
        match *self {
            PaneId::Terminal(n) => n,
            PaneId::Plugin(n) => n,
        }
    }

    pub fn key(&self) -> (r: u64)
        ensures
            r == key_of(*self),
    {
        match *self {
            PaneId::Terminal(n) => n as u64,
            PaneId::Plugin(n) => n as u64 + PLUGIN_KEY_BASE,
        }
    }

    pub fn from_key(k: u64) -> (r: PaneId)
        ensures
            r == pane_of_key(k),
    {
        if k < PLUGIN_KEY_BASE {
            PaneId::Terminal(k as u32)
        } else {
            PaneId::Plugin((k - PLUGIN_KEY_BASE) as u32)
        }
    }
}

/// Whether `ids` holds `p`.
pub fn contains_pane(ids: &[PaneId], p: PaneId) -> (r: bool)
    ensures
        r == ids@.contains(p),
{
    let mut i: usize = 0;
    while i < ids.len()
        invariant
            0 <= i <= ids@.len(),
            forall|j: int| 0 <= j < i ==> ids@[j] != p,
        decreases ids@.len() - i,
    {
        if ids[i] == p {
            return true;
        }
        i = i + 1;
    }
    false
}

} // verus!
