use crate::pane_id::{contains_pane, PaneId};
use std::collections::HashMap;
use vstd::prelude::*;

verus! {

/// What the registry reads of a tab: its name and whether it is the active one.
/// A tab's position in the snapshot is its index.
#[derive(Debug, Default)]
pub struct TabInfo {
    pub name: String,
    pub active: bool,
}

/// What the registry reads of a pane.
#[derive(Debug, Default)]
pub struct PaneInfo {
    pub id: u32,
    pub title: String,
    pub is_plugin: bool,
    pub is_focused: bool,
    pub is_suppressed: bool,
    pub is_selectable: bool,
}

/// A pane on the list: its tab's name and title as they were at the rebuild.
#[derive(Debug)]
pub struct Pane {
    pub tab_name: String,
    pub pane_id: PaneId,
    pub pane_title: String,
}

pub open spec fn pane_id_of(p: PaneInfo) -> PaneId {
    if p.is_plugin {
        PaneId::Plugin(p.id)
    } else {
        PaneId::Terminal(p.id)
    }
}

/// A pane goes on the list when it is not this plugin's own pane, is not
/// suppressed, and is selectable.
pub open spec fn is_listed(p: PaneInfo, own: Option<u32>) -> bool {
    &&& !(p.is_plugin && own == Some(p.id))
    &&& !p.is_suppressed
    &&& p.is_selectable
}

/// A focused terminal pane of the active tab.
pub open spec fn is_focus(tab: TabInfo, p: PaneInfo) -> bool {
    p.is_focused && tab.active && !p.is_plugin
}

pub open spec fn entry_of(tab: TabInfo, p: PaneInfo) -> Pane {
    Pane { tab_name: tab.name, pane_id: pane_id_of(p), pane_title: p.title }
}

/// The list entries of one tab, in the order of its panes.
pub open spec fn tab_rows(tab: TabInfo, ps: Seq<PaneInfo>, own: Option<u32>) -> Seq<Pane>
    decreases ps.len(),
{
    if ps.len() == 0 {
        Seq::empty()
    } else {
        let rest = tab_rows(tab, ps.drop_last(), own);
        if is_listed(ps.last(), own) {
            rest.push(entry_of(tab, ps.last()))
        } else {
            rest
        }
    }
}

/// The last listed focus pane of one tab, if any.
pub open spec fn tab_focus(tab: TabInfo, ps: Seq<PaneInfo>, own: Option<u32>) -> Option<PaneId>
    decreases ps.len(),
{
    if ps.len() == 0 {
        None
    } else if is_listed(ps.last(), own) && is_focus(tab, ps.last()) {
        Some(pane_id_of(ps.last()))
    } else {
        tab_focus(tab, ps.drop_last(), own)
    }
}

/// The panes that the pane snapshot holds for the tab at position `t`.
pub open spec fn panes_at(infos: Map<usize, Vec<PaneInfo>>, t: int) -> Seq<PaneInfo> {
    if infos.contains_key(t as usize) {
        infos[t as usize]@
    } else {
        Seq::empty()
    }
}

/// The list entries of the first `n` tabs.
pub open spec fn rows_upto(
    tabs: Seq<TabInfo>,
    infos: Map<usize, Vec<PaneInfo>>,
    own: Option<u32>,
    n: int,
) -> Seq<Pane>
    decreases n,
{
    if n <= 0 {
        Seq::empty()
    } else {
        rows_upto(tabs, infos, own, n - 1) + tab_rows(tabs[n - 1], panes_at(infos, n - 1), own)
    }
}

/// The focus pane found last in the first `n` tabs.
pub open spec fn focus_upto(
    tabs: Seq<TabInfo>,
    infos: Map<usize, Vec<PaneInfo>>,
    own: Option<u32>,
    n: int,
) -> Option<PaneId>
    decreases n,
{
    if n <= 0 {
        None
    } else {
        match tab_focus(tabs[n - 1], panes_at(infos, n - 1), own) {
            Some(f) => Some(f),
            None => focus_upto(tabs, infos, own, n - 1),
        }
    }
}

/// The list: tabs in snapshot order, each tab's listed panes in snapshot order.
pub open spec fn visible_panes(
    tabs: Seq<TabInfo>,
    infos: Map<usize, Vec<PaneInfo>>,
    own: Option<u32>,
) -> Seq<Pane> {
    rows_upto(tabs, infos, own, tabs.len() as int)
}

/// The pane that the snapshots report as focused, if any.
pub open spec fn focus_candidate(
    tabs: Seq<TabInfo>,
    infos: Map<usize, Vec<PaneInfo>>,
    own: Option<u32>,
) -> Option<PaneId> {
    focus_upto(tabs, infos, own, tabs.len() as int)
}

pub open spec fn ids_of(panes: Seq<Pane>) -> Seq<PaneId> {
    panes.map_values(|p: Pane| p.pane_id)
}

/// Current and previous focus after a rebuild that found `candidate` and the
/// pane ids `ids`.
pub open spec fn reconciled(
    current: Option<PaneId>,
    previous: Option<PaneId>,
    candidate: Option<PaneId>,
    ids: Seq<PaneId>,
) -> (Option<PaneId>, Option<PaneId>) {
    if candidate is None || candidate == current {
        (current, previous)
    } else if current is Some && ids.contains(current->Some_0) {
        (candidate, current)
    } else if previous is Some && ids.contains(previous->Some_0) {
        (candidate, previous)
    } else {
        (candidate, None)
    }
}

/// `e` is the entry of a listed pane among `ps`.
pub open spec fn row_from(tab: TabInfo, ps: Seq<PaneInfo>, own: Option<u32>, e: Pane) -> bool {
    exists|j: int| 0 <= j < ps.len() && is_listed(#[trigger] ps[j], own) && e == entry_of(tab, ps[j])
}

/// `e` is the entry of a listed pane of some tab of the snapshots.
pub open spec fn from_listed_pane(
    tabs: Seq<TabInfo>,
    infos: Map<usize, Vec<PaneInfo>>,
    own: Option<u32>,
    e: Pane,
) -> bool {
    exists|t: int| 0 <= t < tabs.len() && #[trigger] row_from(tabs[t], panes_at(infos, t), own, e)
}

proof fn lemma_tab_rows_listed(tab: TabInfo, ps: Seq<PaneInfo>, own: Option<u32>)
    ensures
        forall|i: int|
            0 <= i < tab_rows(tab, ps, own).len() ==> row_from(
                tab,
                ps,
                own,
                #[trigger] tab_rows(tab, ps, own)[i],
            ),
    decreases ps.len(),
{
    if ps.len() > 0 {
        let init = ps.drop_last();
        lemma_tab_rows_listed(tab, init, own);
        let rows = tab_rows(tab, ps, own);
        assert forall|i: int| 0 <= i < rows.len() implies row_from(
            tab,
            ps,
            own,
            #[trigger] rows[i],
        ) by {
            let sub = tab_rows(tab, init, own);
            if i < sub.len() {
                assert(rows[i] == sub[i]);
                assert(row_from(tab, init, own, sub[i]));
                let j = choose|j: int|
                    0 <= j < init.len() && is_listed(#[trigger] init[j], own) && sub[i]
                        == entry_of(tab, init[j]);
                assert(ps[j] == init[j]);
            } else {
                assert(ps[ps.len() - 1] == ps.last());
            }
        }
    }
}

proof fn lemma_rows_upto_listed(
    tabs: Seq<TabInfo>,
    infos: Map<usize, Vec<PaneInfo>>,
    own: Option<u32>,
    n: int,
)
    requires
        0 <= n <= tabs.len(),
    ensures
        forall|i: int|
            0 <= i < rows_upto(tabs, infos, own, n).len() ==> from_listed_pane(
                tabs,
                infos,
                own,
                #[trigger] rows_upto(tabs, infos, own, n)[i],
            ),
    decreases n,
{
    if n > 0 {
        lemma_rows_upto_listed(tabs, infos, own, n - 1);
        let sub = rows_upto(tabs, infos, own, n - 1);
        let last = tab_rows(tabs[n - 1], panes_at(infos, n - 1), own);
        lemma_tab_rows_listed(tabs[n - 1], panes_at(infos, n - 1), own);
        let rows = rows_upto(tabs, infos, own, n);
        assert forall|i: int| 0 <= i < rows.len() implies from_listed_pane(
            tabs,
            infos,
            own,
            #[trigger] rows[i],
        ) by {
            if i < sub.len() {
                assert(rows[i] == sub[i]);
            } else {
                assert(rows[i] == last[i - sub.len()]);
                assert(row_from(tabs[n - 1], panes_at(infos, n - 1), own, last[i - sub.len()]));
            }
        }
    }
}

/// Every entry of the list comes from a pane of the snapshots that is not
/// suppressed, is selectable and is not this plugin's own pane; so no entry
/// carries this plugin's own pane id.
pub proof fn lemma_only_listed_panes(
    tabs: Seq<TabInfo>,
    infos: Map<usize, Vec<PaneInfo>>,
    own: Option<u32>,
)
    ensures
        forall|i: int|
            0 <= i < visible_panes(tabs, infos, own).len() ==> from_listed_pane(
                tabs,
                infos,
                own,
                #[trigger] visible_panes(tabs, infos, own)[i],
            ),
        own is Some ==> !ids_of(visible_panes(tabs, infos, own)).contains(
            PaneId::Plugin(own->Some_0),
        ),
{
    lemma_rows_upto_listed(tabs, infos, own, tabs.len() as int);
    let v = visible_panes(tabs, infos, own);
    if own is Some && ids_of(v).contains(PaneId::Plugin(own->Some_0)) {
        let i = choose|i: int| 0 <= i < ids_of(v).len() && ids_of(v)[i] == PaneId::Plugin(own->Some_0);
        assert(from_listed_pane(tabs, infos, own, v[i]));
        let t = choose|t: int| 0 <= t < tabs.len() && #[trigger] row_from(tabs[t], panes_at(infos, t), own, v[i]);
        let ps = panes_at(infos, t);
        let j = choose|j: int|
            0 <= j < ps.len() && is_listed(#[trigger] ps[j], own) && v[i] == entry_of(tabs[t], ps[j]);
    }
}

/// Holds of the panes that go on the list.
pub open spec fn listed_by(own: Option<u32>) -> spec_fn(PaneInfo) -> bool {
    |p: PaneInfo| is_listed(p, own)
}

/// Makes the list entry of a pane of `tab`.
pub open spec fn entry_in(tab: TabInfo) -> spec_fn(PaneInfo) -> Pane {
    |p: PaneInfo| entry_of(tab, p)
}

/// The entries of one tab, stated with filter and map.
pub open spec fn listed_rows(tab: TabInfo, ps: Seq<PaneInfo>, own: Option<u32>) -> Seq<Pane> {
    ps.filter(listed_by(own)).map_values(entry_in(tab))
}

proof fn lemma_tab_rows_filter(tab: TabInfo, ps: Seq<PaneInfo>, own: Option<u32>)
    ensures
        tab_rows(tab, ps, own) == listed_rows(tab, ps, own),
    decreases ps.len(),
{
    reveal(Seq::filter);
    if ps.len() > 0 {
        lemma_tab_rows_filter(tab, ps.drop_last(), own);
        let sub = ps.drop_last().filter(listed_by(own));
        if is_listed(ps.last(), own) {
            assert(sub.push(ps.last()).map_values(entry_in(tab)) =~= sub.map_values(
                entry_in(tab),
            ).push(entry_of(tab, ps.last())));
        }
    } else {
        assert(listed_rows(tab, ps, own) =~= Seq::<Pane>::empty());
    }
}

proof fn lemma_rows_upto_flatten(
    tabs: Seq<TabInfo>,
    infos: Map<usize, Vec<PaneInfo>>,
    own: Option<u32>,
    n: int,
)
    requires
        0 <= n <= tabs.len(),
    ensures
        rows_upto(tabs, infos, own, n) == Seq::new(
            n as nat,
            |t: int| listed_rows(tabs[t], panes_at(infos, t), own),
        ).flatten_alt(),
    decreases n,
{
    let f = |t: int| listed_rows(tabs[t], panes_at(infos, t), own);
    if n > 0 {
        lemma_rows_upto_flatten(tabs, infos, own, n - 1);
        lemma_tab_rows_filter(tabs[n - 1], panes_at(infos, n - 1), own);
        assert(Seq::new(n as nat, f).drop_last() =~= Seq::new((n - 1) as nat, f));
    } else {
        assert(Seq::new(n as nat, f).len() == 0);
    }
}

/// The list holds the tabs in snapshot order and, within each tab, its listed
/// panes in snapshot order: nothing is sorted or moved.
pub proof fn lemma_snapshot_order(
    tabs: Seq<TabInfo>,
    infos: Map<usize, Vec<PaneInfo>>,
    own: Option<u32>,
)
    ensures
        visible_panes(tabs, infos, own) == Seq::new(
            tabs.len(),
            |t: int| listed_rows(tabs[t], panes_at(infos, t), own),
        ).flatten(),
{
    lemma_rows_upto_flatten(tabs, infos, own, tabs.len() as int);
    Seq::new(tabs.len(), |t: int| listed_rows(tabs[t], panes_at(infos, t), own)).lemma_flatten_and_flatten_alt_are_equivalent();
}

/// When the current focus is still on the list and another pane becomes the
/// focus, the old current focus becomes the previous one.
pub proof fn lemma_focus_swap(
    current: PaneId,
    previous: Option<PaneId>,
    new_focus: PaneId,
    ids: Seq<PaneId>,
)
    requires
        ids.contains(current),
        new_focus != current,
    ensures
        reconciled(Some(current), previous, Some(new_focus), ids) == (
            Some(new_focus),
            Some(current),
        ),
{
}

/// When the current focus has left the list but the previous focus is still
/// on it, a new focus leaves the previous focus as it was.
pub proof fn lemma_focus_retention(
    current: PaneId,
    previous: PaneId,
    new_focus: PaneId,
    ids: Seq<PaneId>,
)
    requires
        !ids.contains(current),
        ids.contains(previous),
    ensures
        reconciled(Some(current), Some(previous), Some(new_focus), ids).1 == Some(previous),
        reconciled(Some(current), Some(previous), Some(new_focus), ids).0 == Some(new_focus),
{
}

/// Builds the list from the two snapshots, and finds the focus pane that they report.
pub fn collect_panes(
    tab_infos: &Vec<TabInfo>,
    pane_infos: &HashMap<usize, Vec<PaneInfo>>,
    plugin_id: Option<u32>,
) -> (r: (Vec<Pane>, Option<PaneId>))
    ensures
        r.0@ == visible_panes(tab_infos@, pane_infos@, plugin_id),
        r.1 == focus_candidate(tab_infos@, pane_infos@, plugin_id),
{
    broadcast use vstd::std_specs::hash::group_hash_axioms;

    let mut panes: Vec<Pane> = Vec::new();
    let mut current_focus: Option<PaneId> = None;
    let mut tab_id: usize = 0;
    while tab_id < tab_infos.len()
        invariant
            0 <= tab_id <= tab_infos@.len(),
            panes@ == rows_upto(tab_infos@, pane_infos@, plugin_id, tab_id as int),
            current_focus == focus_upto(tab_infos@, pane_infos@, plugin_id, tab_id as int),
        decreases tab_infos@.len() - tab_id,
    {
        let tab_info = &tab_infos[tab_id];
        let ghost before = panes@;
        let ghost focus_before = current_focus;
        match pane_infos.get(&tab_id) {
            Some(infos) => {
                let ghost ps = infos@;
                assert(ps == panes_at(pane_infos@, tab_id as int));
                let mut j: usize = 0;
                while j < infos.len()
                    invariant
                        0 <= j <= ps.len(),
                        ps == infos@,
                        panes@ == before + tab_rows(*tab_info, ps.take(j as int), plugin_id),
                        current_focus == match tab_focus(
                            *tab_info,
                            ps.take(j as int),
                            plugin_id,
                        ) {
                            Some(f) => Some(f),
                            None => focus_before,
                        },
                    decreases ps.len() - j,
                {
                    let pane_info = &infos[j];
                    assert(ps.take(j + 1).drop_last() =~= ps.take(j as int));
                    assert(ps.take(j + 1).last() == *pane_info);
                    let own_pane = match plugin_id {
                        Some(id) => pane_info.is_plugin && pane_info.id == id,
                        None => false,
                    };
                    if !own_pane && !pane_info.is_suppressed && pane_info.is_selectable {
                        let pane_id = if pane_info.is_plugin {
                            PaneId::Plugin(pane_info.id)
                        } else {
                            PaneId::Terminal(pane_info.id)
                        };
                        panes.push(
                            Pane {
                                tab_name: tab_info.name.clone(),
                                pane_id,
                                pane_title: pane_info.title.clone(),
                            },
                        );
                        if pane_info.is_focused && tab_info.active && !pane_info.is_plugin {
                            current_focus = Some(pane_id);
                        }
                    }
                    j = j + 1;
                }
                assert(ps.take(ps.len() as int) =~= ps);
            },
            None => {
                assert(panes_at(pane_infos@, tab_id as int) =~= Seq::<PaneInfo>::empty());
                assert(panes@ =~= before + Seq::<Pane>::empty());
            },
        }
        tab_id = tab_id + 1;
    }
    (panes, current_focus)
}

/// The ids of the panes, in their order.
pub fn pane_ids(panes: &Vec<Pane>) -> (r: Vec<PaneId>)
    ensures
        r@ == ids_of(panes@),
{
    let mut ids: Vec<PaneId> = Vec::new();
    let mut i: usize = 0;
    while i < panes.len()
        invariant
            0 <= i <= panes@.len(),
            ids@ == ids_of(panes@.take(i as int)),
        decreases panes@.len() - i,
    {
        ids.push(panes[i].pane_id);
        i = i + 1;
        assert(ids_of(panes@.take(i as int)) =~= ids_of(panes@.take(i - 1)).push(
            panes@[i - 1].pane_id,
        ));
    }
    assert(panes@.take(panes@.len() as int) =~= panes@);
    ids
}

/// Decides the current and previous focus after a rebuild. A new focus pane
/// makes the old current focus the previous one while that pane is still on
/// the list; when it is gone, a previous focus that is still on the list
/// stays; else there is no previous focus.
pub fn reconcile_focus(
    current: Option<PaneId>,
    previous: Option<PaneId>,
    candidate: Option<PaneId>,
    ids: &[PaneId],
) -> (r: (Option<PaneId>, Option<PaneId>))
    ensures
        r == reconciled(current, previous, candidate, ids@),
{
    if candidate.is_none() || candidate == current {
        return (current, previous);
    }
    let current_listed = match current {
        Some(c) => contains_pane(ids, c),
        None => false,
    };
    if current_listed {
        return (candidate, current);
    }
    let previous_listed = match previous {
        Some(p) => contains_pane(ids, p),
        None => false,
    };
    if previous_listed {
        (candidate, previous)
    } else {
        (candidate, None)
    }
}

} // verus!
