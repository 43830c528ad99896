use pane_switcher::pane_id::PaneId;
use pane_switcher::star::Star;

fn star_of(ids: &[PaneId]) -> Star {
    let mut star = Star::new();
    for id in ids {
        star.toggle(*id);
    }
    star
}

fn empty_star() -> Star {
    Star::default()
}

fn one_star() -> Star {
    star_of(&[PaneId::Terminal(1)])
}

fn many_stars() -> Star {
    star_of(&[PaneId::Terminal(1), PaneId::Terminal(2), PaneId::Terminal(3)])
}

#[test]
fn test_star() {
    let mut star = Star::default();

    let pane_ids = vec![PaneId::Terminal(1), PaneId::Terminal(2), PaneId::Terminal(3)];

    star.add(PaneId::Terminal(2));
    star.add(PaneId::Terminal(10));
    star.add(PaneId::Terminal(3));
    star.add(PaneId::Terminal(2)); // Adding the same pane again has no effect.
    star.toggle(PaneId::Terminal(4));
    star.toggle(PaneId::Terminal(4));

    assert_eq!(
        star.to_vec(),
        vec![PaneId::Terminal(2), PaneId::Terminal(10), PaneId::Terminal(3)]
    );

    star.remove(&PaneId::Terminal(2));
    star.remove(&PaneId::Terminal(2)); // Removing the same pane again has no effect.

    assert_eq!(star.to_vec(), vec![PaneId::Terminal(10), PaneId::Terminal(3)]);

    star.sync(&pane_ids);

    assert_eq!(star.to_vec(), vec![PaneId::Terminal(3)]);

    assert!(star.has(&PaneId::Terminal(3)));
    assert!(!star.has(&PaneId::Terminal(2)));
}

#[test]
fn next_on_empty_star() {
    assert_eq!(empty_star().next(&PaneId::Terminal(2)), None);
}

#[test]
fn next_on_one_star_itself() {
    assert_eq!(one_star().next(&PaneId::Terminal(1)), Some(PaneId::Terminal(1)));
}

#[test]
fn next_on_one_star_unstarred() {
    assert_eq!(one_star().next(&PaneId::Terminal(10)), Some(PaneId::Terminal(1)));
}

#[test]
fn next_on_many_stars_unstarred() {
    assert_eq!(many_stars().next(&PaneId::Terminal(10)), Some(PaneId::Terminal(1)));
}

#[test]
fn next_on_many_stars_first() {
    assert_eq!(many_stars().next(&PaneId::Terminal(1)), Some(PaneId::Terminal(2)));
}

#[test]
fn next_on_many_stars_last() {
    assert_eq!(many_stars().next(&PaneId::Terminal(3)), Some(PaneId::Terminal(1)));
}

#[test]
fn previous_on_empty_star() {
    assert_eq!(empty_star().previous(&PaneId::Terminal(2)), None);
}

#[test]
fn previous_on_one_star_itself() {
    assert_eq!(one_star().previous(&PaneId::Terminal(1)), Some(PaneId::Terminal(1)));
}

#[test]
fn previous_on_one_star_unstarred() {
    assert_eq!(one_star().previous(&PaneId::Terminal(10)), Some(PaneId::Terminal(1)));
}

#[test]
fn previous_on_many_stars_unstarred() {
    assert_eq!(many_stars().previous(&PaneId::Terminal(10)), Some(PaneId::Terminal(1)));
}

#[test]
fn previous_on_many_stars_first() {
    assert_eq!(many_stars().previous(&PaneId::Terminal(1)), Some(PaneId::Terminal(3)));
}

#[test]
fn previous_on_many_stars_last() {
    assert_eq!(many_stars().previous(&PaneId::Terminal(3)), Some(PaneId::Terminal(2)));
}

#[test]
fn toggle_twice_restores_ring() {
    let mut star = many_stars();
    star.toggle(PaneId::Plugin(7));
    star.toggle(PaneId::Plugin(7));
    assert_eq!(
        star.to_vec(),
        vec![PaneId::Terminal(1), PaneId::Terminal(2), PaneId::Terminal(3)]
    );
    star.toggle(PaneId::Terminal(3));
    star.toggle(PaneId::Terminal(3));
    assert_eq!(
        star.to_vec(),
        vec![PaneId::Terminal(1), PaneId::Terminal(2), PaneId::Terminal(3)]
    );
}

#[test]
fn toggle_twice_moves_middle_star_last() {
    let mut star = many_stars();
    star.toggle(PaneId::Terminal(2));
    star.toggle(PaneId::Terminal(2));
    assert_eq!(
        star.to_vec(),
        vec![PaneId::Terminal(1), PaneId::Terminal(3), PaneId::Terminal(2)]
    );
}

#[test]
fn single_star_loops_both_ways() {
    let star = star_of(&[PaneId::Plugin(5)]);
    assert_eq!(star.next(&PaneId::Plugin(5)), Some(PaneId::Plugin(5)));
    assert_eq!(star.previous(&PaneId::Plugin(5)), Some(PaneId::Plugin(5)));
}

#[test]
fn ring_wraps_around() {
    let a = PaneId::Terminal(8);
    let b = PaneId::Plugin(8);
    let c = PaneId::Terminal(2);
    let star = star_of(&[a, b, c]);
    assert_eq!(star.next(&c), Some(a));
    assert_eq!(star.previous(&a), Some(c));
}

#[test]
fn sync_keeps_live_stars_in_order() {
    let mut star = star_of(&[
        PaneId::Terminal(4),
        PaneId::Plugin(4),
        PaneId::Terminal(9),
        PaneId::Terminal(1),
    ]);
    let live = vec![PaneId::Terminal(1), PaneId::Terminal(4), PaneId::Terminal(5)];
    star.sync(&live);
    assert_eq!(star.to_vec(), vec![PaneId::Terminal(4), PaneId::Terminal(1)]);
    star.sync(&[]);
    assert_eq!(star.to_vec(), Vec::<PaneId>::new());
}

#[test]
fn terminal_and_plugin_ids_stay_apart() {
    let mut star = Star::new();
    star.toggle(PaneId::Terminal(3));
    assert!(star.has(&PaneId::Terminal(3)));
    assert!(!star.has(&PaneId::Plugin(3)));
    star.toggle(PaneId::Plugin(3));
    assert_eq!(star.to_vec(), vec![PaneId::Terminal(3), PaneId::Plugin(3)]);
    star.remove(&PaneId::Terminal(3));
    assert_eq!(star.to_vec(), vec![PaneId::Plugin(3)]);
}

#[test]
fn pane_key_round_trip() {
    for id in [
        PaneId::Terminal(0),
        PaneId::Terminal(u32::MAX),
        PaneId::Plugin(0),
        PaneId::Plugin(u32::MAX),
    ] {
        assert_eq!(PaneId::from_key(id.key()), id);
    }
    assert_eq!(PaneId::Plugin(1).key(), 4294967297);
    assert_eq!(PaneId::Terminal(1).number(), 1);
}
