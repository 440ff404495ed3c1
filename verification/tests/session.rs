use heartfield::session::{Outcome, Point, Session};

fn pt(x: i32, y: i32) -> Point {
    Point { x, y }
}

#[test]
fn collects_single_target_at_origin_and_wins() {
    let mut s = Session::with_targets(vec![pt(0, 0)]);
    s.on_pointer_move(pt(0, 0));
    assert_eq!(s.targets.len(), 0);
    assert_eq!(s.growth, 22);
    assert_eq!(s.outcome, Outcome::Won);
}

#[test]
fn far_target_is_kept_and_session_stays_active() {
    let mut s = Session::with_targets(vec![pt(200, 200)]);
    s.on_pointer_move(pt(0, 0));
    assert_eq!(s.targets, vec![pt(200, 200)]);
    assert_eq!(s.growth, 20);
    assert_eq!(s.outcome, Outcome::Active);
}

#[test]
fn empty_field_wins_on_first_pointer_move() {
    let mut s = Session::with_targets(Vec::new());
    s.on_pointer_move(pt(123, -456));
    assert_eq!(s.outcome, Outcome::Won);
    assert_eq!(s.pointer, pt(123, -456));
    assert_eq!(s.growth, 20);
}

#[test]
fn decay_of_last_target_loses() {
    let mut s = Session::with_targets(vec![pt(10, 10)]);
    s.tick(300);
    assert_eq!(s.targets.len(), 0);
    assert_eq!(s.outcome, Outcome::Lost);
    assert_eq!(s.last_decay_time, 300);
}

#[test]
fn decay_waits_for_a_full_period() {
    let mut s = Session::with_targets(vec![pt(1, 1)]);
    s.tick(250);
    assert_eq!(s.targets.len(), 1);
    assert_eq!(s.last_decay_time, 0);
    assert_eq!(s.outcome, Outcome::Active);
    s.tick(251);
    assert_eq!(s.targets.len(), 0);
    assert_eq!(s.last_decay_time, 251);
    assert_eq!(s.outcome, Outcome::Lost);
}

#[test]
fn repeated_tick_with_same_clock_decays_once() {
    let mut s = Session::with_targets(vec![pt(0, 0), pt(50, 50), pt(-50, 30)]);
    s.tick(300);
    assert_eq!(s.targets.len(), 2);
    let after_first = s.targets.clone();
    s.tick(300);
    assert_eq!(s.targets, after_first);
    assert_eq!(s.last_decay_time, 300);
    assert_eq!(s.outcome, Outcome::Active);
}

#[test]
fn decay_removes_exactly_one_target() {
    let mut s = Session::with_targets(vec![pt(0, 0), pt(1, 1), pt(2, 2), pt(3, 3)]);
    s.tick(1000);
    assert_eq!(s.targets.len(), 3);
    assert_eq!(s.growth, 20);
    assert_eq!(s.outcome, Outcome::Active);
}

#[test]
fn tick_on_empty_field_is_a_no_op() {
    let mut s = Session::with_targets(Vec::new());
    s.tick(10_000);
    assert_eq!(s.last_decay_time, 0);
    assert_eq!(s.outcome, Outcome::Active);
}

#[test]
fn won_session_is_not_flipped_by_late_decay() {
    let mut s = Session::with_targets(vec![pt(0, 0)]);
    s.on_pointer_move(pt(0, 0));
    assert_eq!(s.outcome, Outcome::Won);
    s.tick(100_000);
    assert_eq!(s.outcome, Outcome::Won);
}

#[test]
fn lost_session_is_not_flipped_by_pointer_move() {
    let mut s = Session::with_targets(vec![pt(5, 5)]);
    s.tick(300);
    assert_eq!(s.outcome, Outcome::Lost);
    s.on_pointer_move(pt(5, 5));
    assert_eq!(s.outcome, Outcome::Lost);
    assert_eq!(s.targets.len(), 0);
}

#[test]
fn radius_grows_during_the_sweep() {
    // At the initial radius 20 the second target (distance 21) is out of
    // range, but collecting the first raises the radius to 22 first.
    let mut s = Session::with_targets(vec![pt(0, 0), pt(21, 0)]);
    s.on_pointer_move(pt(0, 0));
    assert_eq!(s.targets.len(), 0);
    assert_eq!(s.growth, 24);
    assert_eq!(s.outcome, Outcome::Won);
}

#[test]
fn sweep_order_matters() {
    // The same two targets in the other order: (21, 0) is tested while
    // the radius is still 20 and survives.
    let mut s = Session::with_targets(vec![pt(21, 0), pt(0, 0)]);
    s.on_pointer_move(pt(0, 0));
    assert_eq!(s.targets, vec![pt(21, 0)]);
    assert_eq!(s.growth, 22);
    assert_eq!(s.outcome, Outcome::Active);
}

#[test]
fn growth_is_capped_but_collection_continues() {
    // 41 coincident targets: the first 40 collections raise the radius
    // from 20 to its cap of 100; the 41st target is still collected at
    // the cap, and the far target survives.
    let mut targets = vec![pt(0, 0); 41];
    targets.push(pt(300, 300));
    let mut s = Session::with_targets(targets);
    s.on_pointer_move(pt(0, 0));
    assert_eq!(s.growth, 100);
    assert_eq!(s.targets, vec![pt(300, 300)]);
    assert_eq!(s.outcome, Outcome::Active);
}

#[test]
fn boundary_distance_is_not_collected() {
    // Distance exactly equal to the radius is not "within" it.
    let mut s = Session::with_targets(vec![pt(20, 0)]);
    s.on_pointer_move(pt(0, 0));
    assert_eq!(s.targets, vec![pt(20, 0)]);
    assert_eq!(s.growth, 20);
    assert_eq!(s.outcome, Outcome::Active);
}

#[test]
fn new_session_starts_as_specified() {
    let s = Session::new(720, 720, 50);
    assert_eq!(s.targets.len(), 50);
    for t in &s.targets {
        assert!(-360 <= t.x && t.x < 360);
        assert!(-360 <= t.y && t.y < 360);
    }
    assert_eq!(s.pointer, pt(0, 0));
    assert_eq!(s.growth, 20);
    assert_eq!(s.last_decay_time, 0);
    assert_eq!(s.outcome, Outcome::Active);
}

#[test]
fn new_session_in_tiny_window_stays_in_bounds() {
    let s = Session::new(2, 2, 10);
    assert_eq!(s.targets.len(), 10);
    for t in &s.targets {
        assert!(t.x == -1 || t.x == 0);
        assert!(t.y == -1 || t.y == 0);
    }
}

#[test]
fn pointer_move_updates_pointer_without_touching_decay_clock() {
    let mut s = Session::with_targets(vec![pt(200, 0)]);
    s.tick(400);
    assert_eq!(s.last_decay_time, 400);
    let mut s2 = Session::with_targets(vec![pt(200, 0), pt(-200, 0)]);
    s2.tick(400);
    s2.on_pointer_move(pt(7, -9));
    assert_eq!(s2.pointer, pt(7, -9));
    assert_eq!(s2.last_decay_time, 400);
}
