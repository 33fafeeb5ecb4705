use std::collections::VecDeque;
use vt_client::mesh::ribbon_indices;
use vt_client::trail::commit_crumb;

/// The engine ribbon's shipped step and cap.
const MIN_STEP: f32 = 5.0;
const MAX_CRUMBS: usize = 64;

/// Commit a crumb at `x` along a straight run, the way the trail does: the
/// distance from the newest crumb is measured here, the rest is the library's.
fn commit(crumbs: &mut VecDeque<f32>, x: f32) {
    let far = crumbs.front().is_some_and(|&last| (x - last).abs() >= MIN_STEP);
    commit_crumb(crumbs, x, far, MAX_CRUMBS);
}

#[test]
fn a_short_step_commits_nothing_and_moves_nothing() {
    let mut crumbs = VecDeque::new();
    commit(&mut crumbs, 0.0);
    commit(&mut crumbs, MIN_STEP * 0.5);
    assert_eq!(crumbs.len(), 1, "a sub-step move should not commit a crumb");
    assert_eq!(crumbs[0], 0.0, "committed crumbs never move");
}

#[test]
fn a_full_step_commits_a_new_crumb_at_the_front() {
    let mut crumbs = VecDeque::new();
    commit(&mut crumbs, 0.0);
    commit(&mut crumbs, MIN_STEP * 1.5);
    assert_eq!(crumbs.len(), 2);
    assert_eq!(crumbs[0], MIN_STEP * 1.5, "newest crumb is first");
    assert_eq!(crumbs[1], 0.0, "the older crumb falls back");
}

#[test]
fn history_is_capped() {
    let mut crumbs = VecDeque::new();
    for i in 0..(MAX_CRUMBS * 2) {
        commit(&mut crumbs, i as f32 * MIN_STEP * 2.0);
    }
    assert_eq!(crumbs.len(), MAX_CRUMBS);
}

#[test]
fn the_live_head_is_drawn_without_being_committed() {
    let mut crumbs = VecDeque::new();
    commit(&mut crumbs, 0.0);
    // One committed crumb plus a live head is already a drawable ribbon.
    let head = MIN_STEP * 0.5;
    let keep_head = (head - crumbs[0]).abs() > 1e-3;
    let points = usize::from(keep_head) + crumbs.len();
    let idx = ribbon_indices(points);
    assert_eq!(idx.len(), 6, "head + one crumb => one quad");
    assert!(idx.iter().all(|&i| i < 4), "four vertices");
    assert_eq!(crumbs.len(), 1, "drawing the head must not commit it");
}

#[test]
fn an_empty_history_always_takes_the_first_crumb() {
    let mut crumbs: VecDeque<u32> = VecDeque::new();
    commit_crumb(&mut crumbs, 1, false, 8);
    assert_eq!(crumbs, VecDeque::from(vec![1]));
    commit_crumb(&mut crumbs, 2, false, 8);
    assert_eq!(crumbs, VecDeque::from(vec![1]), "a short step commits nothing");
}

#[test]
fn a_lowered_cap_trims_the_whole_excess_at_once() {
    let mut crumbs: VecDeque<u32> = VecDeque::from(vec![5, 4, 3, 2, 1]);
    commit_crumb(&mut crumbs, 6, true, 2);
    assert_eq!(crumbs, VecDeque::from(vec![6, 5]));
    commit_crumb(&mut crumbs, 7, true, 0);
    assert!(crumbs.is_empty());
}
