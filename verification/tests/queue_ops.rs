use disco_bot::queue::{clear_queue, move_track};
use std::collections::VecDeque;

fn engine_queue(entries: &[u32]) -> VecDeque<u32> {
    entries.iter().copied().collect()
}

#[test]
fn move_first_visible_entry_down_swaps_engine_places_one_and_two() {
    // now playing + a visible queue of three entries
    let mut queue = engine_queue(&[10, 11, 12, 13]);
    move_track(&mut queue, 0, 1);
    assert_eq!(queue, engine_queue(&[10, 12, 11, 13]));
}

#[test]
fn move_to_place_behind_visible_queue_is_ignored() {
    let mut queue = engine_queue(&[10, 11, 12, 13]);
    move_track(&mut queue, 0, 3);
    assert_eq!(queue, engine_queue(&[10, 11, 12, 13]));
    move_track(&mut queue, 0, 100);
    assert_eq!(queue, engine_queue(&[10, 11, 12, 13]));
}

#[test]
fn move_from_place_behind_visible_queue_is_ignored() {
    let mut queue = engine_queue(&[10, 11, 12, 13]);
    move_track(&mut queue, 3, 0);
    assert_eq!(queue, engine_queue(&[10, 11, 12, 13]));
}

#[test]
fn move_with_largest_index_is_ignored() {
    let mut queue = engine_queue(&[10, 11, 12]);
    move_track(&mut queue, usize::MAX, 0);
    assert_eq!(queue, engine_queue(&[10, 11, 12]));
    move_track(&mut queue, 0, usize::MAX);
    assert_eq!(queue, engine_queue(&[10, 11, 12]));
}

#[test]
fn move_last_visible_entry_to_front_of_visible_queue() {
    let mut queue = engine_queue(&[10, 11, 12, 13]);
    move_track(&mut queue, 2, 0);
    assert_eq!(queue, engine_queue(&[10, 13, 11, 12]));
}

#[test]
fn move_entry_onto_itself_changes_nothing() {
    let mut queue = engine_queue(&[10, 11, 12]);
    move_track(&mut queue, 1, 1);
    assert_eq!(queue, engine_queue(&[10, 11, 12]));
}

#[test]
fn move_on_queue_without_upcoming_tracks_is_ignored() {
    let mut queue = engine_queue(&[10]);
    move_track(&mut queue, 0, 0);
    assert_eq!(queue, engine_queue(&[10]));
    let mut empty = engine_queue(&[]);
    move_track(&mut empty, 0, 0);
    assert_eq!(empty, engine_queue(&[]));
}

#[test]
fn move_never_touches_now_playing_and_keeps_entries() {
    for from in 0..4usize {
        for to in 0..4usize {
            let mut queue = engine_queue(&[10, 11, 12, 13]);
            move_track(&mut queue, from, to);
            assert_eq!(queue.len(), 4);
            assert_eq!(queue[0], 10);
            let mut sorted: Vec<u32> = queue.iter().copied().collect();
            sorted.sort();
            assert_eq!(sorted, vec![10, 11, 12, 13]);
        }
    }
}

#[test]
fn clear_with_now_playing_and_two_queued_leaves_one_entry() {
    let mut queue = engine_queue(&[10, 11, 12]);
    clear_queue(&mut queue);
    assert_eq!(queue, engine_queue(&[10]));
}

#[test]
fn clear_on_single_entry_and_on_empty_queue_changes_nothing() {
    let mut queue = engine_queue(&[10]);
    clear_queue(&mut queue);
    assert_eq!(queue, engine_queue(&[10]));
    let mut empty = engine_queue(&[]);
    clear_queue(&mut empty);
    assert_eq!(empty, engine_queue(&[]));
}
