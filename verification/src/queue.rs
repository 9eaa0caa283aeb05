//! Reordering and truncation of the playback engine's queue. The entry at
//! the front is the track that plays now; what the presentation layer shows
//! as the queue starts behind it.

use std::collections::VecDeque;
use vstd::prelude::*;

verus! {

/// The engine queue after the entry at place `from` of the visible queue
/// went to place `to` of it. A place outside the visible queue leaves the
/// queue as it is.
pub open spec fn moved<T>(queue: Seq<T>, from: int, to: int) -> Seq<T> {
    if 0 <= from && 0 <= to && from + 1 < queue.len() && to + 1 < queue.len() {
        queue.remove(from + 1).insert(to + 1, queue[from + 1])
    } else {
        queue
    }
}

/// The engine queue cut down to the track that plays now.
pub open spec fn cleared<T>(queue: Seq<T>) -> Seq<T> {
    if queue.len() > 1 {
        queue.take(1)
    } else {
        queue
    }
}

/// Moves the entry at place `from` of the visible queue to place `to`.
pub fn move_track<T>(queue: &mut VecDeque<T>, from: usize, to: usize)
    ensures
        final(queue)@ == moved(old(queue)@, from as int, to as int),
{
    broadcast use vstd::std_specs::vecdeque::group_vec_dequeue_axioms;

    let len = queue.len();
    if len <= 1 {
        return;
    }
    if from >= len - 1 || to >= len - 1 {
        return;
    }
    let real_from = from + 1;
    let real_to = to + 1;
    if let Some(item) = queue.remove(real_from) {
        queue.insert(real_to, item);
    }
}

/// Removes every entry but the one that plays now.
pub fn clear_queue<T>(queue: &mut VecDeque<T>)
    ensures
        final(queue)@ == cleared(old(queue)@),
{
    broadcast use vstd::std_specs::vecdeque::group_vec_dequeue_axioms;

    if queue.len() > 1 {
        queue.truncate(1);
    }
}

/// A move keeps the length of the queue, the track that plays now, and the
/// entries themselves: it only reorders what is behind the front.
pub proof fn lemma_move_reorders_upcoming<T>(queue: Seq<T>, from: int, to: int)
    ensures
        moved(queue, from, to).len() == queue.len(),
        queue.len() > 0 ==> moved(queue, from, to)[0] == queue[0],
        moved(queue, from, to).to_multiset() == queue.to_multiset(),
{
    broadcast use vstd::seq_lib::group_to_multiset_ensures;

    if 0 <= from && 0 <= to && from + 1 < queue.len() && to + 1 < queue.len() {
        let item = queue[from + 1];
        let rest = queue.remove(from + 1);
        let out = rest.insert(to + 1, item);
        assert(rest.to_multiset() =~= queue.to_multiset().remove(item));
        crate::order::lemma_insert_to_multiset(rest, to + 1, item);
        assert(queue.to_multiset().count(item) > 0) by {
            assert(queue.contains(item));
        }
        assert(out.to_multiset() =~= queue.to_multiset());
    }
}

/// A move to or from a place outside the visible queue changes nothing.
pub proof fn lemma_move_out_of_range<T>(queue: Seq<T>, from: int, to: int)
    requires
        to + 1 >= queue.len() || from + 1 >= queue.len(),
    ensures
        moved(queue, from, to) == queue,
{
}

/// A move between two places touches no entry outside the span between
/// them.
pub proof fn lemma_move_is_local<T>(queue: Seq<T>, from: int, to: int, k: int)
    requires
        0 <= k < queue.len(),
        0 <= from,
        0 <= to,
        k < from + 1 && k < to + 1 || k > from + 1 && k > to + 1,
    ensures
        moved(queue, from, to)[k] == queue[k],
{
}

/// Clearing leaves the track that plays now and nothing else.
pub proof fn lemma_clear_keeps_now_playing<T>(queue: Seq<T>)
    ensures
        queue.len() >= 1 ==> cleared(queue) == seq![queue[0]],
        queue.len() == 0 ==> cleared(queue) == queue,
{
    if queue.len() >= 1 {
        assert(cleared(queue) =~= seq![queue[0]]);
    }
}

} // verus!
