//! The order in which events are played.

use vstd::prelude::*;
use vstd::slice::slice_subrange;

use crate::render::events::{RenderedEvent, RenderedEventView};
use crate::smfmap::details;
use crate::smfmap::details::find_class_rank;
use crate::views;
use crate::views::push_viewed;

verus! {

/// The place of an event: by its tick, by its kind at one tick, by its track, and
/// among all these in the order in which it came.
#[derive(Clone, Copy, Debug, PartialEq, Eq, Structural)]
pub struct Key {
    pub tick: u64,
    pub priority: u8,
    pub track: usize,
    pub index: usize,
}

pub open spec fn key_before(a: Key, b: Key) -> bool {
    if a.tick != b.tick {
        a.tick < b.tick
    } else if a.priority != b.priority {
        a.priority < b.priority
    } else if a.track != b.track {
        a.track < b.track
    } else {
        a.index < b.index
    }
}

fn is_key_before(a: &Key, b: &Key) -> (r: bool)
    ensures
        r == key_before(*a, *b),
{
    if a.tick != b.tick {
        a.tick < b.tick
    } else if a.priority != b.priority {
        a.priority < b.priority
    } else if a.track != b.track {
        a.track < b.track
    } else {
        a.index < b.index
    }
}

/// Two ordered lists as one.
pub open spec fn merged(a: Seq<Key>, b: Seq<Key>) -> Seq<Key>
    decreases a.len() + b.len(),
{
    if a.len() == 0 {
        b
    } else if b.len() == 0 {
        a
    } else if key_before(b[0], a[0]) {
        seq![b[0]] + merged(a, b.skip(1))
    } else {
        seq![a[0]] + merged(a.skip(1), b)
    }
}

/// A list in order.
pub open spec fn arranged(s: Seq<Key>) -> Seq<Key>
    decreases s.len(),
{
    if s.len() <= 1 {
        s
    } else {
        let half = s.len() as int / 2;
        merged(arranged(s.take(half)), arranged(s.skip(half)))
    }
}

/// No key comes after one that it belongs before.
pub open spec fn in_key_order(s: Seq<Key>) -> bool {
    forall|i: int, j: int| 0 <= i < j < s.len() ==> !key_before(#[trigger] s[j], #[trigger] s[i])
}

proof fn merged_keeps_keys(a: Seq<Key>, b: Seq<Key>)
    ensures
        merged(a, b).to_multiset() == a.to_multiset().add(b.to_multiset()),
        merged(a, b).len() == a.len() + b.len(),
    decreases a.len() + b.len(),
{
    broadcast use vstd::seq_lib::group_to_multiset_ensures;

    if a.len() == 0 {
        assert(a =~= Seq::empty());
        assert(a.to_multiset().add(b.to_multiset()) =~= b.to_multiset());
    } else if b.len() == 0 {
        assert(b =~= Seq::empty());
        assert(a.to_multiset().add(b.to_multiset()) =~= a.to_multiset());
    } else if key_before(b[0], a[0]) {
        let rest = b.skip(1);
        merged_keeps_keys(a, rest);
        vstd::seq_lib::lemma_multiset_commutative(seq![b[0]], merged(a, rest));
        vstd::seq_lib::lemma_multiset_commutative(seq![b[0]], rest);
        assert(b =~= seq![b[0]] + rest);
        assert(merged(a, b).to_multiset() =~= a.to_multiset().add(b.to_multiset()));
    } else {
        let rest = a.skip(1);
        merged_keeps_keys(rest, b);
        vstd::seq_lib::lemma_multiset_commutative(seq![a[0]], merged(rest, b));
        vstd::seq_lib::lemma_multiset_commutative(seq![a[0]], rest);
        assert(a =~= seq![a[0]] + rest);
        assert(merged(a, b).to_multiset() =~= a.to_multiset().add(b.to_multiset()));
    }
}

proof fn merged_holds(a: Seq<Key>, b: Seq<Key>, x: Key)
    ensures
        merged(a, b).contains(x) ==> a.contains(x) || b.contains(x),
    decreases a.len() + b.len(),
{
    if a.len() > 0 && b.len() > 0 {
        let m = merged(a, b);
        if m.contains(x) {
            let k = choose|k: int| 0 <= k < m.len() && m[k] == x;
            if key_before(b[0], a[0]) {
                let rest = b.skip(1);
                merged_holds(a, rest, x);
                if k > 0 {
                    assert(merged(a, rest)[k - 1] == x);
                    if rest.contains(x) {
                        let j = choose|j: int| 0 <= j < rest.len() && rest[j] == x;
                        assert(b[j + 1] == x);
                    }
                }
            } else {
                let rest = a.skip(1);
                merged_holds(rest, b, x);
                if k > 0 {
                    assert(merged(rest, b)[k - 1] == x);
                    if rest.contains(x) {
                        let j = choose|j: int| 0 <= j < rest.len() && rest[j] == x;
                        assert(a[j + 1] == x);
                    }
                }
            }
        }
    }
}

proof fn merged_is_in_order(a: Seq<Key>, b: Seq<Key>)
    requires
        in_key_order(a),
        in_key_order(b),
    ensures
        in_key_order(merged(a, b)),
    decreases a.len() + b.len(),
{
    if a.len() > 0 && b.len() > 0 {
        let m = merged(a, b);
        let from_b = key_before(b[0], a[0]);
        let first = if from_b {
            b[0]
        } else {
            a[0]
        };
        let x = if from_b {
            a
        } else {
            a.skip(1)
        };
        let y = if from_b {
            b.skip(1)
        } else {
            b
        };
        merged_is_in_order(x, y);
        let rest = merged(x, y);
        assert(m =~= seq![first] + rest);
        assert forall|i: int, j: int| 0 <= i < j < m.len() implies !key_before(
            #[trigger] m[j],
            #[trigger] m[i],
        ) by {
            assert(m[j] == rest[j - 1]);
            if i == 0 {
                merged_holds(x, y, rest[j - 1]);
                if x.contains(rest[j - 1]) {
                    let k = choose|k: int| 0 <= k < x.len() && x[k] == rest[j - 1];
                    if from_b {
                        assert(k == 0 || !key_before(a[k], a[0]));
                    } else {
                        assert(!key_before(a[k + 1], a[0]));
                    }
                } else {
                    let k = choose|k: int| 0 <= k < y.len() && y[k] == rest[j - 1];
                    if from_b {
                        assert(!key_before(b[k + 1], b[0]));
                    } else {
                        assert(k == 0 || !key_before(b[k], b[0]));
                    }
                }
            } else {
                assert(m[i] == rest[i - 1]);
            }
        }
    }
}

/// Arranging keeps every key and puts all of them in order.
pub proof fn arranged_is_in_order(s: Seq<Key>)
    ensures
        in_key_order(arranged(s)),
        arranged(s).to_multiset() == s.to_multiset(),
        arranged(s).len() == s.len(),
    decreases s.len(),
{
    if s.len() > 1 {
        let half = s.len() as int / 2;
        let a = s.take(half);
        let b = s.skip(half);
        arranged_is_in_order(a);
        arranged_is_in_order(b);
        merged_is_in_order(arranged(a), arranged(b));
        merged_keeps_keys(arranged(a), arranged(b));
        vstd::seq_lib::lemma_multiset_commutative(a, b);
        assert(s =~= a + b);
    }
}

/// The keys of events.
pub open spec fn keys_of(events: Seq<RenderedEventView>) -> Seq<Key> {
    Seq::new(
        events.len(),
        |i: int|
            Key {
                tick: events[i].abs_tick,
                priority: events[i].priority,
                track: events[i].track_index,
                index: i as usize,
            },
    )
}

/// The events in the order in which they are played.
pub open spec fn play_order(events: Seq<RenderedEventView>) -> Seq<RenderedEventView> {
    let keys = arranged(keys_of(events));
    Seq::new(keys.len(), |i: int| events[keys[i].index as int])
}

proof fn arranged_keys_are_keys(events: Seq<RenderedEventView>, i: int)
    requires
        events.len() <= usize::MAX,
        0 <= i < arranged(keys_of(events)).len(),
    ensures
        ({
            let k = arranged(keys_of(events))[i];
            &&& k.index < events.len()
            &&& keys_of(events)[k.index as int] == k
        }),
{
    let keys = keys_of(events);
    let s = arranged(keys);
    arranged_is_in_order(keys);
    broadcast use vstd::seq_lib::group_to_multiset_ensures;

    assert(s.to_multiset().count(s[i]) > 0);
    assert(keys.contains(s[i]));
    let k = choose|k: int| 0 <= k < keys.len() && keys[k] == s[i];
    assert(keys[k].index == k);
}

/// The events with the ranks of their classes in an order.
pub open spec fn ranked(events: Seq<RenderedEventView>, order: Seq<u8>) -> Seq<RenderedEventView> {
    Seq::new(
        events.len(),
        |i: int|
            RenderedEventView { priority: details::class_rank(order, events[i].priority), ..events[i] },
    )
}

/// Gives events the ranks of their classes in an order.
pub fn rank_events(events: Vec<RenderedEvent>, order: &[u8]) -> (r: Vec<RenderedEvent>)
    ensures
        views::all_views(r@) == ranked(views::all_views(events@), order@),
{
    let ghost all = views::all_views(events@);
    let mut r = events;
    let mut i: usize = 0;
    while i < r.len()
        invariant
            i <= r@.len(),
            r@.len() == all.len(),
            forall|k: int|
                0 <= k < i ==> (#[trigger] r@[k]).deep_view() == ranked(all, order@)[k],
            forall|k: int| i <= k < r@.len() ==> (#[trigger] r@[k]).deep_view() == all[k],
        decreases r@.len() - i,
    {
        let priority = find_class_rank(order, r[i].priority);
        r[i].priority = priority;
        i += 1;
    }
    assert(views::all_views(r@) =~= ranked(all, order@));
    r
}

/// Without an order of its own a song is played in the usual one.
pub proof fn usual_order(events: Seq<RenderedEventView>)
    ensures
        ranked(events, Seq::empty()) == events,
{
    assert(ranked(events, Seq::empty()) =~= events);
}

/// Classes that an order names are played in that order, ahead of the others.
pub proof fn named_classes_come_first(order: Seq<u8>, i: int, j: int, other: u8)
    requires
        0 <= i < j < order.len(),
        order.len() < 128,
        forall|k: int| 0 <= k < i ==> order[k] != order[i],
        forall|k: int| 0 <= k < j ==> order[k] != order[j],
        0 < order[i],
        0 < order[j],
        0 < other < 128,
        !order.contains(other),
    ensures
        details::class_rank(order, order[i]) < details::class_rank(order, order[j]) < details::class_rank(order, other),
{
    place_of_named(order, i, 0);
    place_of_named(order, j, 0);
    place_of_unnamed(order, other, 0);
}

proof fn place_of_named(order: Seq<u8>, i: int, from: int)
    requires
        0 <= from <= i < order.len(),
        forall|k: int| 0 <= k < i ==> order[k] != order[i],
    ensures
        details::class_place(order, order[i], from) == i,
    decreases i - from,
{
    if from < i {
        place_of_named(order, i, from + 1);
    }
}

proof fn place_of_unnamed(order: Seq<u8>, class: u8, from: int)
    requires
        0 <= from <= order.len(),
        !order.contains(class),
    ensures
        details::class_place(order, class, from) == order.len(),
    decreases order.len() - from,
{
    if from < order.len() {
        assert(order.contains(order[from]));
        place_of_unnamed(order, class, from + 1);
    }
}

/// Whether an event is played before another: by tick, then by kind, then by track.
pub open spec fn plays_before(a: RenderedEventView, b: RenderedEventView) -> bool {
    if a.abs_tick != b.abs_tick {
        a.abs_tick < b.abs_tick
    } else if a.priority != b.priority {
        a.priority < b.priority
    } else {
        a.track_index < b.track_index
    }
}

/// Events in play order never go back in time, and at one tick they stand in the
/// order of their kinds and then of their tracks.
pub proof fn play_order_is_in_order(events: Seq<RenderedEventView>)
    requires
        events.len() <= usize::MAX,
    ensures
        play_order(events).len() == events.len(),
        forall|i: int, j: int|
            0 <= i < j < events.len() ==> !plays_before(
                #[trigger] play_order(events)[j],
                #[trigger] play_order(events)[i],
            ),
{
    let keys = arranged(keys_of(events));
    arranged_is_in_order(keys_of(events));
    let out = play_order(events);
    assert forall|i: int, j: int| 0 <= i < j < events.len() implies !plays_before(
        #[trigger] out[j],
        #[trigger] out[i],
    ) by {
        arranged_keys_are_keys(events, i);
        arranged_keys_are_keys(events, j);
        assert(!key_before(keys[j], keys[i]));
        assert(out[i] == events[keys[i].index as int]);
        assert(out[j] == events[keys[j].index as int]);
    }
}

fn merge(a: &[Key], b: &[Key]) -> (out: Vec<Key>)
    ensures
        out@ == merged(a@, b@),
{
    let mut out: Vec<Key> = Vec::new();
    let mut i: usize = 0;
    let mut j: usize = 0;
    assert(a@.skip(0) =~= a@ && b@.skip(0) =~= b@);
    assert(merged(a@, b@) =~= out@ + merged(a@.skip(0), b@.skip(0)));
    while i < a.len() || j < b.len()
        invariant
            i <= a@.len(),
            j <= b@.len(),
            merged(a@, b@) == out@ + merged(a@.skip(i as int), b@.skip(j as int)),
        decreases a@.len() - i + b@.len() - j,
    {
        let ghost before = out@;
        let ghost x = a@.skip(i as int);
        let ghost y = b@.skip(j as int);
        if j >= b.len() || (i < a.len() && !is_key_before(&b[j], &a[i])) {
            out.push(a[i]);
            assert(x.skip(1) =~= a@.skip(i + 1));
            assert(merged(x, y) =~= seq![x[0]] + merged(x.skip(1), y));
            assert(before + (seq![x[0]] + merged(x.skip(1), y)) =~= out@ + merged(x.skip(1), y));
            i += 1;
        } else {
            out.push(b[j]);
            assert(y.skip(1) =~= b@.skip(j + 1));
            assert(merged(x, y) =~= seq![y[0]] + merged(x, y.skip(1)));
            assert(before + (seq![y[0]] + merged(x, y.skip(1))) =~= out@ + merged(x, y.skip(1)));
            j += 1;
        }
    }
    assert(merged(a@.skip(i as int), b@.skip(j as int)) =~= Seq::empty());
    assert(out@ + Seq::<Key>::empty() =~= out@);
    out
}

fn arrange(s: &[Key]) -> (out: Vec<Key>)
    ensures
        out@ == arranged(s@),
    decreases s@.len(),
{
    if s.len() <= 1 {
        let mut out: Vec<Key> = Vec::new();
        if s.len() == 1 {
            out.push(s[0]);
        }
        assert(out@ =~= s@);
        return out;
    }
    let half: usize = s.len() / 2;
    let left = slice_subrange(s, 0, half);
    let right = slice_subrange(s, half, s.len());
    assert(left@ =~= s@.take(half as int));
    assert(right@ =~= s@.skip(half as int));
    let a = arrange(left);
    let b = arrange(right);
    merge(a.as_slice(), b.as_slice())
}

/// Puts events in the order in which they are played.
pub fn put_in_order(events: &[RenderedEvent]) -> (out: Vec<RenderedEvent>)
    ensures
        views::all_views(out@) == play_order(views::all_views(events@)),
{
    let ghost all = views::all_views(events@);
    let mut keys: Vec<Key> = Vec::new();
    let mut i: usize = 0;
    while i < events.len()
        invariant
            i <= events@.len(),
            all == views::all_views(events@),
            keys@ == keys_of(all).take(i as int),
        decreases events@.len() - i,
    {
        assert(all[i as int] == events@[i as int].deep_view());
        keys.push(
            Key {
                tick: events[i].abs_tick,
                priority: events[i].priority,
                track: events[i].track_index,
                index: i,
            },
        );
        assert(keys@ =~= keys_of(all).take(i + 1));
        i += 1;
    }
    assert(keys@ =~= keys_of(all));
    let order = arrange(keys.as_slice());
    let mut out: Vec<RenderedEvent> = Vec::new();
    let mut k: usize = 0;
    assert(views::all_views(out@) =~= play_order(all).take(0));
    while k < order.len()
        invariant
            k <= order@.len(),
            all == views::all_views(events@),
            events@.len() <= usize::MAX,
            order@ == arranged(keys_of(all)),
            views::all_views(out@) == play_order(all).take(k as int),
        decreases order@.len() - k,
    {
        proof {
            arranged_keys_are_keys(all, k as int);
        }
        let index = order[k].index;
        assert(all[index as int] == events@[index as int].deep_view());
        push_viewed(&mut out, events[index].clone());
        assert(views::all_views(out@) =~= play_order(all).take(k + 1));
        k += 1;
    }
    assert(play_order(all).take(k as int) =~= play_order(all));
    out
}

/// Play order keeps every event, as often as it occurs.
pub proof fn play_order_keeps_events(events: Seq<RenderedEventView>)
    requires
        events.len() <= usize::MAX,
    ensures
        play_order(events).to_multiset() == events.to_multiset(),
{
    let keys = keys_of(events);
    let order = arranged(keys);
    arranged_is_in_order(keys);
    let pick = |k: Key| events[k.index as int];
    assert(order.map_values(pick) =~= play_order(events));
    assert(keys.map_values(pick) =~= events) by {
        assert forall|i: int| 0 <= i < keys.len() implies keys.map_values(pick)[i]
            == events[i] by {
            assert(keys[i].index == i);
        }
    }
    same_keys_same_values(order, keys, pick);
}

proof fn same_keys_same_values(
    a: Seq<Key>,
    b: Seq<Key>,
    f: spec_fn(Key) -> RenderedEventView,
)
    requires
        a.to_multiset() == b.to_multiset(),
    ensures
        a.map_values(f).to_multiset() == b.map_values(f).to_multiset(),
    decreases a.len(),
{
    broadcast use vstd::seq_lib::group_to_multiset_ensures;

    assert(a.to_multiset().len() == a.len());
    assert(b.to_multiset().len() == b.len());
    if a.len() == 0 {
        assert(a.map_values(f) =~= b.map_values(f));
    } else {
        let x = a.last();
        assert(a.to_multiset().count(x) > 0);
        assert(b.contains(x));
        let k = b.index_of(x);
        let a1 = a.drop_last();
        let b1 = b.remove(k);
        assert(a1 =~= a.remove(a.len() - 1));
        assert(a1.to_multiset() =~= a.to_multiset().remove(x));
        assert(b1.to_multiset() =~= b.to_multiset().remove(x));
        same_keys_same_values(a1, b1, f);
        assert(a.map_values(f) =~= a1.map_values(f).push(f(x)));
        assert(b.map_values(f).remove(k) =~= b1.map_values(f));
        assert(b.map_values(f)[k] == f(x));
        assert(b.map_values(f).to_multiset().remove(f(x)) =~= b1.map_values(f).to_multiset());
        assert(a.map_values(f).to_multiset() =~= a1.map_values(f).to_multiset().insert(f(x)));
        assert(b.map_values(f).to_multiset() =~= b1.map_values(f).to_multiset().insert(f(x)));
    }
}

} // verus!
