//! Lists whose entries belong to windows, looked up by window.
use vstd::prelude::*;

use crate::ids::WindowId;

verus! {

/// Something that belongs to one window.
pub trait Keyed: Sized {
    spec fn key(&self) -> WindowId;

    fn key_of(&self) -> (r: WindowId)
        ensures
            r == self.key(),
    ;
}

impl Keyed for WindowId {
    open spec fn key(&self) -> WindowId {
        *self
    }

    fn key_of(&self) -> (r: WindowId) {
        *self
    }
}

impl<V> Keyed for (WindowId, V) {
    open spec fn key(&self) -> WindowId {
        self.0
    }

    fn key_of(&self) -> (r: WindowId) {
        self.0
    }
}

impl<V, W> Keyed for (WindowId, V, W) {
    open spec fn key(&self) -> WindowId {
        self.0
    }

    fn key_of(&self) -> (r: WindowId) {
        self.0
    }
}

/// Where the first entry of `window` stands; the length of the list when there is none.
pub open spec fn first_at<T: Keyed>(items: Seq<T>, window: WindowId) -> int
    decreases items.len(),
{
    if items.len() == 0 {
        0
    } else if items[0].key() == window {
        0
    } else {
        1 + first_at(items.drop_first(), window)
    }
}

/// `window` has an entry.
pub open spec fn listed<T: Keyed>(items: Seq<T>, window: WindowId) -> bool {
    exists|i: int| 0 <= i < items.len() && #[trigger] items[i].key() == window
}

/// The first entry of `window`, if it has one.
pub open spec fn lookup<T: Keyed>(items: Seq<T>, window: WindowId) -> Option<T> {
    if listed(items, window) {
        Some(items[first_at(items, window)])
    } else {
        None
    }
}

/// No window has two entries.
pub open spec fn one_each<T: Keyed>(items: Seq<T>) -> bool {
    forall|i: int, j: int|
        0 <= i < j < items.len() ==> #[trigger] items[i].key() != #[trigger] items[j].key()
}

/// `item` in place of the first entry of its window, or at the end when there is none.
pub open spec fn upserted<T: Keyed>(items: Seq<T>, item: T) -> Seq<T> {
    if listed(items, item.key()) {
        items.update(first_at(items, item.key()), item)
    } else {
        items.push(item)
    }
}

/// Every item of `more` put into `items`, in order.
pub open spec fn upserted_all<T: Keyed>(items: Seq<T>, more: Seq<T>) -> Seq<T>
    decreases more.len(),
{
    if more.len() == 0 {
        items
    } else {
        upserted(upserted_all(items, more.drop_last()), more.last())
    }
}

/// `item` at the end, unless its window has an entry already.
pub open spec fn added<T: Keyed>(items: Seq<T>, item: T) -> Seq<T> {
    if listed(items, item.key()) {
        items
    } else {
        items.push(item)
    }
}

/// Every item of `more` added to `items`, in order; the first of a window stays.
pub open spec fn added_all<T: Keyed>(items: Seq<T>, more: Seq<T>) -> Seq<T>
    decreases more.len(),
{
    if more.len() == 0 {
        items
    } else {
        added(added_all(items, more.drop_last()), more.last())
    }
}

/// What [`first_at`] gives, from what stands at and before the place.
pub proof fn first_at_is<T: Keyed>(items: Seq<T>, window: WindowId, at: int)
    requires
        0 <= at <= items.len(),
        forall|i: int| 0 <= i < at ==> #[trigger] items[i].key() != window,
        at < items.len() ==> items[at].key() == window,
    ensures
        first_at(items, window) == at,
    decreases items.len(),
{
    if items.len() > 0 && items[0].key() != window {
        assert(at > 0);
        let rest = items.drop_first();
        assert forall|i: int| 0 <= i < at - 1 implies #[trigger] rest[i].key() != window by {
            assert(rest[i] == items[i + 1]);
        }
        if at < items.len() {
            assert(rest[at - 1] == items[at]);
        }
        first_at_is(rest, window, at - 1);
    }
}

/// Where [`first_at`] points.
pub proof fn first_at_finds<T: Keyed>(items: Seq<T>, window: WindowId)
    ensures
        0 <= first_at(items, window) <= items.len(),
        listed(items, window) <==> first_at(items, window) < items.len(),
        listed(items, window) ==> items[first_at(items, window)].key() == window,
        forall|i: int| 0 <= i < first_at(items, window) ==> #[trigger] items[i].key() != window,
    decreases items.len(),
{
    if items.len() > 0 {
        if items[0].key() == window {
            assert(listed(items, window));
        } else {
            let rest = items.drop_first();
            first_at_finds(rest, window);
            let at = first_at(rest, window);
            assert forall|i: int| 0 <= i < 1 + at implies #[trigger] items[i].key() != window by {
                if i > 0 {
                    assert(rest[i - 1] == items[i]);
                }
            }
            if listed(rest, window) {
                assert(items[1 + at] == rest[at]);
                assert(listed(items, window));
            } else {
                assert forall|i: int| 0 <= i < items.len() implies #[trigger] items[i].key()
                    != window by {
                    if i > 0 {
                        assert(rest[i - 1] == items[i]);
                    }
                }
            }
        }
    }
}

/// Where the first entry of `window` stands.
pub fn find<T: Keyed>(items: &Vec<T>, window: WindowId) -> (r: Option<usize>)
    ensures
        match r {
            Some(i) => i < items.len() && i == first_at(items@, window) && items[i as int].key()
                == window && listed(items@, window),
            None => !listed(items@, window) && first_at(items@, window) == items.len(),
        },
{
    let mut i: usize = 0;
    while i < items.len()
        invariant
            i <= items.len(),
            forall|j: int| 0 <= j < i ==> #[trigger] items[j].key() != window,
        decreases items.len() - i,
    {
        let found: WindowId = items[i].key_of();
        if found == window {
            proof {
                first_at_is(items@, window, i as int);
            }
            return Some(i);
        }
        i += 1;
    }
    proof {
        first_at_is(items@, window, i as int);
    }
    None
}

/// Whether `window` has an entry.
pub fn holds<T: Keyed>(items: &Vec<T>, window: WindowId) -> (r: bool)
    ensures
        r == listed(items@, window),
{
    find(items, window).is_some()
}

/// The first entry of `window`, if it has one.
pub fn get<T: Keyed + Copy>(items: &Vec<T>, window: WindowId) -> (r: Option<T>)
    ensures
        r == lookup(items@, window),
{
    match find(items, window) {
        Some(i) => Some(items[i]),
        None => None,
    }
}

/// Puts `item` in place of the first entry of its window, or at the end.
pub fn upsert<T: Keyed + Copy>(items: &mut Vec<T>, item: T)
    ensures
        final(items)@ == upserted(old(items)@, item),
{
    match find(items, item.key_of()) {
        Some(i) => {
            items.set(i, item);
        },
        None => {
            items.push(item);
        },
    }
}

/// Adds `item` at the end, unless its window has an entry already.
pub fn add<T: Keyed + Copy>(items: &mut Vec<T>, item: T)
    ensures
        final(items)@ == added(old(items)@, item),
{
    if find(items, item.key_of()).is_none() {
        items.push(item);
    }
}

/// Puts every item of `more` into `items`, in order.
pub fn upsert_all<T: Keyed + Copy>(items: &mut Vec<T>, more: &Vec<T>)
    ensures
        final(items)@ == upserted_all(old(items)@, more@),
{
    let ghost before = items@;
    let mut i: usize = 0;
    while i < more.len()
        invariant
            i <= more.len(),
            items@ == upserted_all(before, more@.take(i as int)),
        decreases more.len() - i,
    {
        assert(more@.take(i + 1).drop_last() == more@.take(i as int));
        upsert(items, more[i]);
        i += 1;
    }
    assert(more@.take(more@.len() as int) == more@);
}

/// Adds every item of `more` whose window has no entry yet, in order.
pub fn add_all<T: Keyed + Copy>(items: &mut Vec<T>, more: &Vec<T>)
    ensures
        final(items)@ == added_all(old(items)@, more@),
{
    let ghost before = items@;
    let mut i: usize = 0;
    while i < more.len()
        invariant
            i <= more.len(),
            items@ == added_all(before, more@.take(i as int)),
        decreases more.len() - i,
    {
        assert(more@.take(i + 1).drop_last() == more@.take(i as int));
        crate::keyed::add(items, more[i]);
        i += 1;
    }
    assert(more@.take(more@.len() as int) == more@);
}

/// A copy of the list.
pub fn copied<T: Copy>(items: &Vec<T>) -> (r: Vec<T>)
    ensures
        r@ == items@,
{
    let mut out: Vec<T> = Vec::new();
    let mut i: usize = 0;
    while i < items.len()
        invariant
            i <= items.len(),
            out@ == items@.take(i as int),
        decreases items.len() - i,
    {
        out.push(items[i]);
        i += 1;
        assert(items@.take(i as int) == items@.take(i - 1).push(items[i - 1]));
    }
    assert(items@.take(items@.len() as int) == items@);
    out
}

/// Putting an item in leaves one entry per window, and the item is what its window then has.
pub proof fn upserting_keeps_one_each<T: Keyed>(items: Seq<T>, item: T)
    requires
        one_each(items),
    ensures
        one_each(upserted(items, item)),
        lookup(upserted(items, item), item.key()) == Some(item),
        forall|w: WindowId|
            w != item.key() ==> #[trigger] lookup(upserted(items, item), w) == lookup(items, w),
{
    let out = upserted(items, item);
    let at = first_at(items, item.key());
    first_at_finds(items, item.key());
    assert(at <= items.len());
    assert(out[at] == item);
    assert(listed(out, item.key()));
    first_at_is(out, item.key(), at);
    assert forall|w: WindowId| w != item.key() implies #[trigger] lookup(out, w) == lookup(
        items,
        w,
    ) by {
        first_at_finds(items, w);
        first_at_finds(out, w);
        let p = first_at(items, w);
        if listed(items, w) {
            assert(out[p] == items[p]);
            assert(listed(out, w));
            first_at_is(out, w, p);
        } else {
            assert forall|i: int| 0 <= i < out.len() implies #[trigger] out[i].key() != w by {
                if i < items.len() && i != at {
                    assert(out[i] == items[i]);
                }
            }
        }
    }
}

/// Putting many items in leaves one entry per window.
pub proof fn upserting_all_keeps_one_each<T: Keyed>(items: Seq<T>, more: Seq<T>)
    requires
        one_each(items),
    ensures
        one_each(upserted_all(items, more)),
    decreases more.len(),
{
    if more.len() > 0 {
        upserting_all_keeps_one_each(items, more.drop_last());
        upserting_keeps_one_each(upserted_all(items, more.drop_last()), more.last());
    }
}

/// The last item of a window is the one that stays.
pub proof fn the_latest_item_wins<T: Keyed>(items: Seq<T>, more: Seq<T>, at: int)
    requires
        one_each(items),
        0 <= at < more.len(),
        forall|j: int| at < j < more.len() ==> #[trigger] more[j].key() != more[at].key(),
    ensures
        lookup(upserted_all(items, more), more[at].key()) == Some(more[at]),
    decreases more.len(),
{
    let rest = more.drop_last();
    upserting_all_keeps_one_each(items, rest);
    upserting_keeps_one_each(upserted_all(items, rest), more.last());
    if at < more.len() - 1 {
        assert(rest[at] == more[at]);
        assert forall|j: int| at < j < rest.len() implies #[trigger] rest[j].key()
            != rest[at].key() by {
            assert(rest[j] == more[j]);
        }
        the_latest_item_wins(items, rest, at);
        assert(more[more.len() - 1].key() != more[at].key());
    }
}

/// Adding keeps one entry per window and never changes an entry that is there.
pub proof fn adding_all_keeps_one_each<T: Keyed>(items: Seq<T>, more: Seq<T>)
    requires
        one_each(items),
    ensures
        one_each(added_all(items, more)),
        added_all(items, more).len() >= items.len(),
        added_all(items, more).take(items.len() as int) == items,
    decreases more.len(),
{
    if more.len() == 0 {
        assert(items.take(items.len() as int) == items);
    } else {
        let before = added_all(items, more.drop_last());
        adding_all_keeps_one_each(items, more.drop_last());
        let out = added(before, more.last());
        assert(out.take(items.len() as int) == before.take(items.len() as int));
    }
}

/// What a lookup finds is the first entry of that window; it finds nothing only where the window has
/// none.
pub proof fn a_lookup_finds_the_first_entry<T: Keyed>(items: Seq<T>, window: WindowId)
    ensures
        lookup(items, window) is None <==> forall|i: int|
            0 <= i < items.len() ==> #[trigger] items[i].key() != window,
        lookup(items, window) matches Some(found) ==> exists|i: int|
            {
                &&& 0 <= i < items.len()
                &&& #[trigger] items[i] == found
                &&& items[i].key() == window
                &&& forall|j: int| 0 <= j < i ==> #[trigger] items[j].key() != window
            },
{
    first_at_finds(items, window);
    if listed(items, window) {
        let at = first_at(items, window);
        assert(items[at] == lookup(items, window)->0);
    }
}

/// An entry belongs to the window it begins with.
pub proof fn an_entry_belongs_to_its_window<V, W>(window: WindowId, v: V, w: W)
    ensures
        window.key() == window,
        (window, v).key() == window,
        (window, v, w).key() == window,
{
}

/// Putting an item in changes at most one entry, that of its own window, and lengthens the list only
/// for a window without one.
pub proof fn upserting_changes_one_entry<T: Keyed>(items: Seq<T>, item: T, i: int)
    requires
        0 <= i < items.len(),
    ensures
        upserted(items, item).len() == items.len() + (if listed(items, item.key()) {
            0int
        } else {
            1int
        }),
        items[i].key() != item.key() ==> upserted(items, item)[i] == items[i],
        upserted(items, item)[i].key() == items[i].key(),
        upserted(items, item)[i] == items[i] || upserted(items, item)[i] == item,
        !listed(items, item.key()) ==> upserted(items, item).last() == item,
{
    first_at_finds(items, item.key());
}

/// After many items are put in, a window has an entry exactly when it had one or one of them is its;
/// a window none of them names keeps what it had.
pub proof fn upserting_all_lists_both<T: Keyed>(items: Seq<T>, more: Seq<T>, window: WindowId)
    requires
        one_each(items),
    ensures
        listed(upserted_all(items, more), window) <==> listed(items, window) || listed(more, window),
        !listed(more, window) ==> lookup(upserted_all(items, more), window) == lookup(
            items,
            window,
        ),
    decreases more.len(),
{
    if more.len() > 0 {
        let rest = more.drop_last();
        let last = more.last();
        let before = upserted_all(items, rest);
        upserting_all_lists_both(items, rest, window);
        upserting_all_keeps_one_each(items, rest);
        upserting_keeps_one_each(before, last);
        assert(listed(more, window) <==> listed(rest, window) || last.key() == window) by {
            if listed(rest, window) {
                let i = choose|i: int| 0 <= i < rest.len() && #[trigger] rest[i].key() == window;
                assert(more[i].key() == window);
            }
            if last.key() == window {
                assert(more[more.len() - 1].key() == window);
            }
            if listed(more, window) && last.key() != window {
                let i = choose|i: int| 0 <= i < more.len() && #[trigger] more[i].key() == window;
                assert(rest[i].key() == window);
            }
        }
        if window != last.key() {
            assert(lookup(upserted(before, last), window) == lookup(before, window));
        }
    }
}

/// Adding never changes what a window has; a window without an entry gets the first that is added for
/// it.
pub proof fn the_first_item_added_stays<T: Keyed>(items: Seq<T>, more: Seq<T>, window: WindowId)
    ensures
        listed(items, window) ==> lookup(added_all(items, more), window) == lookup(items, window),
        !listed(items, window) ==> lookup(added_all(items, more), window) == lookup(more, window),
    decreases more.len(),
{
    if more.len() > 0 {
        let rest = more.drop_last();
        let last = more.last();
        let before = added_all(items, rest);
        let out = added(before, last);
        the_first_item_added_stays(items, rest, window);
        pushing_looks_up(rest, last, window);
        assert(rest.push(last) == more);
        if !listed(before, last.key()) {
            pushing_looks_up(before, last, window);
        } else if last.key() == window {
            assert(lookup(before, window) is Some);
        }
    }
}

proof fn pushing_looks_up<T: Keyed>(items: Seq<T>, item: T, window: WindowId)
    ensures
        listed(items, window) ==> lookup(items.push(item), window) == lookup(items, window),
        !listed(items, window) && item.key() == window ==> lookup(items.push(item), window) == Some(
            item,
        ),
        !listed(items, window) && item.key() != window ==> lookup(items.push(item), window) is None,
{
    let out = items.push(item);
    first_at_finds(items, window);
    let at = first_at(items, window);
    assert forall|i: int| 0 <= i < at implies #[trigger] out[i].key() != window by {
        assert(out[i] == items[i]);
    }
    if listed(items, window) {
        assert(out[at] == items[at]);
        assert(listed(out, window));
        first_at_is(out, window, at);
    } else if item.key() == window {
        assert(out[at] == item);
        assert(listed(out, window));
        first_at_is(out, window, at);
    } else {
        assert forall|i: int| 0 <= i < out.len() implies #[trigger] out[i].key() != window by {
            if i < items.len() {
                assert(out[i] == items[i]);
            }
        }
    }
}

} // verus!
