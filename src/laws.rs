//! Facts about sequences of appends, stated over the model that `push` and
//! the scans are specified with.

use vstd::prelude::*;
use crate::ring::{appended, from_marker, marked_suffix, Entry};

verus! {

/// The slots after appending each of `ms` in turn to a log whose slots are `v`.
pub open spec fn after_appends(v: Seq<Entry>, ms: Seq<Entry>) -> Seq<Entry>
    decreases ms.len(),
{
    if ms.len() == 0 {
        v
    } else {
        after_appends(appended(v, ms[0]), ms.drop_first())
    }
}

/// A log keeps its number of slots through any number of appends.
pub proof fn lemma_appends_keep_capacity(v: Seq<Entry>, ms: Seq<Entry>)
    requires
        v.len() >= 1,
    ensures
        after_appends(v, ms).len() == v.len(),
    decreases ms.len(),
{
    if ms.len() > 0 {
        lemma_appends_keep_capacity(appended(v, ms[0]), ms.drop_first());
    }
}

/// After any appends, the slots hold, from the oldest, the last `v.len()`
/// entries of the old slots followed by the appended messages in the order
/// in which they came.
pub proof fn lemma_appends_keep_order(v: Seq<Entry>, ms: Seq<Entry>)
    requires
        v.len() >= 1,
    ensures
        after_appends(v, ms) == (v + ms).subrange(ms.len() as int, (ms.len() + v.len()) as int),
    decreases ms.len(),
{
    if ms.len() == 0 {
        assert((v + ms).subrange(0, v.len() as int) =~= v);
    } else {
        let w = appended(v, ms[0]);
        let rest = ms.drop_first();
        lemma_appends_keep_order(w, rest);
        assert(w + rest =~= (v + ms).drop_first());
        assert((w + rest).subrange(rest.len() as int, (rest.len() + w.len()) as int) =~= (v + ms).subrange(
            ms.len() as int,
            (ms.len() + v.len()) as int,
        ));
    }
}

/// Appending one more message than a log has slots pushes the first one out:
/// where it differs from the others it is no longer held, and the second one
/// is now the oldest.
pub proof fn lemma_overwrite_oldest(v: Seq<Entry>, ms: Seq<Entry>)
    requires
        v.len() >= 1,
        ms.len() == v.len() + 1,
        forall|j: int| 1 <= j < ms.len() ==> #[trigger] ms[j] != ms[0],
    ensures
        !after_appends(v, ms).contains(ms[0]),
        after_appends(v, ms)[0] == ms[1],
        after_appends(v, ms) == ms.drop_first(),
{
    lemma_appends_keep_order(v, ms);
    assert((v + ms).subrange(ms.len() as int, (ms.len() + v.len()) as int) =~= ms.drop_first());
    let r = after_appends(v, ms);
    if r.contains(ms[0]) {
        let k = choose|k: int| 0 <= k < r.len() && r[k] == ms[0];
        assert(ms[k + 1] == ms[0]);
    }
}

/// A scan from position `j` finds nothing where no slot from `j` on has the key `marker`.
proof fn lemma_suffix_unmatched(v: Seq<Entry>, marker: Seq<char>, j: int)
    requires
        j >= 0,
        forall|k: int| j <= k < v.len() ==> #[trigger] v[k].0 != marker,
    ensures
        marked_suffix(v, marker, j) == Seq::<Entry>::empty(),
    decreases v.len() - j,
{
    if j < v.len() {
        lemma_suffix_unmatched(v, marker, j + 1);
    }
}

/// A scan from position `j` yields the slots from the first match at or after `j`.
proof fn lemma_suffix_matched(v: Seq<Entry>, marker: Seq<char>, j: int, first: int)
    requires
        0 <= j <= first < v.len(),
        v[first].0 == marker,
        forall|k: int| j <= k < first ==> #[trigger] v[k].0 != marker,
    ensures
        marked_suffix(v, marker, j) == v.subrange(first, v.len() as int),
    decreases first - j,
{
    if j < first {
        lemma_suffix_matched(v, marker, j + 1, first);
    }
}

/// A marker that no slot but possibly the oldest holds yields nothing, and no
/// error: in particular an unknown marker, and the key of the oldest slot alone.
pub proof fn lemma_marker_unmatched(v: Seq<Entry>, marker: Seq<char>)
    requires
        forall|k: int| 1 <= k < v.len() ==> #[trigger] v[k].0 != marker,
    ensures
        from_marker(v, marker) == Seq::<Entry>::empty(),
{
    lemma_suffix_unmatched(v, marker, 1);
}

/// A marker held by a slot other than the oldest yields the slots from its
/// first such slot to the newest, that slot included.
pub proof fn lemma_marker_inclusive(v: Seq<Entry>, marker: Seq<char>, first: int)
    requires
        1 <= first < v.len(),
        v[first].0 == marker,
        forall|k: int| 1 <= k < first ==> #[trigger] v[k].0 != marker,
    ensures
        from_marker(v, marker) == v.subrange(first, v.len() as int),
{
    lemma_suffix_matched(v, marker, 1, first);
}

} // verus!
