use vstd::prelude::*;

use crate::model::ConfigObj;
use crate::model::Feed;
use crate::model::FeedView;

verus! {

/// Append a new subscription with the given address, treated as first
/// checked at `now`, so the next poll starts from the moment the feed
/// was added.
pub fn add_feed(config: &mut ConfigObj, uri: &str, now: &str)
    ensures
        final(config).feeds@.len() == old(config).feeds@.len() + 1,
        forall|i: int|
            0 <= i < old(config).feeds@.len() ==> final(config).feeds@[i] == old(config).feeds@[i],
        final(config).feeds@.last()@ == (FeedView { uri: uri@, last_accessed: now@ }),
{
    let f = Feed { uri: uri.to_owned(), last_accessed: now.to_owned() };
    config.feeds.push(f);
}

/// The subscribed addresses, in list order.
pub fn uris(config: &ConfigObj) -> (r: Vec<String>)
    ensures
        r.deep_view() == config.feeds.deep_view().map_values(|f: FeedView| f.uri),
{
    let mut r: Vec<String> = Vec::new();
    let n: usize = config.feeds.len();
    for i in 0..n
        invariant
            n == config.feeds@.len(),
            r.deep_view() =~= config.feeds.deep_view().take(i as int).map_values(
                |f: FeedView| f.uri,
            ),
    {
        let ghost pre = r.deep_view();
        let u = config.feeds[i].uri.clone();
        r.push(u);
        proof {
            let fvs = config.feeds.deep_view();
            assert(r.deep_view() =~= pre.push(u@));
            assert(fvs.take(i + 1) =~= fvs.take(i as int).push(fvs[i as int]));
            assert(fvs.take(i + 1).map_values(|f: FeedView| f.uri) =~= fvs.take(
                i as int,
            ).map_values(|f: FeedView| f.uri).push(fvs[i as int].uri));
        }
    }
    proof {
        assert(config.feeds.deep_view().take(n as int) =~= config.feeds.deep_view());
    }
    r
}

/// Snapshot every subscription as it stands, then advance every
/// last-checked time to `now` — uniformly, before any outcome of the
/// coming poll is known, so a source whose fetch later fails has its
/// window advanced exactly like one that succeeds.
pub fn get_uris_and_update(config: &mut ConfigObj, now: &str) -> (snapshot: Vec<Feed>)
    ensures
        snapshot.deep_view() == old(config).feeds.deep_view(),
        final(config).feeds@.len() == old(config).feeds@.len(),
        forall|i: int|
            0 <= i < old(config).feeds@.len() ==> final(config).feeds@[i]@.uri == old(
                config,
            ).feeds@[i]@.uri,
        forall|i: int|
            0 <= i < old(config).feeds@.len() ==> final(config).feeds@[i]@.last_accessed == now@,
{
    let mut snapshot: Vec<Feed> = Vec::new();
    let n: usize = config.feeds.len();
    let ghost orig = old(config).feeds.deep_view();
    for i in 0..n
        invariant
            n == config.feeds@.len(),
            orig.len() == n,
            snapshot.deep_view() =~= orig.take(i as int),
            forall|j: int| i <= j < n ==> config.feeds@[j]@ == orig[j],
            forall|j: int| 0 <= j < i ==> config.feeds@[j]@.uri == orig[j].uri,
            forall|j: int| 0 <= j < i ==> config.feeds@[j]@.last_accessed == now@,
    {
        let ghost pre = snapshot.deep_view();
        let f = Feed {
            uri: config.feeds[i].uri.clone(),
            last_accessed: config.feeds[i].last_accessed.clone(),
        };
        let ghost fv = f@;
        snapshot.push(f);
        let touched = Feed { uri: config.feeds[i].uri.clone(), last_accessed: now.to_owned() };
        config.feeds[i] = touched;
        proof {
            assert(snapshot.deep_view() =~= pre.push(fv));
            assert(orig.take(i + 1) =~= orig.take(i as int).push(orig[i as int]));
            assert(config.feeds@[i as int]@.uri == orig[i as int].uri);
            assert(config.feeds@[i as int]@.last_accessed == now@);
        }
    }
    proof {
        assert(orig.take(n as int) =~= orig);
        assert forall|j: int|
            0 <= j < orig.len() implies config.feeds@[j]@.uri == old(config).feeds@[j]@.uri by {
            assert(config.feeds@[j]@.uri == orig[j].uri);
            assert(orig[j] == old(config).feeds@[j]@);
        }
    }
    snapshot
}

/// Monotonic-advance law: a poll attempt sets every source's
/// last-checked time to the poll time itself, success and failure
/// alike, so whenever the poll time is at least a source's prior time —
/// that is, whenever the clock did not run backwards between the two —
/// no source's last-checked time moves backwards.
pub proof fn lemma_last_checked_advances(prior: Seq<int>, now: int, after: Seq<int>)
    requires
        after.len() == prior.len(),
        forall|i: int| 0 <= i < after.len() ==> after[i] == now,
        forall|i: int| 0 <= i < prior.len() ==> prior[i] <= now,
    ensures
        forall|i: int| 0 <= i < prior.len() ==> after[i] >= prior[i],
{
}

/// The subscription list with the given positions taken out, later
/// positions first, so that removing one position does not shift the
/// positions still to be removed.
pub open spec fn remove_indices(s: Seq<Feed>, sel: Seq<int>) -> Seq<Feed>
    decreases sel.len(),
{
    if sel.len() == 0 {
        s
    } else {
        remove_indices(s.remove(sel.last()), sel.drop_last())
    }
}

/// The picked positions as mathematical integers.
pub open spec fn positions(sel: Seq<usize>) -> Seq<int> {
    sel.map_values(|s: usize| s as int)
}

/// Remove the subscriptions at the given positions. The positions must
/// be strictly increasing and in range, as the interactive picker
/// yields them. One subscription leaves per position, and every
/// unselected subscription survives in order, shifted down past the
/// removed ones.
pub fn remove_selected(config: &mut ConfigObj, selections: &Vec<usize>)
    requires
        forall|k: int|
            0 <= k < selections@.len() ==> selections@[k] < old(config).feeds@.len(),
        forall|k1: int, k2: int|
            0 <= k1 < k2 < selections@.len() ==> selections@[k1] < selections@[k2],
    ensures
        final(config).feeds@ == remove_indices(old(config).feeds@, positions(selections@)),
        final(config).feeds@.len() == old(config).feeds@.len() - selections@.len(),
        forall|i: int|
            0 <= i < old(config).feeds@.len() && !positions(selections@).contains(i)
                ==> final(config).feeds@[i - count_below(positions(selections@), i)] == old(
                config,
            ).feeds@[i],
{
    let ghost orig = old(config).feeds@;
    let ghost sel = positions(selections@);
    let mut k: usize = selections.len();
    proof {
        assert(sel.skip(k as int) =~= Seq::<int>::empty());
    }
    while k > 0
        invariant
            k <= selections@.len(),
            sel == positions(selections@),
            sel.len() == selections@.len(),
            forall|j: int| 0 <= j < sel.len() ==> 0 <= #[trigger] sel[j] < orig.len(),
            forall|k1: int, k2: int| 0 <= k1 < k2 < sel.len() ==> sel[k1] < sel[k2],
            config.feeds@ == remove_indices(orig, sel.skip(k as int)),
            config.feeds@.len() == orig.len() - (sel.len() - k),
        decreases k,
    {
        k = k - 1;
        proof {
            let n: int = sel.len() as int;
            if (k as int) < n - 1 {
                lemma_increasing_gap(sel, k as int, n - 1);
            }
            assert(sel[k as int] < config.feeds@.len());
            assert(sel.skip(k as int).drop_first() =~= sel.skip(k as int + 1));
            assert(sel.skip(k as int)[0] == sel[k as int]);
            lemma_remove_indices_first(orig, sel.skip(k as int));
        }
        config.feeds.remove(selections[k]);
    }
    proof {
        assert(sel.skip(0) =~= sel);
        assert forall|i: int|
            0 <= i < orig.len() && !sel.contains(i) implies config.feeds@[i - count_below(sel, i)]
            == orig[i] by {
            lemma_remove_indices_keeps(orig, sel, i);
        }
    }
}

/// The recursion of `remove_indices` peels the last position off first;
/// this turns it around: the whole removal is the removal of all but
/// the first position, followed by removing the first.
proof fn lemma_remove_indices_first(s: Seq<Feed>, sel: Seq<int>)
    requires
        sel.len() > 0,
    ensures
        remove_indices(s, sel) == remove_indices(s, sel.drop_first()).remove(sel[0]),
    decreases sel.len(),
{
    if sel.len() == 1 {
        assert(sel.drop_last() =~= Seq::<int>::empty());
        assert(sel.drop_first() =~= Seq::<int>::empty());
        assert(sel.last() == sel[0]);
        assert(remove_indices(s, sel) == remove_indices(s.remove(sel.last()), sel.drop_last()));
        assert(remove_indices(s.remove(sel[0]), Seq::<int>::empty()) == s.remove(sel[0]));
        assert(remove_indices(s, Seq::<int>::empty()) == s);
    } else {
        let s2 = s.remove(sel.last());
        let sel2 = sel.drop_last();
        lemma_remove_indices_first(s2, sel2);
        assert(sel2[0] == sel[0]);
        assert(sel2.drop_first() =~= sel.drop_first().drop_last());
        assert(sel.drop_first().last() == sel.last());
        assert(remove_indices(s, sel) == remove_indices(s2, sel2));
        assert(remove_indices(s2, sel2) == remove_indices(s2, sel2.drop_first()).remove(sel[0]));
        assert(remove_indices(s, sel.drop_first()) == remove_indices(
            s2,
            sel.drop_first().drop_last(),
        ));
        assert(remove_indices(s2, sel.drop_first().drop_last()) == remove_indices(
            s2,
            sel2.drop_first(),
        ));
    }
}

/// How many of the given positions lie strictly below `i`.
pub open spec fn count_below(sel: Seq<int>, i: int) -> int
    decreases sel.len(),
{
    if sel.len() == 0 {
        0
    } else {
        (if sel[0] < i {
            1int
        } else {
            0int
        }) + count_below(sel.drop_first(), i)
    }
}

/// A count of positions is never negative.
proof fn lemma_count_below_nonneg(sel: Seq<int>, i: int)
    ensures
        count_below(sel, i) >= 0,
    decreases sel.len(),
{
    if sel.len() > 0 {
        lemma_count_below_nonneg(sel.drop_first(), i);
    }
}

/// With no position below `i`, the count below `i` is zero.
proof fn lemma_count_below_zero(sel: Seq<int>, i: int)
    requires
        forall|j: int| 0 <= j < sel.len() ==> #[trigger] sel[j] >= i,
    ensures
        count_below(sel, i) == 0,
    decreases sel.len(),
{
    if sel.len() > 0 {
        assert forall|j: int| 0 <= j < sel.drop_first().len() implies #[trigger] sel.drop_first()[j]
            >= i by {
            assert(sel.drop_first()[j] == sel[j + 1]);
        }
        lemma_count_below_zero(sel.drop_first(), i);
    }
}

/// Strictly increasing positions, all above `lo` and counted below `i`,
/// are distinct integers strictly between the two, so there are at most
/// `i - lo - 1` of them.
proof fn lemma_count_below_bound(sel: Seq<int>, lo: int, i: int)
    requires
        forall|k1: int, k2: int| 0 <= k1 < k2 < sel.len() ==> sel[k1] < sel[k2],
        forall|j: int| 0 <= j < sel.len() ==> #[trigger] sel[j] > lo,
        i > lo,
    ensures
        count_below(sel, i) <= i - lo - 1,
    decreases sel.len(),
{
    if sel.len() == 0 {
    } else if sel[0] >= i {
        assert forall|j: int| 0 <= j < sel.drop_first().len() implies #[trigger] sel.drop_first()[j]
            >= i by {
            assert(sel.drop_first()[j] == sel[j + 1]);
            assert(sel[j + 1] > sel[0]);
        }
        lemma_count_below_zero(sel.drop_first(), i);
    } else {
        assert forall|j: int| 0 <= j < sel.drop_first().len() implies #[trigger] sel.drop_first()[j]
            > sel[0] by {
            assert(sel.drop_first()[j] == sel[j + 1]);
        }
        assert forall|k1: int, k2: int|
            0 <= k1 < k2 < sel.drop_first().len() implies sel.drop_first()[k1]
            < sel.drop_first()[k2] by {
            assert(sel.drop_first()[k1] == sel[k1 + 1]);
            assert(sel.drop_first()[k2] == sel[k2 + 1]);
        }
        lemma_count_below_bound(sel.drop_first(), sel[0], i);
    }
}

/// What survives the removal, element by element: the element at each
/// unselected position `i` survives, landing `count_below(sel, i)`
/// places further down, and the removal takes out exactly one element
/// per position. Together with the order the landing spots keep, the
/// removed list is the unselected elements, in the order they stood.
pub proof fn lemma_remove_indices_keeps(s: Seq<Feed>, sel: Seq<int>, i: int)
    requires
        forall|j: int| 0 <= j < sel.len() ==> 0 <= #[trigger] sel[j] < s.len(),
        forall|k1: int, k2: int| 0 <= k1 < k2 < sel.len() ==> sel[k1] < sel[k2],
        0 <= i < s.len(),
        !sel.contains(i),
    ensures
        remove_indices(s, sel).len() == s.len() - sel.len(),
        0 <= i - count_below(sel, i) < s.len() - sel.len(),
        remove_indices(s, sel)[i - count_below(sel, i)] == s[i],
    decreases sel.len(),
{
    lemma_remove_indices_len(s, sel);
    if sel.len() == 0 {
    } else {
        let sel2 = sel.drop_first();
        let p0 = sel[0];
        let r2 = remove_indices(s, sel2);
        assert forall|j: int| 0 <= j < sel2.len() implies 0 <= #[trigger] sel2[j] < s.len() by {
            assert(sel2[j] == sel[j + 1]);
        }
        assert forall|k1: int, k2: int| 0 <= k1 < k2 < sel2.len() implies sel2[k1] < sel2[k2] by {
            assert(sel2[k1] == sel[k1 + 1]);
            assert(sel2[k2] == sel[k2 + 1]);
        }
        assert forall|j: int| 0 <= j < sel2.len() implies #[trigger] sel2[j] > p0 by {
            assert(sel2[j] == sel[j + 1]);
        }
        assert(!sel2.contains(i));
        assert(!sel2.contains(p0));
        lemma_remove_indices_keeps(s, sel2, i);
        lemma_remove_indices_keeps(s, sel2, p0);
        lemma_remove_indices_first(s, sel);
        lemma_count_below_zero(sel2, p0);
        assert(r2[p0] == s[p0]);
        let r = r2.remove(p0);
        assert(remove_indices(s, sel) == r);
        if i < p0 {
            lemma_count_below_zero(sel2, i);
            assert(count_below(sel, i) == 0);
            assert(r2[i] == s[i]);
            assert(r[i] == r2[i]);
        } else {
            let c2 = count_below(sel2, i);
            lemma_count_below_nonneg(sel2, i);
            assert(count_below(sel, i) == 1 + c2);
            let p = i - c2;
            assert(r2[p] == s[i]);
            lemma_count_below_bound(sel2, p0, i);
            assert(p > p0);
            assert(r[p - 1] == r2[p]);
        }
    }
}

/// Each removal takes out exactly one element.
pub proof fn lemma_remove_indices_len(s: Seq<Feed>, sel: Seq<int>)
    requires
        forall|j: int| 0 <= j < sel.len() ==> 0 <= #[trigger] sel[j] < s.len(),
        forall|k1: int, k2: int| 0 <= k1 < k2 < sel.len() ==> sel[k1] < sel[k2],
    ensures
        remove_indices(s, sel).len() == s.len() - sel.len(),
    decreases sel.len(),
{
    if sel.len() > 0 {
        let s2 = s.remove(sel.last());
        let sel2 = sel.drop_last();
        assert forall|j: int| 0 <= j < sel2.len() implies 0 <= #[trigger] sel2[j] < s2.len() by {
            assert(sel2[j] == sel[j]);
            assert(sel[j] < sel.last());
        }
        lemma_remove_indices_len(s2, sel2);
    }
}

/// In a strictly increasing position sequence, positions grow at least
/// as fast as their distance.
proof fn lemma_increasing_gap(sel: Seq<int>, k1: int, k2: int)
    requires
        forall|i1: int, i2: int| 0 <= i1 < i2 < sel.len() ==> sel[i1] < sel[i2],
        0 <= k1 <= k2 < sel.len(),
    ensures
        sel[k2] - sel[k1] >= k2 - k1,
    decreases k2 - k1,
{
    if k1 < k2 {
        lemma_increasing_gap(sel, k1, k2 - 1);
    }
}

} // verus!
