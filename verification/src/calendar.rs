use vstd::prelude::*;

use crate::bucket::DateItems;
use crate::date::Date;
use crate::item::CalendarItem;

verus! {

/// The buckets of all populated dates, held in strictly ascending date order.
///
/// A date owns a bucket exactly when at least one fetched item falls on it:
/// the structure never stores empty placeholder buckets, so walking to the
/// next or previous key always lands on a date with items.
#[derive(Debug)]
pub struct Calendar {
    pub date_map: Vec<DateItems>,
}

/// The items that fall on one date.
pub open spec fn with_date(d: Date) -> spec_fn(CalendarItem) -> bool {
    |it: CalendarItem| it.date == d
}

proof fn lemma_filter_push<A>(s: Seq<A>, x: A, p: spec_fn(A) -> bool)
    ensures
        s.push(x).filter(p) == (if p(x) {
            s.filter(p).push(x)
        } else {
            s.filter(p)
        }),
{
    reveal(Seq::filter);
    let t = s.push(x);
    assert(t.drop_last() =~= s);
    assert(t.last() == x);
}

proof fn lemma_filter_all_false<A>(s: Seq<A>, p: spec_fn(A) -> bool)
    requires
        forall|i: int| 0 <= i < s.len() ==> !p(#[trigger] s[i]),
    ensures
        s.filter(p) =~= Seq::<A>::empty(),
    decreases s.len(),
{
    reveal(Seq::filter);
    if s.len() > 0 {
        assert(!p(s[s.len() - 1]));
        lemma_filter_all_false(s.drop_last(), p);
    }
}

/// Whether some item of `items` falls on date `d`.
pub open spec fn date_occurs(items: Seq<CalendarItem>, d: Date) -> bool {
    exists|k: int| 0 <= k < items.len() && items[k].date == d
}

impl Calendar {
    /// Well-formedness: buckets stand in strictly ascending date order (so
    /// dates are unique), none is empty, and each bucket's cursor is valid.
    pub open spec fn wf(self) -> bool {
        &&& forall|i: int, j: int|
            0 <= i < j < self.date_map@.len() ==> self.date_map@[i].date.spec_lt(
                self.date_map@[j].date,
            )
        &&& forall|i: int|
            0 <= i < self.date_map@.len() ==> (#[trigger] self.date_map@[i]).items@.len() > 0
        &&& forall|i: int| 0 <= i < self.date_map@.len() ==> (#[trigger] self.date_map@[i]).wf()
    }

    pub open spec fn contains_date(self, d: Date) -> bool {
        exists|i: int| 0 <= i < self.date_map@.len() && self.date_map@[i].date == d
    }

    pub open spec fn has_key_at_or_after(self, d: Date) -> bool {
        exists|i: int| 0 <= i < self.date_map@.len() && d.spec_le(self.date_map@[i].date)
    }

    pub open spec fn has_key_after(self, d: Date) -> bool {
        exists|i: int| 0 <= i < self.date_map@.len() && d.spec_lt(self.date_map@[i].date)
    }

    pub open spec fn has_key_before(self, d: Date) -> bool {
        exists|i: int| 0 <= i < self.date_map@.len() && self.date_map@[i].date.spec_lt(d)
    }

    /// `k` is the smallest stored date at or after `d`.
    pub open spec fn is_first_key_at_or_after(self, d: Date, k: Date) -> bool {
        &&& self.contains_date(k)
        &&& d.spec_le(k)
        &&& forall|i: int|
            0 <= i < self.date_map@.len() && d.spec_le(#[trigger] self.date_map@[i].date)
                ==> k.spec_le(self.date_map@[i].date)
    }

    /// `k` is the smallest stored date strictly after `d`.
    pub open spec fn is_first_key_after(self, d: Date, k: Date) -> bool {
        &&& self.contains_date(k)
        &&& d.spec_lt(k)
        &&& forall|i: int|
            0 <= i < self.date_map@.len() && d.spec_lt(#[trigger] self.date_map@[i].date)
                ==> k.spec_le(self.date_map@[i].date)
    }

    /// `k` is the largest stored date strictly before `d`.
    pub open spec fn is_last_key_before(self, d: Date, k: Date) -> bool {
        &&& self.contains_date(k)
        &&& k.spec_lt(d)
        &&& forall|i: int|
            0 <= i < self.date_map@.len() && (#[trigger] self.date_map@[i].date).spec_lt(d)
                ==> self.date_map@[i].date.spec_le(k)
    }

    /// The position of the bucket for date `d`, meaningful when `d` is stored.
    pub open spec fn spec_index_of(self, d: Date) -> int {
        choose|i: int| 0 <= i < self.date_map@.len() && self.date_map@[i].date == d
    }

    /// Under well-formedness the stored dates are unique, so any position that
    /// holds date `d` is the one `spec_index_of` picks.
    pub proof fn lemma_index_of_unique(self, d: Date, i: int)
        requires
            self.wf(),
            0 <= i < self.date_map@.len(),
            self.date_map@[i].date == d,
        ensures
            self.spec_index_of(d) == i,
            self.contains_date(d),
    {
        assert(self.contains_date(d));
        let j = self.spec_index_of(d);
        assert(0 <= j < self.date_map@.len() && self.date_map@[j].date == d);
        if j < i {
            assert(self.date_map@[j].date.spec_lt(self.date_map@[i].date));
        } else if i < j {
            assert(self.date_map@[i].date.spec_lt(self.date_map@[j].date));
        }
    }

    /// Binary search: the first position whose date is at or after `d`
    /// (`date_map.len()` when there is none).
    fn lower_bound(&self, d: Date) -> (r: usize)
        requires
            self.wf(),
        ensures
            r <= self.date_map@.len(),
            forall|i: int| 0 <= i < r ==> (#[trigger] self.date_map@[i].date).spec_lt(d),
            forall|i: int|
                r <= i < self.date_map@.len() ==> d.spec_le(#[trigger] self.date_map@[i].date),
    {
        let mut lo: usize = 0;
        let mut hi: usize = self.date_map.len();
        while lo < hi
            invariant
                lo <= hi <= self.date_map@.len(),
                self.wf(),
                forall|i: int| 0 <= i < lo ==> (#[trigger] self.date_map@[i].date).spec_lt(d),
                forall|i: int|
                    hi <= i < self.date_map@.len() ==> d.spec_le(
                        #[trigger] self.date_map@[i].date,
                    ),
            decreases hi - lo,
    {
            let mid = lo + (hi - lo) / 2;
            if self.date_map[mid].date.lt(&d) {
                proof {
                    assert forall|i: int| 0 <= i < mid + 1 implies (
                    #[trigger] self.date_map@[i].date).spec_lt(d) by {
                        if i < mid {
                            assert(self.date_map@[i].date.spec_lt(self.date_map@[mid as int].date));
                        }
                    }
                }
                lo = mid + 1;
            } else {
                proof {
                    assert forall|i: int|
                        mid <= i < self.date_map@.len() implies d.spec_le(
                    #[trigger] self.date_map@[i].date) by {
                        if mid < i {
                            assert(self.date_map@[mid as int].date.spec_lt(self.date_map@[i].date));
                        }
                    }
                }
                hi = mid;
            }
        }
        lo
    }

    /// Binary search: the first position whose date is strictly after `d`
    /// (`date_map.len()` when there is none).
    fn upper_bound(&self, d: Date) -> (r: usize)
        requires
            self.wf(),
        ensures
            r <= self.date_map@.len(),
            forall|i: int| 0 <= i < r ==> (#[trigger] self.date_map@[i].date).spec_le(d),
            forall|i: int|
                r <= i < self.date_map@.len() ==> d.spec_lt(#[trigger] self.date_map@[i].date),
    {
        let mut lo: usize = 0;
        let mut hi: usize = self.date_map.len();
        while lo < hi
            invariant
                lo <= hi <= self.date_map@.len(),
                self.wf(),
                forall|i: int| 0 <= i < lo ==> (#[trigger] self.date_map@[i].date).spec_le(d),
                forall|i: int|
                    hi <= i < self.date_map@.len() ==> d.spec_lt(
                        #[trigger] self.date_map@[i].date,
                    ),
            decreases hi - lo,
    {
            let mid = lo + (hi - lo) / 2;
            if self.date_map[mid].date.le(&d) {
                proof {
                    assert forall|i: int| 0 <= i < mid + 1 implies (
                    #[trigger] self.date_map@[i].date).spec_le(d) by {
                        if i < mid {
                            assert(self.date_map@[i].date.spec_lt(self.date_map@[mid as int].date));
                        }
                    }
                }
                lo = mid + 1;
            } else {
                proof {
                    assert forall|i: int|
                        mid <= i < self.date_map@.len() implies d.spec_lt(
                    #[trigger] self.date_map@[i].date) by {
                        if mid < i {
                            assert(self.date_map@[mid as int].date.spec_lt(self.date_map@[i].date));
                        }
                    }
                }
                hi = mid;
            }
        }
        lo
    }

    /// The smallest stored date at or after `d`, or `None` when every stored
    /// date lies before `d`. Any date returned is a stored key.
    pub fn first_date_at_or_after(&self, d: Date) -> (r: Option<Date>)
        requires
            self.wf(),
        ensures
            r is Some <==> self.has_key_at_or_after(d),
            r matches Some(k) ==> self.is_first_key_at_or_after(d, k),
    {
        let lb = self.lower_bound(d);
        if lb < self.date_map.len() {
            let k = self.date_map[lb].date;
            proof {
                assert(0 <= lb < self.date_map@.len() && d.spec_le(self.date_map@[lb as int].date));
                assert forall|i: int|
                    0 <= i < self.date_map@.len() && d.spec_le(#[trigger] self.date_map@[i].date)
                        implies k.spec_le(self.date_map@[i].date) by {
                    if i < lb {
                        assert(self.date_map@[i].date.spec_lt(d));
                    } else if lb < i {
                        assert(self.date_map@[lb as int].date.spec_lt(self.date_map@[i].date));
                    }
                }
            }
            Some(k)
        } else {
            proof {
                assert(!self.has_key_at_or_after(d)) by {
                    if self.has_key_at_or_after(d) {
                        let i = choose|i: int|
                            0 <= i < self.date_map@.len() && d.spec_le(self.date_map@[i].date);
                        assert(self.date_map@[i].date.spec_lt(d));
                    }
                }
            }
            None
        }
    }

    /// The smallest stored date strictly after `d`, or `None` when `d` lies at
    /// or after every stored date. Any date returned is a stored key.
    pub fn next_key_after(&self, d: Date) -> (r: Option<Date>)
        requires
            self.wf(),
        ensures
            r is Some <==> self.has_key_after(d),
            r matches Some(k) ==> self.is_first_key_after(d, k),
    {
        let ub = self.upper_bound(d);
        if ub < self.date_map.len() {
            let k = self.date_map[ub].date;
            proof {
                assert(0 <= ub < self.date_map@.len() && d.spec_lt(self.date_map@[ub as int].date));
                assert forall|i: int|
                    0 <= i < self.date_map@.len() && d.spec_lt(#[trigger] self.date_map@[i].date)
                        implies k.spec_le(self.date_map@[i].date) by {
                    if i < ub {
                        assert(self.date_map@[i].date.spec_le(d));
                    } else if ub < i {
                        assert(self.date_map@[ub as int].date.spec_lt(self.date_map@[i].date));
                    }
                }
            }
            Some(k)
        } else {
            proof {
                assert(!self.has_key_after(d)) by {
                    if self.has_key_after(d) {
                        let i = choose|i: int|
                            0 <= i < self.date_map@.len() && d.spec_lt(self.date_map@[i].date);
                        assert(self.date_map@[i].date.spec_le(d));
                    }
                }
            }
            None
        }
    }

    /// The largest stored date strictly before `d`, or `None` when `d` lies at
    /// or before every stored date. Any date returned is a stored key.
    pub fn prev_key_before(&self, d: Date) -> (r: Option<Date>)
        requires
            self.wf(),
        ensures
            r is Some <==> self.has_key_before(d),
            r matches Some(k) ==> self.is_last_key_before(d, k),
    {
        let lb = self.lower_bound(d);
        if lb > 0 {
            let k = self.date_map[lb - 1].date;
            proof {
                assert(self.date_map@[lb - 1].date.spec_lt(d));
                assert forall|i: int|
                    0 <= i < self.date_map@.len() && (#[trigger] self.date_map@[i].date).spec_lt(d)
                        implies self.date_map@[i].date.spec_le(k) by {
                    if lb <= i {
                        assert(d.spec_le(self.date_map@[i].date));
                    } else if i < lb - 1 {
                        assert(self.date_map@[i].date.spec_lt(self.date_map@[lb - 1].date));
                    }
                }
            }
            Some(k)
        } else {
            proof {
                assert(!self.has_key_before(d)) by {
                    if self.has_key_before(d) {
                        let i = choose|i: int|
                            0 <= i < self.date_map@.len() && self.date_map@[i].date.spec_lt(d);
                        assert(d.spec_le(self.date_map@[i].date));
                    }
                }
            }
            None
        }
    }

    /// The largest stored date strictly before `d`: the fallback the initial
    /// date resolution uses when nothing lies at or after `d`.
    pub fn first_date_before(&self, d: Date) -> (r: Option<Date>)
        requires
            self.wf(),
        ensures
            r is Some <==> self.has_key_before(d),
            r matches Some(k) ==> self.is_last_key_before(d, k),
    {
        self.prev_key_before(d)
    }

    /// The position of the bucket that holds date `d`, if one does.
    pub fn index_of(&self, d: Date) -> (r: Option<usize>)
        requires
            self.wf(),
        ensures
            r is Some <==> self.contains_date(d),
            r matches Some(u) ==> u < self.date_map@.len() && self.date_map@[u as int].date == d
                && self.spec_index_of(d) == u,
    {
        let lb = self.lower_bound(d);
        if lb < self.date_map.len() && self.date_map[lb].date.eq_date(&d) {
            proof {
                self.lemma_index_of_unique(d, lb as int);
            }
            Some(lb)
        } else {
            proof {
                assert(!self.contains_date(d)) by {
                    if self.contains_date(d) {
                        let i = choose|i: int|
                            0 <= i < self.date_map@.len() && self.date_map@[i].date == d;
                        assert(d.spec_le(self.date_map@[i].date));
                        if i < lb {
                            assert(self.date_map@[i].date.spec_lt(d));
                        } else if lb < i && lb < self.date_map@.len() {
                            assert(self.date_map@[lb as int].date.spec_lt(self.date_map@[i].date));
                            assert(d.spec_le(self.date_map@[lb as int].date));
                        }
                    }
                }
            }
            None
        }
    }

    /// The bucket for an exact date. A lookup of a date with no items returns
    /// `None` and never inserts anything.
    pub fn bucket(&self, d: Date) -> (r: Option<&DateItems>)
        requires
            self.wf(),
        ensures
            r is Some <==> self.contains_date(d),
            r matches Some(b) ==> *b == self.date_map@[self.spec_index_of(d)] && b.date == d,
    {
        match self.index_of(d) {
            Some(u) => Some(&self.date_map[u]),
            None => None,
        }
    }

    /// Move the cursor of the bucket at position `u` one step down.
    pub fn select_next_at(&mut self, u: usize)
        requires
            old(self).wf(),
            u < old(self).date_map@.len(),
        ensures
            final(self).wf(),
            final(self).date_map@ == old(self).date_map@.update(
                u as int,
                old(self).date_map@[u as int].spec_select_next(),
            ),
    {
        let mut b = self.date_map.remove(u);
        b.select_next();
        self.date_map.insert(u, b);
        proof {
            self.lemma_bucket_update_keeps_wf(*old(self), u as int);
        }
    }

    /// Move the cursor of the bucket at position `u` one step up.
    pub fn select_previous_at(&mut self, u: usize)
        requires
            old(self).wf(),
            u < old(self).date_map@.len(),
        ensures
            final(self).wf(),
            final(self).date_map@ == old(self).date_map@.update(
                u as int,
                old(self).date_map@[u as int].spec_select_previous(),
            ),
    {
        let mut b = self.date_map.remove(u);
        b.select_previous();
        self.date_map.insert(u, b);
        proof {
            self.lemma_bucket_update_keeps_wf(*old(self), u as int);
        }
    }

    /// Give the bucket at position `u` a cursor if it has none yet.
    pub fn ensure_selection_at(&mut self, u: usize)
        requires
            old(self).wf(),
            u < old(self).date_map@.len(),
        ensures
            final(self).wf(),
            final(self).date_map@ == old(self).date_map@.update(
                u as int,
                old(self).date_map@[u as int].spec_ensure_selection(),
            ),
    {
        let mut b = self.date_map.remove(u);
        b.ensure_selection();
        self.date_map.insert(u, b);
        proof {
            self.lemma_bucket_update_keeps_wf(*old(self), u as int);
        }
    }

    /// Replacing one bucket with a well-formed bucket of the same date and
    /// items keeps the whole calendar well-formed.
    proof fn lemma_bucket_update_keeps_wf(self, prev: Calendar, u: int)
        requires
            prev.wf(),
            0 <= u < prev.date_map@.len(),
            self.date_map@.len() == prev.date_map@.len(),
            forall|i: int|
                0 <= i < self.date_map@.len() && i != u ==> self.date_map@[i]
                    == prev.date_map@[i],
            self.date_map@[u].date == prev.date_map@[u].date,
            self.date_map@[u].items == prev.date_map@[u].items,
            self.date_map@[u].wf(),
        ensures
            self.wf(),
    {
        assert(forall|i: int|
            0 <= i < self.date_map@.len() ==> self.date_map@[i].date == prev.date_map@[i].date);
        assert forall|i: int, j: int| 0 <= i < j < self.date_map@.len() implies self.date_map@[
            i
        ].date.spec_lt(self.date_map@[j].date) by {
            assert(prev.date_map@[i].date.spec_lt(prev.date_map@[j].date));
        }
        assert forall|i: int| 0 <= i < self.date_map@.len() implies (
        #[trigger] self.date_map@[i]).items@.len() > 0 && self.date_map@[i].wf() by {
            assert(prev.date_map@[i].items@.len() > 0 && prev.date_map@[i].wf());
        }
    }

    /// Group the fetched items by date: one bucket per distinct date, in
    /// ascending date order, each bucket holding exactly the items of its date
    /// in their original relative order, with no cursor set yet.
    pub fn from_items(items: &Vec<CalendarItem>) -> (c: Calendar)
        ensures
            c.wf(),
            forall|d: Date| #[trigger] c.contains_date(d) <==> date_occurs(items@, d),
            forall|i: int|
                0 <= i < c.date_map@.len() ==> (#[trigger] c.date_map@[i]).items@ == items@.filter(
                    with_date(c.date_map@[i].date),
                ),
            forall|i: int|
                0 <= i < c.date_map@.len() ==> (#[trigger] c.date_map@[i]).selected is None,
    {
        let mut cal = Calendar { date_map: Vec::new() };
        let mut k: usize = 0;
        while k < items.len()
            invariant
                k <= items@.len(),
                cal.wf(),
                forall|d: Date| #[trigger] cal.contains_date(d) <==> date_occurs(
                    items@.take(k as int),
                    d,
                ),
                forall|i: int|
                    0 <= i < cal.date_map@.len() ==> (#[trigger] cal.date_map@[i]).items@
                        == items@.take(k as int).filter(with_date(cal.date_map@[i].date)),
                forall|i: int|
                    0 <= i < cal.date_map@.len() ==> (#[trigger] cal.date_map@[i]).selected
                        is None,
            decreases items@.len() - k,
    {
            let ghost pre = items@.take(k as int);
            let ghost post = items@.take(k as int + 1);
            let ghost oldc = cal;
            let ghost old_v = cal.date_map@;
            proof {
                assert(post =~= pre.push(items@[k as int]));
            }
            let it = items[k].clone();
            let d = it.date;
            let lb = cal.lower_bound(d);
            if lb < cal.date_map.len() && cal.date_map[lb].date.eq_date(&d) {
                let mut b = cal.date_map.remove(lb);
                b.items.push(it);
                cal.date_map.insert(lb, b);
                proof {
                    let nv = cal.date_map@;
                    let bb = nv[lb as int];
                    assert(nv =~= old_v.update(lb as int, bb));
                    assert(bb.items@ == old_v[lb as int].items@.push(items@[k as int]));
                    // Every date is where it was, so order and membership carry over.
                    assert(forall|i: int| 0 <= i < nv.len() ==> nv[i].date == old_v[i].date);
                    assert forall|i: int, j: int| 0 <= i < j < nv.len() implies nv[i].date.spec_lt(
                        nv[j].date,
                    ) by {
                        assert(old_v[i].date.spec_lt(old_v[j].date));
                    }
                    // The touched bucket gains exactly the new item; the rest
                    // keep their filtered view because the new item's date is
                    // not theirs.
                    assert forall|i: int| 0 <= i < nv.len() implies (#[trigger] nv[i]).items@
                        == post.filter(with_date(nv[i].date)) by {
                        lemma_filter_push(pre, items@[k as int], with_date(nv[i].date));
                        if i == lb {
                            assert(with_date(nv[i].date)(items@[k as int]));
                        } else {
                            if i < lb {
                                assert(old_v[i].date.spec_lt(old_v[lb as int].date));
                            } else {
                                assert(old_v[lb as int].date.spec_lt(old_v[i].date));
                            }
                            assert(!with_date(nv[i].date)(items@[k as int]));
                        }
                    }
                    assert forall|x: Date| cal.contains_date(x) <==> date_occurs(post, x) by {
                        if cal.contains_date(x) {
                            let i = choose|i: int| 0 <= i < nv.len() && nv[i].date == x;
                            assert(old_v[i].date == x);
                            assert(oldc.contains_date(x));
                            assert(date_occurs(pre, x));
                            let j = choose|j: int| 0 <= j < pre.len() && pre[j].date == x;
                            assert(post[j].date == x);
                            assert(date_occurs(post, x));
                        }
                        if date_occurs(post, x) {
                            let j = choose|j: int| 0 <= j < post.len() && post[j].date == x;
                            if j < k {
                                assert(pre[j].date == x);
                                assert(date_occurs(pre, x));
                                assert(oldc.contains_date(x));
                                let i = choose|i: int|
                                    0 <= i < old_v.len() && old_v[i].date == x;
                                assert(nv[i].date == x);
                                assert(cal.contains_date(x));
                            } else {
                                assert(x == d);
                                assert(nv[lb as int].date == x);
                                assert(cal.contains_date(x));
                            }
                        }
                    }
                }
            } else {
                proof {
                    // No stored date equals d, so nothing so far fell on d.
                    assert forall|i: int| 0 <= i < old_v.len() implies old_v[i].date != d by {
                        if lb < i {
                            assert(old_v[lb as int].date.spec_lt(old_v[i].date));
                            assert(d.spec_le(old_v[lb as int].date));
                        }
                    }
                    assert(!cal.contains_date(d));
                    assert(!date_occurs(pre, d));
                    assert forall|j: int| 0 <= j < pre.len() implies !with_date(d)(
                        #[trigger] pre[j],
                    ) by {
                        if pre[j].date == d {
                            assert(date_occurs(pre, d));
                        }
                    }
                    lemma_filter_all_false(pre, with_date(d));
                }
                let mut nitems: Vec<CalendarItem> = Vec::new();
                nitems.push(it);
                let nb = DateItems { date: d, items: nitems, selected: None };
                cal.date_map.insert(lb, nb);
                proof {
                    let nv = cal.date_map@;
                    assert(nv =~= old_v.take(lb as int) + seq![nb] + old_v.skip(lb as int));
                    assert(forall|i: int| 0 <= i < lb ==> nv[i] == old_v[i]);
                    assert(nv[lb as int] == nb);
                    assert(forall|i: int| lb < i < nv.len() ==> nv[i] == old_v[i - 1]);
                    assert forall|i: int, j: int| 0 <= i < j < nv.len() implies nv[i].date.spec_lt(
                        nv[j].date,
                    ) by {
                        if i < lb && j == lb {
                            assert(old_v[i].date.spec_lt(d));
                        } else if i == lb && j > lb {
                            assert(d.spec_le(old_v[j - 1].date) && old_v[j - 1].date != d);
                        } else if i < lb && j > lb {
                            assert(old_v[i].date.spec_lt(d));
                            assert(d.spec_le(old_v[j - 1].date) && old_v[j - 1].date != d);
                        } else if i > lb && j > lb {
                            assert(old_v[i - 1].date.spec_lt(old_v[j - 1].date));
                        }
                    }
                    assert forall|i: int| 0 <= i < nv.len() implies (#[trigger] nv[i]).items@
                        == post.filter(with_date(nv[i].date)) by {
                        lemma_filter_push(pre, items@[k as int], with_date(nv[i].date));
                        if i == lb {
                            assert(with_date(d)(items@[k as int]));
                            assert(nv[i].items@ =~= Seq::<CalendarItem>::empty().push(
                                items@[k as int],
                            ));
                            assert(post.filter(with_date(d)) =~= Seq::<
                                CalendarItem,
                            >::empty().push(items@[k as int]));
                        } else if i < lb {
                            assert(old_v[i].date.spec_lt(d));
                            assert(!with_date(nv[i].date)(items@[k as int]));
                        } else {
                            assert(d.spec_le(old_v[i - 1].date) && old_v[i - 1].date != d);
                            assert(!with_date(nv[i].date)(items@[k as int]));
                        }
                    }
                    assert forall|x: Date| cal.contains_date(x) <==> date_occurs(post, x) by {
                        if cal.contains_date(x) {
                            let i = choose|i: int| 0 <= i < nv.len() && nv[i].date == x;
                            if i == lb {
                                assert(post[k as int].date == x);
                                assert(date_occurs(post, x));
                            } else {
                                let iold: int = if i < lb {
                                    i
                                } else {
                                    i - 1
                                };
                                assert(old_v[iold].date == x);
                                assert(oldc.contains_date(x));
                                assert(date_occurs(pre, x));
                                let j = choose|j: int| 0 <= j < pre.len() && pre[j].date == x;
                                assert(post[j].date == x);
                                assert(date_occurs(post, x));
                            }
                        }
                        if date_occurs(post, x) {
                            let j = choose|j: int| 0 <= j < post.len() && post[j].date == x;
                            if j < k {
                                assert(pre[j].date == x);
                                assert(date_occurs(pre, x));
                                assert(oldc.contains_date(x));
                                let i = choose|i: int|
                                    0 <= i < old_v.len() && old_v[i].date == x;
                                if i < lb {
                                    assert(nv[i].date == x);
                                } else {
                                    assert(nv[i + 1].date == x);
                                }
                                assert(cal.contains_date(x));
                            } else {
                                assert(x == d);
                                assert(nv[lb as int].date == x);
                                assert(cal.contains_date(x));
                            }
                        }
                    }
                }
            }
            k = k + 1;
        }
        proof {
            assert(items@.take(items@.len() as int) =~= items@);
        }
        cal
    }
}

} // verus!
