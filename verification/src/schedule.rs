//! The one listing with logic of its own: reservations of a single day.
//!
//! Given the bounds of a calendar day, the listing keeps the reservations
//! whose start lies within the day, orders them by start, and returns at
//! most the ten earliest.  `day_page` says exactly that of a result: it is
//! sorted, drawn from the day's reservations, as long as the page allows,
//! and nothing kept starts later than anything left out.

use crate::models::Reservation;
use vstd::prelude::*;

verus! {

broadcast use vstd::seq_lib::group_to_multiset_ensures;

/// Whether the reservation starts within the closed interval `[lo, hi]`.
pub open spec fn within_day(r: Reservation, lo: int, hi: int) -> bool {
    lo <= r.data.start_time <= hi
}

/// The rows of `s`, in order, whose start lies within `[lo, hi]`.
pub open spec fn day_rows(s: Seq<Reservation>, lo: int, hi: int) -> Seq<Reservation>
    decreases s.len(),
{
    if s.len() == 0 {
        Seq::empty()
    } else {
        let rest = day_rows(s.drop_last(), lo, hi);
        if within_day(s.last(), lo, hi) {
            rest.push(s.last())
        } else {
            rest
        }
    }
}

/// Whether the rows are ordered by ascending start.
pub open spec fn sorted_by_start(s: Seq<Reservation>) -> bool {
    forall|i: int, j: int|
        0 <= i < j < s.len() ==> s[i].data.start_time <= s[j].data.start_time
}

/// What the day listing returns: writing `matching` for the rows of `all`
/// that start within `[lo, hi]`, the result `out` is sorted by ascending
/// start, drawn from `matching`, holds all of `matching` up to ten rows,
/// and leaves a row out only when it is full and the row starts no earlier
/// than everything kept.
pub open spec fn day_page(all: Seq<Reservation>, lo: int, hi: int, out: Seq<Reservation>) -> bool {
    let matching = day_rows(all, lo, hi);
    &&& sorted_by_start(out)
    &&& out.to_multiset().subset_of(matching.to_multiset())
    &&& out.len() == (if matching.len() <= 10 {
        matching.len()
    } else {
        10nat
    })
    &&& forall|x: Reservation|
        #[trigger] matching.to_multiset().count(x) > out.to_multiset().count(x) ==> out.len() == 10
            && x.data.start_time >= out.last().data.start_time
}

/// The reservations of one day: those rows of `rows` that start within
/// `[lo, hi]`, by ascending start, capped at the ten earliest.
pub fn reservations_on_day(rows: &Vec<Reservation>, lo: i64, hi: i64) -> (out: Vec<Reservation>)
    ensures
        day_page(rows@, lo as int, hi as int, out@),
{
    let n = rows.len();
    let mut pool: Vec<Reservation> = Vec::new();
    let mut k: usize = 0;
    while k < n
        invariant
            n == rows@.len(),
            k <= n,
            pool@ == day_rows(rows@.take(k as int), lo as int, hi as int),
        decreases n - k,
    {
        let r = rows[k];
        proof {
            assert(rows@.take(k as int + 1).drop_last() =~= rows@.take(k as int));
            assert(rows@.take(k as int + 1).last() == rows@[k as int]);
        }
        if lo <= r.data.start_time && r.data.start_time <= hi {
            pool.push(r);
        }
        k = k + 1;
    }
    proof {
        assert(rows@.take(n as int) =~= rows@);
    }
    let ghost matching = pool@;
    let mut out: Vec<Reservation> = Vec::new();
    while out.len() < 10 && pool.len() > 0
        invariant
            out@.to_multiset().add(pool@.to_multiset()) == matching.to_multiset(),
            out@.len() + pool@.len() == matching.len(),
            out@.len() <= 10,
            sorted_by_start(out@),
            out@.len() > 0 ==> forall|x: Reservation|
                #[trigger] pool@.to_multiset().count(x) > 0 ==> out@.last().data.start_time
                    <= x.data.start_time,
        decreases pool@.len(),
    {
        let mut best: usize = 0;
        let mut j: usize = 1;
        while j < pool.len()
            invariant
                0 < pool@.len(),
                best < j,
                1 <= j <= pool@.len(),
                forall|q: int|
                    0 <= q < j ==> pool@[best as int].data.start_time
                        <= #[trigger] pool@[q].data.start_time,
            decreases pool@.len() - j,
        {
            if pool[j].data.start_time < pool[best].data.start_time {
                best = j;
            }
            j = j + 1;
        }
        let ghost old_out = out@;
        let ghost old_pool = pool@;
        let x = pool.remove(best);
        out.push(x);
        proof {
            assert(old_pool.to_multiset().count(x) > 0) by {
                assert(old_pool[best as int] == x);
                assert(old_pool.contains(x));
            }
            assert(out@.to_multiset().add(pool@.to_multiset()) =~= matching.to_multiset()) by {
                assert(out@ == old_out.push(x));
                assert(old_out.push(x).to_multiset() =~= old_out.to_multiset().insert(x));
                assert(pool@.to_multiset() =~= old_pool.to_multiset().remove(x));
            }
            assert forall|q: int| 0 <= q < old_out.len() implies old_out[q].data.start_time
                <= x.data.start_time by {
                assert(old_out[q].data.start_time <= old_out.last().data.start_time);
            }
            assert(sorted_by_start(out@)) by {
                assert(forall|q: int| 0 <= q < old_out.len() ==> out@[q] == old_out[q]);
                assert(out@.last() == x);
            }
            assert forall|y: Reservation| #[trigger] pool@.to_multiset().count(y) > 0 implies out@
                .last().data.start_time <= y.data.start_time by {
                assert(old_pool.to_multiset().count(y) > 0);
                assert(old_pool.contains(y));
                let q = choose|q: int| 0 <= q < old_pool.len() && old_pool[q] == y;
                assert(old_pool[best as int].data.start_time <= old_pool[q].data.start_time);
            }
        }
    }
    proof {
        assert forall|x: Reservation| #[trigger] matching.to_multiset().count(x) > out@
            .to_multiset().count(x) implies out@.len() == 10 && x.data.start_time >= out@
            .last().data.start_time by {
            assert(pool@.to_multiset().count(x) > 0);
            assert(pool@.len() > 0) by {
                assert(pool@.to_multiset().len() > 0);
            }
        }
        assert(out@.to_multiset().subset_of(matching.to_multiset()));
        if pool@.len() == 0 {
            assert(out@.len() == matching.len());
        }
    }
    out
}

} // verus!
