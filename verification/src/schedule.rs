//! When the dashboard computes its subscribed items. Subscriptions with the
//! same interval share a bucket; a bucket falls due at its time and then
//! moves on by whole intervals past the present; a failing item is reported
//! at most once every five seconds. Times are nanoseconds on a monotonic
//! clock.

use vstd::prelude::*;

verus! {

/// How long a failing item stays quiet after it was reported.
pub const COMPUTE_ERROR_LOG_INTERVAL_NS: u64 = 5_000_000_000;

/// Subscriptions that share an interval: the positions of their items in
/// the subscription list, and when they are next due.
#[derive(Debug, Clone, PartialEq, Eq)]
pub struct ScheduleBucket {
    pub interval_ns: u64,
    pub next_due_ns: u64,
    pub items: Vec<usize>,
}

/// A bucket as plain values.
pub struct BucketView {
    pub interval_ns: u64,
    pub next_due_ns: u64,
    pub items: Seq<usize>,
}

impl View for ScheduleBucket {
    type V = BucketView;

    open spec fn view(&self) -> BucketView {
        BucketView { interval_ns: self.interval_ns, next_due_ns: self.next_due_ns, items: self.items@ }
    }
}

/// The plain values of a list of buckets.
pub open spec fn buckets_view(bs: Seq<ScheduleBucket>) -> Seq<BucketView> {
    bs.map_values(|b: ScheduleBucket| b@)
}

/// Where the bucket with interval `iv` stands among the first `k` buckets.
pub open spec fn bucket_position(bs: Seq<BucketView>, iv: u64, k: int) -> Option<int>
    decreases k,
{
    if k <= 0 {
        None
    } else {
        match bucket_position(bs, iv, k - 1) {
            Some(j) => Some(j),
            None => if bs[k - 1].interval_ns == iv { Some(k - 1) } else { None },
        }
    }
}

/// The buckets of the first `k` subscriptions (given by their intervals),
/// in the order their intervals first appear, each first due one interval
/// after `now`.
pub open spec fn schedule_upto(intervals: Seq<u64>, now: u64, k: int) -> Seq<BucketView>
    decreases k,
{
    if k <= 0 {
        Seq::empty()
    } else {
        let bs = schedule_upto(intervals, now, k - 1);
        let iv = intervals[k - 1];
        match bucket_position(bs, iv, bs.len() as int) {
            Some(j) => bs.update(j, BucketView { items: bs[j].items.push((k - 1) as usize), ..bs[j] }),
            None => bs.push(BucketView { interval_ns: iv, next_due_ns: (now + iv) as u64, items: seq![(k - 1) as usize] }),
        }
    }
}

/// Once found, a bucket position stays the one found.
proof fn lemma_bucket_position_stays(bs: Seq<BucketView>, iv: u64, j: int, k: int)
    requires
        0 <= j <= k,
        bucket_position(bs, iv, j) is Some,
    ensures
        bucket_position(bs, iv, k) == bucket_position(bs, iv, j),
    decreases k - j,
{
    if j < k {
        lemma_bucket_position_stays(bs, iv, j, k - 1);
    }
}

/// A found bucket position lies among the buckets and has the interval.
proof fn lemma_bucket_position_found(bs: Seq<BucketView>, iv: u64, k: int)
    requires
        k <= bs.len(),
    ensures
        bucket_position(bs, iv, k) matches Some(j) ==> 0 <= j < k && bs[j].interval_ns == iv,
    decreases k,
{
    if k > 0 {
        lemma_bucket_position_found(bs, iv, k - 1);
    }
}

fn find_bucket(buckets: &Vec<ScheduleBucket>, iv: u64) -> (r: Option<usize>)
    ensures
        r matches Some(j) ==> bucket_position(buckets_view(buckets@), iv, buckets_view(buckets@).len() as int) == Some(j as int),
        r is None ==> bucket_position(buckets_view(buckets@), iv, buckets_view(buckets@).len() as int) is None,
{
    let ghost bv = buckets_view(buckets@);
    assert(bv.len() == buckets@.len());
    let mut k: usize = 0;
    while k < buckets.len()
        invariant
            k <= buckets@.len(),
            bv == buckets_view(buckets@),
            bucket_position(bv, iv, k as int) is None,
        decreases buckets@.len() - k,
    {
        assert(bv[k as int] == buckets@[k as int]@);
        if buckets[k].interval_ns == iv {
            proof { lemma_bucket_position_stays(bv, iv, k as int + 1, bv.len() as int); }
            return Some(k);
        }
        k = k + 1;
    }
    None
}

/// Group the subscriptions, given by their intervals in subscription order,
/// into buckets that fall due one interval from `now`.
pub fn build_schedule(intervals: &[u64], now_ns: u64) -> (r: Vec<ScheduleBucket>)
    requires
        forall|i: int| 0 <= i < intervals@.len() ==> now_ns + #[trigger] intervals@[i] <= u64::MAX,
    ensures
        buckets_view(r@) == schedule_upto(intervals@, now_ns, intervals@.len() as int),
{
    let mut buckets: Vec<ScheduleBucket> = Vec::new();
    let mut k: usize = 0;
    assert(buckets_view(buckets@) =~= Seq::<BucketView>::empty());
    while k < intervals.len()
        invariant
            k <= intervals@.len(),
            forall|i: int| 0 <= i < intervals@.len() ==> now_ns + #[trigger] intervals@[i] <= u64::MAX,
            buckets_view(buckets@) == schedule_upto(intervals@, now_ns, k as int),
        decreases intervals@.len() - k,
    {
        let iv = intervals[k];
        let ghost before = buckets_view(buckets@);
        match find_bucket(&buckets, iv) {
            Some(j) => {
                proof {
                    lemma_bucket_position_found(before, iv, before.len() as int);
                    assert(intervals@[k as int] == iv);
                    assert(((k as int + 1) - 1) as usize == k);
                }
                buckets[j].items.push(k);
                assert(buckets_view(buckets@) =~= before.update(j as int,
                    BucketView { items: before[j as int].items.push(k), ..before[j as int] }));
                assert(schedule_upto(intervals@, now_ns, k as int + 1) == before.update(j as int,
                    BucketView { items: before[j as int].items.push(k), ..before[j as int] }));
            },
            None => {
                let mut items: Vec<usize> = Vec::new();
                items.push(k);
                let b = ScheduleBucket { interval_ns: iv, next_due_ns: now_ns + iv, items };
                buckets.push(b);
                assert(items@ =~= seq![k]);
                assert(buckets_view(buckets@) =~= before.push(
                    BucketView { interval_ns: iv, next_due_ns: (now_ns + iv) as u64, items: seq![k] }));
                assert(schedule_upto(intervals@, now_ns, k as int + 1) == before.push(
                    BucketView { interval_ns: iv, next_due_ns: (now_ns + iv) as u64, items: seq![k] }));
            },
        }
        k = k + 1;
    }
    buckets
}

/// Subscription `i` sits in a bucket of interval `iv`.
pub open spec fn sits_in_bucket(bs: Seq<BucketView>, iv: u64, i: int) -> bool {
    exists|j: int| 0 <= j < bs.len() && bs[j].interval_ns == iv && #[trigger] bs[j].items.contains(i as usize)
}

/// No bucket among the first `k` has interval `iv` when none was found.
proof fn lemma_bucket_position_absent(bs: Seq<BucketView>, iv: u64, k: int)
    requires
        k <= bs.len(),
        bucket_position(bs, iv, k) is None,
    ensures
        forall|j: int| 0 <= j < k ==> bs[j].interval_ns != iv,
    decreases k,
{
    if k > 0 {
        lemma_bucket_position_absent(bs, iv, k - 1);
    }
}

/// The buckets split the subscriptions by interval: buckets have distinct
/// intervals, every subscription sits in the bucket of its interval, and a
/// bucket holds only subscriptions of its interval, in order, each once,
/// and falls due one interval after `now`.
pub proof fn lemma_schedule_partitions_subscriptions(intervals: Seq<u64>, now: u64, k: int)
    requires
        0 <= k <= intervals.len(),
        intervals.len() <= usize::MAX,
        forall|i: int| 0 <= i < intervals.len() ==> now + #[trigger] intervals[i] <= u64::MAX,
    ensures
        ({
            let bs = schedule_upto(intervals, now, k);
            &&& forall|j1: int, j2: int| 0 <= j1 < j2 < bs.len() ==> bs[j1].interval_ns != bs[j2].interval_ns
            &&& forall|i: int| 0 <= i < k ==> #[trigger] sits_in_bucket(bs, intervals[i], i)
            &&& forall|j: int, t: int| 0 <= j < bs.len() && 0 <= t < bs[j].items.len() ==>
                bs[j].items[t] < k && intervals[bs[j].items[t] as int] == bs[j].interval_ns
            &&& forall|j: int, t1: int, t2: int| 0 <= j < bs.len() && 0 <= t1 < t2 < bs[j].items.len() ==>
                bs[j].items[t1] < bs[j].items[t2]
            &&& forall|j: int| 0 <= j < bs.len() ==> bs[j].next_due_ns == now + bs[j].interval_ns
        }),
    decreases k,
{
    if k > 0 {
        lemma_schedule_partitions_subscriptions(intervals, now, k - 1);
        let bs = schedule_upto(intervals, now, k - 1);
        let iv = intervals[k - 1];
        let n = (k - 1) as usize;
        let r = schedule_upto(intervals, now, k);
        lemma_bucket_position_found(bs, iv, bs.len() as int);
        match bucket_position(bs, iv, bs.len() as int) {
            Some(j0) => {
                assert(r == bs.update(j0, BucketView { items: bs[j0].items.push(n), ..bs[j0] }));
                assert forall|i: int| 0 <= i < k implies #[trigger] sits_in_bucket(r, intervals[i], i) by {
                    if i == k - 1 {
                        assert(r[j0].items[r[j0].items.len() - 1] == n);
                        assert(r[j0].items.contains(i as usize));
                    } else {
                        assert(sits_in_bucket(bs, intervals[i], i));
                        let j = choose|j: int| 0 <= j < bs.len() && bs[j].interval_ns == intervals[i]
                            && #[trigger] bs[j].items.contains(i as usize);
                        if j == j0 {
                            let t = choose|t: int| 0 <= t < bs[j].items.len() && bs[j].items[t] == i as usize;
                            assert(r[j].items[t] == i as usize);
                        } else {
                            assert(r[j] == bs[j]);
                        }
                        assert(r[j].items.contains(i as usize));
                    }
                }
                assert forall|j: int, t: int| 0 <= j < r.len() && 0 <= t < r[j].items.len() implies
                    r[j].items[t] < k && intervals[r[j].items[t] as int] == r[j].interval_ns by {
                    if j == j0 && t == r[j].items.len() - 1 {
                        assert(r[j].items[t] == n);
                        assert(n as int == k - 1);
                    } else if j == j0 {
                        assert(r[j].items[t] == bs[j].items[t]);
                    } else {
                        assert(r[j] == bs[j]);
                    }
                }
                assert forall|j: int, t1: int, t2: int| 0 <= j < r.len() && 0 <= t1 < t2 < r[j].items.len() implies
                    r[j].items[t1] < r[j].items[t2] by {
                    if j == j0 {
                        assert(r[j].items[t1] == bs[j].items[t1]);
                        assert(bs[j].items[t1] < k - 1);
                        if t2 < r[j].items.len() - 1 {
                            assert(r[j].items[t2] == bs[j].items[t2]);
                        } else {
                            assert(r[j].items[t2] == n);
                        }
                    } else {
                        assert(r[j] == bs[j]);
                    }
                }
            },
            None => {
                lemma_bucket_position_absent(bs, iv, bs.len() as int);
                let nb = BucketView { interval_ns: iv, next_due_ns: (now + iv) as u64, items: seq![n] };
                assert(r == bs.push(nb));
                assert forall|i: int| 0 <= i < k implies #[trigger] sits_in_bucket(r, intervals[i], i) by {
                    if i == k - 1 {
                        assert(r[bs.len() as int].items[0] == n);
                        assert(r[bs.len() as int].items.contains(i as usize));
                    } else {
                        assert(sits_in_bucket(bs, intervals[i], i));
                        let j = choose|j: int| 0 <= j < bs.len() && bs[j].interval_ns == intervals[i]
                            && #[trigger] bs[j].items.contains(i as usize);
                        assert(r[j] == bs[j]);
                        assert(r[j].items.contains(i as usize));
                    }
                }
                assert forall|j: int, t: int| 0 <= j < r.len() && 0 <= t < r[j].items.len() implies
                    r[j].items[t] < k && intervals[r[j].items[t] as int] == r[j].interval_ns by {
                    if j < bs.len() {
                        assert(r[j] == bs[j]);
                    } else {
                        assert(r[j].items[t] == n);
                        assert(n as int == k - 1);
                    }
                }
                assert forall|j: int, t1: int, t2: int| 0 <= j < r.len() && 0 <= t1 < t2 < r[j].items.len() implies
                    r[j].items[t1] < r[j].items[t2] by {
                    if j < bs.len() {
                        assert(r[j] == bs[j]);
                    }
                }
            },
        }
    }
}

/// A due time moved on past `now`: by whole intervals until it is later
/// than `now`, or to `now` itself when the interval is zero. A time still
/// to come stays.
pub open spec fn advanced_due(due: u64, interval: u64, now: u64, r: u64) -> bool {
    if due > now {
        r == due
    } else if interval == 0 {
        r == now
    } else {
        now < r <= now + interval && (r - due) % (interval as int) == 0
    }
}

/// Move a bucket's due time past `now`.
pub fn advance_due(due: u64, interval: u64, now: u64) -> (r: u64)
    requires
        now + interval <= u64::MAX,
    ensures
        advanced_due(due, interval, now, r),
{
    if due > now {
        return due;
    }
    if interval == 0 {
        return now;
    }
    let mut next = due;
    assert((next - due) % (interval as int) == 0) by (nonlinear_arith)
        requires
            next == due,
            interval > 0,
    ;
    while next <= now
        invariant
            due <= now,
            interval > 0,
            now + interval <= u64::MAX,
            due <= next <= now + interval,
            (next - due) % (interval as int) == 0,
        decreases now + interval - next,
    {
        let old_next = next;
        next = next + interval;
        assert((next - due) % (interval as int) == 0) by (nonlinear_arith)
            requires
                (old_next - due) % (interval as int) == 0,
                next - due == (old_next - due) + interval,
                interval > 0,
        {
            vstd::arithmetic::div_mod::lemma_mod_add_multiples_vanish((old_next - due) as int, interval as int);
        }
    }
    next
}

/// What a bucket becomes at `now`, and the items it hands out then.
pub open spec fn bucket_at(b: BucketView, now: u64, r: BucketView) -> bool {
    &&& r.interval_ns == b.interval_ns
    &&& r.items == b.items
    &&& advanced_due(b.next_due_ns, b.interval_ns, now, r.next_due_ns)
}

/// The items of the first `k` buckets that are due at `now`, bucket by
/// bucket.
pub open spec fn due_items_upto(bs: Seq<BucketView>, now: u64, k: int) -> Seq<usize>
    decreases k,
{
    if k <= 0 {
        Seq::empty()
    } else {
        let d = due_items_upto(bs, now, k - 1);
        if now >= bs[k - 1].next_due_ns { d + bs[k - 1].items } else { d }
    }
}

/// Collect the items of every bucket due at `now`, in bucket order, and
/// move those buckets' due times past `now`.
pub fn take_due_items(buckets: &mut Vec<ScheduleBucket>, now_ns: u64) -> (r: Vec<usize>)
    requires
        forall|i: int| 0 <= i < old(buckets)@.len() ==> now_ns + (#[trigger] old(buckets)@[i]).interval_ns <= u64::MAX,
    ensures
        r@ == due_items_upto(buckets_view(old(buckets)@), now_ns, old(buckets)@.len() as int),
        final(buckets)@.len() == old(buckets)@.len(),
        forall|i: int| 0 <= i < final(buckets)@.len() ==> bucket_at(old(buckets)@[i]@, now_ns, #[trigger] final(buckets)@[i]@),
{
    let ghost start = buckets@;
    let mut out: Vec<usize> = Vec::new();
    let mut k: usize = 0;
    while k < buckets.len()
        invariant
            k <= buckets@.len(),
            buckets@.len() == start.len(),
            start == old(buckets)@,
            forall|i: int| 0 <= i < start.len() ==> now_ns + (#[trigger] start[i]).interval_ns <= u64::MAX,
            out@ == due_items_upto(buckets_view(start), now_ns, k as int),
            forall|i: int| 0 <= i < k ==> bucket_at(start[i]@, now_ns, #[trigger] buckets@[i]@),
            forall|i: int| k <= i < buckets@.len() ==> #[trigger] buckets@[i] == start[i],
        decreases buckets@.len() - k,
    {
        let due = buckets[k].next_due_ns;
        let iv = buckets[k].interval_ns;
        assert(buckets_view(start)[k as int] == start[k as int]@);
        if now_ns >= due {
            let mut j: usize = 0;
            let ghost out0 = out@;
            while j < buckets[k].items.len()
                invariant
                    k < buckets@.len(),
                    buckets@[k as int] == start[k as int],
                    j <= buckets@[k as int].items@.len(),
                    out@ == out0 + buckets@[k as int].items@.subrange(0, j as int),
                decreases buckets@[k as int].items@.len() - j,
            {
                out.push(buckets[k].items[j]);
                j = j + 1;
                assert(out@ =~= out0 + buckets@[k as int].items@.subrange(0, j as int));
            }
            assert(buckets@[k as int].items@.subrange(0, j as int) =~= buckets@[k as int].items@);
            let nd = advance_due(due, iv, now_ns);
            buckets[k].next_due_ns = nd;
        }
        k = k + 1;
    }
    out
}

/// Whether a failing item is reported now: when it never was, or when
/// the last report lies at least five seconds back.
pub open spec fn spec_should_log_compute_error(last_ns: Option<u64>, now_ns: u64) -> bool {
    match last_ns {
        Some(last) => !(now_ns >= last && now_ns - last < COMPUTE_ERROR_LOG_INTERVAL_NS) && !(now_ns < last),
        None => true,
    }
}

/// Decide whether to report a failing item; a clock reading before the
/// last report counts as no time elapsed.
pub fn should_log_compute_error(last_ns: Option<u64>, now_ns: u64) -> (r: bool)
    ensures
        r == spec_should_log_compute_error(last_ns, now_ns),
{
    match last_ns {
        Some(last) => {
            let elapsed = if now_ns >= last { now_ns - last } else { 0 };
            !(elapsed < COMPUTE_ERROR_LOG_INTERVAL_NS)
        },
        None => true,
    }
}

/// Whether sending the `count`-th frame is worth a line in the log: the
/// first, and every thousandth.
pub fn should_report_sent_frame(count: u64) -> (r: bool)
    ensures
        r == (count == 1 || count % 1000 == 0),
{
    count == 1 || count % 1000 == 0
}

/// The due time after advancing is unique: a time still to come stays; a
/// bucket with no interval becomes due at `now`; otherwise it becomes the
/// one time later than `now` but not by more than an interval that is a
/// whole number of intervals after the old due time.
pub proof fn lemma_advanced_due_unique(due: u64, interval: u64, now: u64, r1: u64, r2: u64)
    requires
        advanced_due(due, interval, now, r1),
        advanced_due(due, interval, now, r2),
    ensures
        r1 == r2,
        due > now ==> r1 == due,
        due <= now && interval == 0 ==> r1 == now,
        due <= now && interval > 0 ==> now < r1 && r1 - now <= interval,
{
    if due <= now && interval > 0 {
        let a = r1 - due;
        let b = r2 - due;
        let iv = interval as int;
        if r1 != r2 {
            assert(false) by (nonlinear_arith)
                requires
                    a % iv == 0,
                    b % iv == 0,
                    a >= 0,
                    b >= 0,
                    iv > 0,
                    a != b,
                    a - b < iv,
                    b - a < iv,
            {
                vstd::arithmetic::div_mod::lemma_fundamental_div_mod(a, iv);
                vstd::arithmetic::div_mod::lemma_fundamental_div_mod(b, iv);
                let qa = a / iv;
                let qb = b / iv;
                if qa > qb {
                    assert(iv * qa - iv * qb >= iv) by {
                        vstd::arithmetic::mul::lemma_mul_is_distributive_sub(iv, qa, qb);
                        vstd::arithmetic::mul::lemma_mul_increases(iv, qa - qb);
                    }
                } else if qb > qa {
                    assert(iv * qb - iv * qa >= iv) by {
                        vstd::arithmetic::mul::lemma_mul_is_distributive_sub(iv, qb, qa);
                        vstd::arithmetic::mul::lemma_mul_increases(iv, qb - qa);
                    }
                }
            }
        }
    }
}

/// A failing item is reported when it never was, or when at least five
/// seconds have passed since its last report; a clock reading before the
/// last report never reports.
pub proof fn lemma_compute_error_reports_every_five_seconds(last_ns: Option<u64>, now_ns: u64)
    ensures
        last_ns is None ==> spec_should_log_compute_error(last_ns, now_ns),
        last_ns matches Some(last) ==> (spec_should_log_compute_error(last_ns, now_ns) <==> now_ns >= last + 5_000_000_000),
{
}

} // verus!
