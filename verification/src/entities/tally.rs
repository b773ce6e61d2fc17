use crate::entities::status_class::StatusClass;
use vstd::prelude::*;

verus! {

/// One parsed log record: the day it falls on and the class of its status code.
pub struct Hit {
    pub day: Seq<char>,
    pub class: StatusClass,
}

/// The counters of one day, as mathematical values.
pub struct DayTally {
    pub date: Seq<char>,
    pub requests: nat,
    pub count_2xx: nat,
    pub count_3xx: nat,
    pub count_4xx: nat,
    pub count_5xx: nat,
}

impl DayTally {
    /// A day on which nothing was counted yet.
    pub open spec fn fresh(date: Seq<char>) -> DayTally {
        DayTally { date, requests: 0, count_2xx: 0, count_3xx: 0, count_4xx: 0, count_5xx: 0 }
    }

    /// The counter of one class; no counter is kept for unclassified requests.
    pub open spec fn class_count(self, class: StatusClass) -> nat {
        match class {
            StatusClass::Success => self.count_2xx,
            StatusClass::Redirection => self.count_3xx,
            StatusClass::ClientError => self.count_4xx,
            StatusClass::ServerError => self.count_5xx,
            StatusClass::Unclassified => 0,
        }
    }

    /// The day after one more request of `class`: the request count and the
    /// counter of that class, if it has one, each grow by one.
    pub open spec fn bump(self, class: StatusClass) -> DayTally {
        DayTally {
            date: self.date,
            requests: self.requests + 1,
            count_2xx: self.count_2xx + if class == StatusClass::Success { 1nat } else { 0nat },
            count_3xx: self.count_3xx + if class == StatusClass::Redirection { 1nat } else { 0nat },
            count_4xx: self.count_4xx + if class == StatusClass::ClientError { 1nat } else { 0nat },
            count_5xx: self.count_5xx + if class == StatusClass::ServerError { 1nat } else { 0nat },
        }
    }

    /// Requests counted in no class.
    pub open spec fn unclassified(self) -> int {
        self.requests - self.count_2xx - self.count_3xx - self.count_4xx - self.count_5xx
    }

    /// The class counters do not exceed the request count.
    pub open spec fn consistent(self) -> bool {
        self.unclassified() >= 0
    }
}

/// One request is counted in one place only: the request count grows by
/// one; of the class counters only the one of the request's class grows, by
/// one; a request of no class grows the unclassified rest instead.
pub proof fn lemma_bump_one_class(day: DayTally, class: StatusClass)
    ensures
        day.bump(class).date == day.date,
        day.bump(class).requests == day.requests + 1,
        forall|other: StatusClass|
            #[trigger] day.bump(class).class_count(other) == day.class_count(other) + if other
                == class && class != StatusClass::Unclassified {
                1nat
            } else {
                0nat
            },
        day.bump(class).unclassified() == day.unclassified() + if class
            == StatusClass::Unclassified {
            1int
        } else {
            0int
        },
        day.consistent() ==> day.bump(class).consistent(),
{
}

/// Whether some entry of `days` is for `date`.
pub open spec fn has_day(days: Seq<DayTally>, date: Seq<char>) -> bool {
    exists|i: int| 0 <= i < days.len() && (#[trigger] days[i]).date == date
}

/// The position of the first entry of `days` that is for `date`.
pub open spec fn day_index(days: Seq<DayTally>, date: Seq<char>) -> int
    recommends
        has_day(days, date),
{
    choose|i: int|
        0 <= i < days.len() && (#[trigger] days[i]).date == date && forall|j: int|
            0 <= j < i ==> (#[trigger] days[j]).date != date
}

/// No two entries are for the same day.
pub open spec fn distinct_days(days: Seq<DayTally>) -> bool {
    forall|i: int, j: int|
        0 <= i < j < days.len() ==> (#[trigger] days[i]).date != (#[trigger] days[j]).date
}

/// The entries after one more record: the entry of its day is bumped, or, on
/// the first record of a day, a new entry is put behind all others.
pub open spec fn record(days: Seq<DayTally>, hit: Hit) -> Seq<DayTally> {
    if has_day(days, hit.day) {
        let i = day_index(days, hit.day);
        days.update(i, days[i].bump(hit.class))
    } else {
        days.push(DayTally::fresh(hit.day).bump(hit.class))
    }
}

/// The entries that a run of records leaves, taken in order from none.
pub open spec fn tally(hits: Seq<Hit>) -> Seq<DayTally>
    decreases hits.len(),
{
    if hits.len() == 0 {
        Seq::empty()
    } else {
        record(tally(hits.drop_last()), hits.last())
    }
}

/// The requests counted over all days.
pub open spec fn requests_sum(days: Seq<DayTally>) -> nat
    decreases days.len(),
{
    if days.len() == 0 {
        0
    } else {
        requests_sum(days.drop_last()) + days.last().requests
    }
}

/// The requests of one class counted over all days.
pub open spec fn class_sum(days: Seq<DayTally>, class: StatusClass) -> nat
    decreases days.len(),
{
    if days.len() == 0 {
        0
    } else {
        class_sum(days.drop_last(), class) + days.last().class_count(class)
    }
}

/// Where some entry is for `date`, `day_index` is the first such entry.
pub proof fn lemma_day_index(days: Seq<DayTally>, date: Seq<char>)
    requires
        has_day(days, date),
    ensures
        0 <= day_index(days, date) < days.len(),
        days[day_index(days, date)].date == date,
        forall|j: int| 0 <= j < day_index(days, date) ==> (#[trigger] days[j]).date != date,
{
    let k = choose|i: int| 0 <= i < days.len() && (#[trigger] days[i]).date == date;
    lemma_first_entry_exists(days, date, k);
}

/// Below any entry for `date` stands a first one.
proof fn lemma_first_entry_exists(days: Seq<DayTally>, date: Seq<char>, k: int)
    requires
        0 <= k < days.len(),
        days[k].date == date,
    ensures
        exists|i: int|
            0 <= i < days.len() && (#[trigger] days[i]).date == date && forall|j: int|
                0 <= j < i ==> (#[trigger] days[j]).date != date,
    decreases k,
{
    if exists|j: int| 0 <= j < k && (#[trigger] days[j]).date == date {
        let j = choose|j: int| 0 <= j < k && (#[trigger] days[j]).date == date;
        lemma_first_entry_exists(days, date, j);
    } else {
        assert(forall|j: int| 0 <= j < k ==> (#[trigger] days[j]).date != date);
    }
}

/// An entry put behind the others adds its requests to the sum.
pub proof fn lemma_requests_sum_push(days: Seq<DayTally>, entry: DayTally)
    ensures
        requests_sum(days.push(entry)) == requests_sum(days) + entry.requests,
{
    assert(days.push(entry).drop_last() =~= days);
}

/// An entry put behind the others adds its class counter to the class sum.
pub proof fn lemma_class_sum_push(days: Seq<DayTally>, class: StatusClass, entry: DayTally)
    ensures
        class_sum(days.push(entry), class) == class_sum(days, class) + entry.class_count(class),
{
    assert(days.push(entry).drop_last() =~= days);
}

/// Replacing an entry changes the sum of requests by the difference of the two.
pub proof fn lemma_requests_sum_update(days: Seq<DayTally>, i: int, entry: DayTally)
    requires
        0 <= i < days.len(),
    ensures
        requests_sum(days.update(i, entry)) == requests_sum(days) - days[i].requests
            + entry.requests,
    decreases days.len(),
{
    let after = days.update(i, entry);
    if i == days.len() - 1 {
        assert(after.drop_last() =~= days.drop_last());
    } else {
        lemma_requests_sum_update(days.drop_last(), i, entry);
        assert(after.drop_last() =~= days.drop_last().update(i, entry));
    }
}

/// Replacing an entry changes a class sum by the difference of the two counters.
pub proof fn lemma_class_sum_update(
    days: Seq<DayTally>,
    class: StatusClass,
    i: int,
    entry: DayTally,
)
    requires
        0 <= i < days.len(),
    ensures
        class_sum(days.update(i, entry), class) == class_sum(days, class) - days[i].class_count(
            class,
        ) + entry.class_count(class),
    decreases days.len(),
{
    let after = days.update(i, entry);
    if i == days.len() - 1 {
        assert(after.drop_last() =~= days.drop_last());
    } else {
        lemma_class_sum_update(days.drop_last(), class, i, entry);
        assert(after.drop_last() =~= days.drop_last().update(i, entry));
    }
}

/// No day has more requests than all days together.
pub proof fn lemma_day_within_sum(days: Seq<DayTally>, i: int)
    requires
        0 <= i < days.len(),
    ensures
        days[i].requests <= requests_sum(days),
    decreases days.len(),
{
    if i < days.len() - 1 {
        lemma_day_within_sum(days.drop_last(), i);
    }
}

/// One record adds one request to the sum over all days.
pub proof fn lemma_record_requests_sum(days: Seq<DayTally>, hit: Hit)
    ensures
        requests_sum(record(days, hit)) == requests_sum(days) + 1,
{
    if has_day(days, hit.day) {
        lemma_day_index(days, hit.day);
        let i = day_index(days, hit.day);
        lemma_requests_sum_update(days, i, days[i].bump(hit.class));
    } else {
        lemma_requests_sum_push(days, DayTally::fresh(hit.day).bump(hit.class));
    }
}

/// One record adds one to the sum of its own class, if it has one, and
/// nothing to the sums of the other classes.
pub proof fn lemma_record_class_sum(days: Seq<DayTally>, hit: Hit, class: StatusClass)
    ensures
        class_sum(record(days, hit), class) == class_sum(days, class) + if hit.class == class
            && class != StatusClass::Unclassified {
            1nat
        } else {
            0nat
        },
{
    if has_day(days, hit.day) {
        lemma_day_index(days, hit.day);
        let i = day_index(days, hit.day);
        lemma_class_sum_update(days, class, i, days[i].bump(hit.class));
    } else {
        lemma_class_sum_push(days, class, DayTally::fresh(hit.day).bump(hit.class));
    }
}

/// One record keeps the days distinct and in their order: the entries that
/// were there keep their places and dates, and a new one comes last.
pub proof fn lemma_record_days(days: Seq<DayTally>, hit: Hit)
    requires
        distinct_days(days),
    ensures
        distinct_days(record(days, hit)),
        has_day(record(days, hit), hit.day),
        days.len() <= record(days, hit).len() <= days.len() + 1,
        forall|i: int| 0 <= i < days.len() ==> (#[trigger] record(days, hit)[i]).date == days[i].date,
        has_day(days, hit.day) <==> record(days, hit).len() == days.len(),
        !has_day(days, hit.day) ==> record(days, hit).last().date == hit.day,
{
    let after = record(days, hit);
    if has_day(days, hit.day) {
        lemma_day_index(days, hit.day);
        let i = day_index(days, hit.day);
        assert(after[i].date == hit.day);
        assert forall|a: int, b: int| 0 <= a < b < after.len() implies (#[trigger] after[a]).date
            != (#[trigger] after[b]).date by {
            assert(after[a].date == days[a].date);
            assert(after[b].date == days[b].date);
        }
    } else {
        assert(after[days.len() as int].date == hit.day);
        assert forall|a: int, b: int| 0 <= a < b < after.len() implies (#[trigger] after[a]).date
            != (#[trigger] after[b]).date by {
            assert(after[a].date == days[a].date);
            if b < days.len() {
                assert(after[b].date == days[b].date);
            }
        }
    }
}

/// The requests of the first `n` days do not exceed those of all days.
pub proof fn lemma_requests_sum_prefix(days: Seq<DayTally>, n: int)
    requires
        0 <= n <= days.len(),
    ensures
        requests_sum(days.take(n)) <= requests_sum(days),
    decreases days.len(),
{
    if n == days.len() {
        assert(days.take(n) =~= days);
    } else {
        lemma_requests_sum_prefix(days.drop_last(), n);
        assert(days.drop_last().take(n) =~= days.take(n));
    }
}

/// The requests of one class on the first `n` days do not exceed those on all days.
pub proof fn lemma_class_sum_prefix(days: Seq<DayTally>, class: StatusClass, n: int)
    requires
        0 <= n <= days.len(),
    ensures
        class_sum(days.take(n), class) <= class_sum(days, class),
    decreases days.len(),
{
    if n == days.len() {
        assert(days.take(n) =~= days);
    } else {
        lemma_class_sum_prefix(days.drop_last(), class, n);
        assert(days.drop_last().take(n) =~= days.take(n));
    }
}

/// Where no day counts more in its classes than it has requests, no class
/// total exceeds the total of requests.
pub proof fn lemma_class_sum_le_requests_sum(days: Seq<DayTally>, class: StatusClass)
    requires
        forall|i: int| 0 <= i < days.len() ==> (#[trigger] days[i]).consistent(),
    ensures
        class_sum(days, class) <= requests_sum(days),
    decreases days.len(),
{
    if days.len() > 0 {
        lemma_class_sum_le_requests_sum(days.drop_last(), class);
        assert(days.last().consistent());
    }
}

/// How many of the records fall on `day`.
pub open spec fn hits_on(hits: Seq<Hit>, day: Seq<char>) -> nat
    decreases hits.len(),
{
    if hits.len() == 0 {
        0
    } else {
        hits_on(hits.drop_last(), day) + if hits.last().day == day {
            1nat
        } else {
            0nat
        }
    }
}

/// How many of the records fall on `day` and in `class`.
pub open spec fn hits_on_in(hits: Seq<Hit>, day: Seq<char>, class: StatusClass) -> nat
    decreases hits.len(),
{
    if hits.len() == 0 {
        0
    } else {
        hits_on_in(hits.drop_last(), day, class) + if hits.last().day == day && hits.last().class
            == class {
            1nat
        } else {
            0nat
        }
    }
}

/// How many of the records fall in `class`.
pub open spec fn hits_in(hits: Seq<Hit>, class: StatusClass) -> nat
    decreases hits.len(),
{
    if hits.len() == 0 {
        0
    } else {
        hits_in(hits.drop_last(), class) + if hits.last().class == class {
            1nat
        } else {
            0nat
        }
    }
}

/// Whether some record falls on `day`.
pub open spec fn seen(hits: Seq<Hit>, day: Seq<char>) -> bool {
    exists|a: int| 0 <= a < hits.len() && (#[trigger] hits[a]).day == day
}

/// Grouping, one entry per day: the entries of a tally are for distinct days,
/// and a day has an entry exactly if some record falls on it.
pub proof fn lemma_tally_days(hits: Seq<Hit>)
    ensures
        distinct_days(tally(hits)),
        forall|day: Seq<char>| has_day(tally(hits), day) <==> seen(hits, day),
    decreases hits.len(),
{
    if hits.len() > 0 {
        let earlier = hits.drop_last();
        let last = hits.last();
        let before = tally(earlier);
        let after = tally(hits);
        lemma_tally_days(earlier);
        lemma_record_days(before, last);
        assert(after == record(before, last));
        assert forall|day: Seq<char>| has_day(after, day) <==> seen(hits, day) by {
            if has_day(after, day) {
                let i = choose|i: int| 0 <= i < after.len() && (#[trigger] after[i]).date == day;
                if i < before.len() {
                    assert(before[i].date == day);
                    assert(has_day(before, day));
                    assert(seen(earlier, day));
                    let a = choose|a: int| 0 <= a < earlier.len() && (#[trigger] earlier[a]).day == day;
                    assert(hits[a].day == day);
                } else {
                    assert(hits[hits.len() - 1].day == day);
                }
            }
            if seen(hits, day) {
                let a = choose|a: int| 0 <= a < hits.len() && (#[trigger] hits[a]).day == day;
                if a < earlier.len() {
                    assert(earlier[a].day == day);
                    assert(seen(earlier, day));
                    assert(has_day(before, day));
                    let i = choose|i: int| 0 <= i < before.len() && (#[trigger] before[i]).date == day;
                    assert(after[i].date == day);
                }
            }
        }
    }
}

/// Grouping, no merging: the entry of a day counts exactly the records that
/// fall on that day, in all and class by class; at least one does.
pub proof fn lemma_tally_counts(hits: Seq<Hit>, i: int)
    requires
        0 <= i < tally(hits).len(),
    ensures
        tally(hits)[i].requests == hits_on(hits, tally(hits)[i].date),
        tally(hits)[i].requests >= 1,
        tally(hits)[i].count_2xx == hits_on_in(hits, tally(hits)[i].date, StatusClass::Success),
        tally(hits)[i].count_3xx == hits_on_in(hits, tally(hits)[i].date, StatusClass::Redirection),
        tally(hits)[i].count_4xx == hits_on_in(hits, tally(hits)[i].date, StatusClass::ClientError),
        tally(hits)[i].count_5xx == hits_on_in(hits, tally(hits)[i].date, StatusClass::ServerError),
        tally(hits)[i].unclassified() == hits_on_in(
            hits,
            tally(hits)[i].date,
            StatusClass::Unclassified,
        ),
    decreases hits.len(),
{
    let earlier = hits.drop_last();
    let last = hits.last();
    let before = tally(earlier);
    let after = tally(hits);
    let day = after[i].date;
    lemma_tally_days(earlier);
    lemma_record_days(before, last);
    assert(after == record(before, last));
    if has_day(before, last.day) {
        lemma_day_index(before, last.day);
        let k = day_index(before, last.day);
        lemma_tally_counts(earlier, i);
        if i == k {
            assert(after[i] == before[i].bump(last.class));
        } else {
            assert(after[i] == before[i]);
            assert(before[i].date != before[k].date);
        }
    } else if i < before.len() {
        lemma_tally_counts(earlier, i);
        assert(after[i] == before[i]);
        assert(before[i].date != last.day);
    } else {
        assert(after[i] == DayTally::fresh(last.day).bump(last.class));
        assert(!seen(earlier, day));
        lemma_unseen_day_counts(earlier, day);
        assert(hits_on_in(earlier, day, StatusClass::Success) == 0);
        assert(hits_on_in(earlier, day, StatusClass::Redirection) == 0);
        assert(hits_on_in(earlier, day, StatusClass::ClientError) == 0);
        assert(hits_on_in(earlier, day, StatusClass::ServerError) == 0);
        assert(hits_on_in(earlier, day, StatusClass::Unclassified) == 0);
    }
}

/// A day on which no record falls has all its counts at zero.
pub proof fn lemma_unseen_day_counts(hits: Seq<Hit>, day: Seq<char>)
    requires
        !seen(hits, day),
    ensures
        hits_on(hits, day) == 0,
        forall|class: StatusClass| hits_on_in(hits, day, class) == 0,
    decreases hits.len(),
{
    if hits.len() > 0 {
        let earlier = hits.drop_last();
        assert(hits[hits.len() - 1].day != day);
        assert forall|a: int| 0 <= a < earlier.len() implies (#[trigger] earlier[a]).day != day by {
            assert(hits[a].day == earlier[a].day);
        }
        lemma_unseen_day_counts(earlier, day);
        assert forall|class: StatusClass| hits_on_in(hits, day, class) == 0 by {
            assert(hits_on_in(earlier, day, class) == 0);
        }
    }
}

/// Grouping, first-seen order: of two entries, the earlier one is for a day
/// on which a record falls before every record of the later one's day.
pub proof fn lemma_tally_order(hits: Seq<Hit>, i: int, j: int)
    requires
        0 <= i < j < tally(hits).len(),
    ensures
        exists|a: int|
            0 <= a < hits.len() && (#[trigger] hits[a]).day == tally(hits)[i].date && forall|b: int|
                0 <= b < hits.len() && (#[trigger] hits[b]).day == tally(hits)[j].date ==> a < b,
    decreases hits.len(),
{
    let earlier = hits.drop_last();
    let last = hits.last();
    let before = tally(earlier);
    let after = tally(hits);
    let first_day = after[i].date;
    let second_day = after[j].date;
    lemma_tally_days(earlier);
    lemma_record_days(before, last);
    if j < before.len() {
        lemma_tally_order(earlier, i, j);
        let a = choose|a: int|
            0 <= a < earlier.len() && (#[trigger] earlier[a]).day == before[i].date && forall|b: int|
                0 <= b < earlier.len() && (#[trigger] earlier[b]).day == before[j].date ==> a < b;
        assert(hits[a].day == first_day);
        assert forall|b: int| 0 <= b < hits.len() && (#[trigger] hits[b]).day == second_day implies a
            < b by {
            if b < earlier.len() {
                assert(earlier[b].day == second_day);
            }
        }
    } else {
        assert(before[i].date == first_day);
        assert(has_day(before, first_day));
        assert(seen(earlier, first_day));
        let a = choose|a: int| 0 <= a < earlier.len() && (#[trigger] earlier[a]).day == first_day;
        assert(hits[a].day == first_day);
        assert(!seen(earlier, second_day));
        assert forall|b: int| 0 <= b < hits.len() && (#[trigger] hits[b]).day == second_day implies a
            < b by {
            if b < earlier.len() {
                assert(earlier[b].day == second_day);
            }
        }
    }
}

/// Conservation: the days of a tally hold as many requests as there are
/// records, and in each class as many as there are records of that class.
pub proof fn lemma_tally_totals(hits: Seq<Hit>)
    ensures
        requests_sum(tally(hits)) == hits.len(),
        class_sum(tally(hits), StatusClass::Success) == hits_in(hits, StatusClass::Success),
        class_sum(tally(hits), StatusClass::Redirection) == hits_in(hits, StatusClass::Redirection),
        class_sum(tally(hits), StatusClass::ClientError) == hits_in(hits, StatusClass::ClientError),
        class_sum(tally(hits), StatusClass::ServerError) == hits_in(hits, StatusClass::ServerError),
    decreases hits.len(),
{
    if hits.len() > 0 {
        let before = tally(hits.drop_last());
        lemma_tally_totals(hits.drop_last());
        lemma_record_requests_sum(before, hits.last());
        lemma_record_class_sum(before, hits.last(), StatusClass::Success);
        lemma_record_class_sum(before, hits.last(), StatusClass::Redirection);
        lemma_record_class_sum(before, hits.last(), StatusClass::ClientError);
        lemma_record_class_sum(before, hits.last(), StatusClass::ServerError);
    }
}

} // verus!
