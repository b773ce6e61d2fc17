use crate::entities::daily_analyzer_result::DailyAnalyzerResult;
use crate::entities::error_rate::ErrorRate;
use crate::entities::status_class::{status_class, StatusClass};
use crate::entities::tally::{
    class_sum, day_index, distinct_days, has_day, lemma_class_sum_prefix, lemma_day_index,
    lemma_day_within_sum, lemma_record_days, lemma_record_requests_sum,
    lemma_requests_sum_prefix, record, requests_sum, DayTally, Hit,
};
use crate::utils::helpers::{day_part, extract_day_part, lemma_day_part_stable};
use vstd::prelude::*;

verus! {

/// The per-day counters of a pass over a log, in the order in which the days
/// were first seen, and the totals over all days.
#[derive(Debug)]
pub struct AnalyzerResult {
    pub daily_results: Vec<DailyAnalyzerResult>,
    pub total_requests_number: u32,
    pub total_2xx_requests_number: u32,
    pub total_3xx_requests_number: u32,
    pub total_4xx_requests_number: u32,
    pub total_5xx_requests_number: u32,
    pub total_error_rate: ErrorRate,
}

impl View for AnalyzerResult {
    type V = Seq<DayTally>;

    open spec fn view(&self) -> Seq<DayTally> {
        self.daily_results@.map_values(|d: DailyAnalyzerResult| d@)
    }
}

impl AnalyzerResult {
    /// Every day's entry is well formed, no two entries are for the same day,
    /// and the requests of all days together fit the total's counter.
    pub open spec fn wf(&self) -> bool {
        &&& forall|i: int| 0 <= i < self.daily_results@.len() ==> (#[trigger] self.daily_results@[i]).wf()
        &&& distinct_days(self@)
        &&& requests_sum(self@) <= u32::MAX
    }

    /// The rate that the totals give: requests answered 4xx or 5xx among all.
    pub open spec fn rate_of_totals(&self) -> ErrorRate {
        ErrorRate::ratio(
            (self.total_4xx_requests_number + self.total_5xx_requests_number) as u64,
            self.total_requests_number as u64,
        )
    }

    /// The totals are the sums over the days, and the total error rate is the
    /// one that they give.
    pub open spec fn sealed(&self) -> bool {
        &&& self.total_requests_number == requests_sum(self@)
        &&& self.total_2xx_requests_number == class_sum(self@, StatusClass::Success)
        &&& self.total_3xx_requests_number == class_sum(self@, StatusClass::Redirection)
        &&& self.total_4xx_requests_number == class_sum(self@, StatusClass::ClientError)
        &&& self.total_5xx_requests_number == class_sum(self@, StatusClass::ServerError)
        &&& self.total_error_rate == self.rate_of_totals()
    }

    /// A result with no day and all totals at zero.
    pub fn new() -> (result: Self)
        ensures
            result@ == Seq::<DayTally>::empty(),
            result.wf(),
            result.sealed(),
    {
        let result = Self {
            daily_results: Vec::new(),
            total_requests_number: 0,
            total_2xx_requests_number: 0,
            total_3xx_requests_number: 0,
            total_4xx_requests_number: 0,
            total_5xx_requests_number: 0,
            total_error_rate: ErrorRate::zero(),
        };
        assert(result@ =~= Seq::<DayTally>::empty());
        result
    }

    /// Puts a day's entry behind all others.
    pub fn add_daily_result(&mut self, daily_result: DailyAnalyzerResult)
        ensures
            *final(self) == (AnalyzerResult {
                daily_results: final(self).daily_results,
                ..*old(self)
            }),
            final(self).daily_results@ == old(self).daily_results@.push(daily_result),
            final(self)@ == old(self)@.push(daily_result@),
    {
        self.daily_results.push(daily_result);
        assert(self@ =~= old(self)@.push(daily_result@));
    }

    /// The requests of all days together.
    fn sum_requests(&self) -> (total: u32)
        requires
            requests_sum(self@) <= u32::MAX,
        ensures
            total == requests_sum(self@),
    {
        let mut total: u32 = 0;
        let mut i: usize = 0;
        while i < self.daily_results.len()
            invariant
                0 <= i <= self.daily_results.len(),
                total == requests_sum(self@.take(i as int)),
                requests_sum(self@) <= u32::MAX,
            decreases self.daily_results.len() - i,
        {
            proof {
                lemma_requests_sum_prefix(self@, i as int + 1);
                assert(self@.take(i as int + 1).drop_last() =~= self@.take(i as int));
            }
            total = total + self.daily_results[i].daily_requests_number;
            i = i + 1;
        }
        assert(self@.take(i as int) =~= self@);
        total
    }

    /// The requests of one class of all days together.
    fn sum_class(&self, class: StatusClass) -> (total: u32)
        requires
            class_sum(self@, class) <= u32::MAX,
        ensures
            total == class_sum(self@, class),
    {
        let mut total: u32 = 0;
        let mut i: usize = 0;
        while i < self.daily_results.len()
            invariant
                0 <= i <= self.daily_results.len(),
                total == class_sum(self@.take(i as int), class),
                class_sum(self@, class) <= u32::MAX,
            decreases self.daily_results.len() - i,
        {
            proof {
                lemma_class_sum_prefix(self@, class, i as int + 1);
                assert(self@.take(i as int + 1).drop_last() =~= self@.take(i as int));
            }
            total = total + self.daily_results[i].class_count(class);
            i = i + 1;
        }
        assert(self@.take(i as int) =~= self@);
        total
    }

    /// Sets the total of requests to the sum over the days.
    pub fn calculate_total_requests_number(&mut self)
        requires
            requests_sum(old(self)@) <= u32::MAX,
        ensures
            *final(self) == (AnalyzerResult {
                total_requests_number: requests_sum(old(self)@) as u32,
                ..*old(self)
            }),
    {
        self.total_requests_number = self.sum_requests();
    }

    /// Sets the total of 2xx answers to the sum over the days.
    pub fn calculate_total_2xx_requests_number(&mut self)
        requires
            class_sum(old(self)@, StatusClass::Success) <= u32::MAX,
        ensures
            *final(self) == (AnalyzerResult {
                total_2xx_requests_number: class_sum(old(self)@, StatusClass::Success) as u32,
                ..*old(self)
            }),
    {
        self.total_2xx_requests_number = self.sum_class(StatusClass::Success);
    }

    /// Sets the total of 3xx answers to the sum over the days.
    pub fn calculate_total_3xx_requests_number(&mut self)
        requires
            class_sum(old(self)@, StatusClass::Redirection) <= u32::MAX,
        ensures
            *final(self) == (AnalyzerResult {
                total_3xx_requests_number: class_sum(old(self)@, StatusClass::Redirection) as u32,
                ..*old(self)
            }),
    {
        self.total_3xx_requests_number = self.sum_class(StatusClass::Redirection);
    }

    /// Sets the total of 4xx answers to the sum over the days.
    pub fn calculate_total_4xx_requests_number(&mut self)
        requires
            class_sum(old(self)@, StatusClass::ClientError) <= u32::MAX,
        ensures
            *final(self) == (AnalyzerResult {
                total_4xx_requests_number: class_sum(old(self)@, StatusClass::ClientError) as u32,
                ..*old(self)
            }),
    {
        self.total_4xx_requests_number = self.sum_class(StatusClass::ClientError);
    }

    /// Sets the total of 5xx answers to the sum over the days.
    pub fn calculate_total_5xx_requests_number(&mut self)
        requires
            class_sum(old(self)@, StatusClass::ServerError) <= u32::MAX,
        ensures
            *final(self) == (AnalyzerResult {
                total_5xx_requests_number: class_sum(old(self)@, StatusClass::ServerError) as u32,
                ..*old(self)
            }),
    {
        self.total_5xx_requests_number = self.sum_class(StatusClass::ServerError);
    }

    /// Sets the total error rate to the share of 4xx and 5xx answers among all
    /// requests, as the totals stand; to zero where the total of requests is zero.
    pub fn calculate_total_error_rate(&mut self)
        ensures
            *final(self) == (AnalyzerResult {
                total_error_rate: old(self).rate_of_totals(),
                ..*old(self)
            }),
            final(self).total_error_rate.denominator > 0,
            old(self).total_requests_number == 0 ==> final(self).total_error_rate
                == ErrorRate::ratio(0, 0),
    {
        let errors = self.total_4xx_requests_number as u64 + self.total_5xx_requests_number as u64;
        self.total_error_rate = ErrorRate::new(errors, self.total_requests_number as u64);
    }

    /// Looks up the entry of the day that `date` falls on, a day key or a whole
    /// timestamp: the first entry whose date is that day key, handed out for
    /// change, or `None` where no entry is for that day.
    pub fn get_daily_result_if_day_exists(&mut self, date: &str) -> (found: Option<
        &mut DailyAnalyzerResult,
    >)
        ensures
            match found {
                Some(entry) => {
                    let i = day_index(old(self)@, day_part(date@));
                    &&& has_day(old(self)@, day_part(date@))
                    &&& *entry == old(self).daily_results@[i]
                    &&& final(self).daily_results@ == old(self).daily_results@.update(
                        i,
                        *final(entry),
                    )
                    &&& *final(self) == (AnalyzerResult {
                        daily_results: final(self).daily_results,
                        ..*old(self)
                    })
                },
                None => !has_day(old(self)@, day_part(date@)) && *final(self) == *old(self),
            },
    {
        let day = extract_day_part(date);
        let mut i: usize = 0;
        while i < self.daily_results.len()
            invariant
                0 <= i <= self.daily_results.len(),
                *self == *old(self),
                day@ == day_part(date@),
                forall|j: int| 0 <= j < i ==> (#[trigger] self@[j]).date != day@,
            ensures
                0 <= i <= self.daily_results.len(),
                *self == *old(self),
                day@ == day_part(date@),
                forall|j: int| 0 <= j < i ==> (#[trigger] self@[j]).date != day@,
                i < self.daily_results.len() ==> self@[i as int].date == day@,
            decreases self.daily_results.len() - i,
        {
            if self.daily_results[i].date == day {
                break;
            }
            i = i + 1;
        }
        if i < self.daily_results.len() {
            Some(&mut self.daily_results[i])
        } else {
            None
        }
    }

    /// Counts one request: `date` is its timestamp or day, `status_code` its
    /// status. The entry of its day takes it; on the first request of a day a
    /// new entry is put behind all others. The totals are left as they were.
    pub fn record(&mut self, date: &str, status_code: &str)
        requires
            old(self).wf(),
            requests_sum(old(self)@) < u32::MAX,
        ensures
            final(self)@ == record(
                old(self)@,
                Hit { day: day_part(date@), class: status_class(status_code@) },
            ),
            final(self).wf(),
            *final(self) == (AnalyzerResult {
                daily_results: final(self).daily_results,
                ..*old(self)
            }),
    {
        let ghost hit = Hit { day: day_part(date@), class: status_class(status_code@) };
        let ghost before = self@;
        proof {
            lemma_day_part_stable(date@);
            lemma_record_days(before, hit);
            lemma_record_requests_sum(before, hit);
            if has_day(before, hit.day) {
                lemma_day_index(before, hit.day);
                lemma_day_within_sum(before, day_index(before, hit.day));
            }
        }
        let day = extract_day_part(date);
        if let Some(daily_result) = self.get_daily_result_if_day_exists(day.as_str()) {
            daily_result.update_self(status_code);
        } else {
            let mut new_daily_result = DailyAnalyzerResult::new(day);
            new_daily_result.update_self(status_code);
            self.add_daily_result(new_daily_result);
        }
        assert(self@ =~= record(before, hit));
    }

    /// Computes every total from the days, then the total error rate: the
    /// result is sealed, and the days are left as they were.
    pub fn calculate_everything(&mut self)
        requires
            requests_sum(old(self)@) <= u32::MAX,
            class_sum(old(self)@, StatusClass::Success) <= u32::MAX,
            class_sum(old(self)@, StatusClass::Redirection) <= u32::MAX,
            class_sum(old(self)@, StatusClass::ClientError) <= u32::MAX,
            class_sum(old(self)@, StatusClass::ServerError) <= u32::MAX,
        ensures
            final(self).daily_results == old(self).daily_results,
            final(self).sealed(),
    {
        self.calculate_total_requests_number();
        self.calculate_total_2xx_requests_number();
        self.calculate_total_3xx_requests_number();
        self.calculate_total_4xx_requests_number();
        self.calculate_total_5xx_requests_number();
        self.calculate_total_error_rate();
    }
}

} // verus!
