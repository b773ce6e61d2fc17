use crate::entities::error_rate::ErrorRate;
use crate::entities::status_class::{classify, status_class, StatusClass};
use crate::entities::tally::DayTally;
use vstd::prelude::*;

verus! {

/// The counters of one calendar day.
#[derive(Debug)]
pub struct DailyAnalyzerResult {
    pub date: String,
    pub daily_requests_number: u32,
    pub daily_2xx_requests_number: u32,
    pub daily_3xx_requests_number: u32,
    pub daily_4xx_requests_number: u32,
    pub daily_5xx_requests_number: u32,
    pub daily_error_rate: ErrorRate,
}

impl View for DailyAnalyzerResult {
    type V = DayTally;

    open spec fn view(&self) -> DayTally {
        DayTally {
            date: self.date@,
            requests: self.daily_requests_number as nat,
            count_2xx: self.daily_2xx_requests_number as nat,
            count_3xx: self.daily_3xx_requests_number as nat,
            count_4xx: self.daily_4xx_requests_number as nat,
            count_5xx: self.daily_5xx_requests_number as nat,
        }
    }
}

impl DailyAnalyzerResult {
    /// The rate that the counters give: requests answered 4xx or 5xx among all.
    pub open spec fn rate_of_counters(&self) -> ErrorRate {
        ErrorRate::ratio(
            (self.daily_4xx_requests_number + self.daily_5xx_requests_number) as u64,
            self.daily_requests_number as u64,
        )
    }

    /// The stored error rate is the one that the counters give.
    pub open spec fn rate_current(&self) -> bool {
        self.daily_error_rate == self.rate_of_counters()
    }

    /// The class counters do not exceed the request count, and the error rate
    /// is current.
    pub open spec fn wf(&self) -> bool {
        self@.consistent() && self.rate_current()
    }

    /// The counter of one class; zero for requests of no class, which have no
    /// counter of their own.
    pub fn class_count(&self, class: StatusClass) -> (count: u32)
        ensures
            count == self@.class_count(class),
    {
        match class {
            StatusClass::Success => self.daily_2xx_requests_number,
            StatusClass::Redirection => self.daily_3xx_requests_number,
            StatusClass::ClientError => self.daily_4xx_requests_number,
            StatusClass::ServerError => self.daily_5xx_requests_number,
            StatusClass::Unclassified => 0,
        }
    }

    /// A day with all counters at zero.
    pub fn new(date: String) -> (day: Self)
        ensures
            day@ == DayTally::fresh(date@),
            day.date == date,
            day.wf(),
    {
        Self {
            date,
            daily_requests_number: 0,
            daily_2xx_requests_number: 0,
            daily_3xx_requests_number: 0,
            daily_4xx_requests_number: 0,
            daily_5xx_requests_number: 0,
            daily_error_rate: ErrorRate::zero(),
        }
    }

    /// Adds `requests_number` to the request count; nothing else changes.
    pub fn add_daily_requests_number(&mut self, requests_number: u32)
        requires
            old(self).daily_requests_number + requests_number <= u32::MAX,
        ensures
            *final(self) == (Self {
                daily_requests_number: (old(self).daily_requests_number + requests_number) as u32,
                ..*old(self)
            }),
    {
        self.daily_requests_number += requests_number;
    }

    /// Adds `requests_number` to the counter of 2xx answers; nothing else changes.
    pub fn add_daily_2xx_requests_number(&mut self, requests_number: u32)
        requires
            old(self).daily_2xx_requests_number + requests_number <= u32::MAX,
        ensures
            *final(self) == (Self {
                daily_2xx_requests_number: (old(self).daily_2xx_requests_number
                    + requests_number) as u32,
                ..*old(self)
            }),
    {
        self.daily_2xx_requests_number += requests_number;
    }

    /// Adds `requests_number` to the counter of 3xx answers; nothing else changes.
    pub fn add_daily_3xx_requests_number(&mut self, requests_number: u32)
        requires
            old(self).daily_3xx_requests_number + requests_number <= u32::MAX,
        ensures
            *final(self) == (Self {
                daily_3xx_requests_number: (old(self).daily_3xx_requests_number
                    + requests_number) as u32,
                ..*old(self)
            }),
    {
        self.daily_3xx_requests_number += requests_number;
    }

    /// Adds `requests_number` to the counter of 4xx answers; nothing else changes.
    pub fn add_daily_4xx_requests_number(&mut self, requests_number: u32)
        requires
            old(self).daily_4xx_requests_number + requests_number <= u32::MAX,
        ensures
            *final(self) == (Self {
                daily_4xx_requests_number: (old(self).daily_4xx_requests_number
                    + requests_number) as u32,
                ..*old(self)
            }),
    {
        self.daily_4xx_requests_number += requests_number;
    }

    /// Adds `requests_number` to the counter of 5xx answers; nothing else changes.
    pub fn add_daily_5xx_requests_number(&mut self, requests_number: u32)
        requires
            old(self).daily_5xx_requests_number + requests_number <= u32::MAX,
        ensures
            *final(self) == (Self {
                daily_5xx_requests_number: (old(self).daily_5xx_requests_number
                    + requests_number) as u32,
                ..*old(self)
            }),
    {
        self.daily_5xx_requests_number += requests_number;
    }

    /// Sets the error rate to the share of 4xx and 5xx answers among all
    /// requests; to zero on a day without requests.
    pub fn calculate_daily_error_rate(&mut self)
        ensures
            *final(self) == (Self { daily_error_rate: old(self).rate_of_counters(), ..*old(self) }),
            final(self).rate_current(),
            final(self).daily_error_rate.denominator > 0,
            old(self).daily_requests_number == 0 ==> final(self).daily_error_rate
                == ErrorRate::ratio(0, 0),
    {
        let errors = self.daily_4xx_requests_number as u64 + self.daily_5xx_requests_number as u64;
        self.daily_error_rate = ErrorRate::new(errors, self.daily_requests_number as u64);
    }

    /// Counts one request with the given status code: the request count grows
    /// by one, and so does the counter of the class that the code's first
    /// character names, if it names one; then the error rate is brought up to
    /// date.
    pub fn update_self(&mut self, status_code: &str)
        requires
            old(self).daily_requests_number < u32::MAX,
            old(self)@.class_count(status_class(status_code@)) < u32::MAX,
        ensures
            final(self)@ == old(self)@.bump(status_class(status_code@)),
            final(self).date == old(self).date,
            final(self).rate_current(),
            old(self)@.consistent() ==> final(self).wf(),
    {
        self.add_daily_requests_number(1);
        match classify(status_code) {
            StatusClass::Success => self.add_daily_2xx_requests_number(1),
            StatusClass::Redirection => self.add_daily_3xx_requests_number(1),
            StatusClass::ClientError => self.add_daily_4xx_requests_number(1),
            StatusClass::ServerError => self.add_daily_5xx_requests_number(1),
            StatusClass::Unclassified => {},
        }
        self.calculate_daily_error_rate();
    }
}

} // verus!
