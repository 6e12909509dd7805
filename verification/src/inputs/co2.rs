//! The CO2 sensors and the ventilation status their readings ask for.
use crate::co2::{
    bucketed_mean, estimate, sample_count, spec_bucket_to_co2, spec_co2_to_bucket, weighted_sum, Co2,
    BUCKETS,
};
use crate::status::{status_at_least, status_rank, Status};
use vstd::prelude::*;

verus! {

/// The interval (in seconds) at which to sample the CO2 sensors.
pub const SAMPLE_INTERVAL: u64 = 30;

/// The time (in seconds) to wait before reducing the ventilation speed in
/// response to a reduction in CO2 levels.
pub const REDUCE_WAIT_TIME: u64 = 1800;

/// The interval (in seconds) at which to calculate a new CO2 value based on the
/// gathered samples.
pub const UPDATE_INTERVAL: u64 = 900;

/// How many samples we should gather before updating the CO2 levels.
pub const SAMPLES: u64 = UPDATE_INTERVAL / SAMPLE_INTERVAL;

/// The status a CO2 level asks for: from 1000 ppm on `Maximum`, from 900
/// `High`, from 800 `MediumHigh`, from 750 `Medium`; `Low` from the minimum
/// on, or from 50 ppm below it when the level at the last status change was
/// at least the minimum; `Default` below.
pub open spec fn co2_status(new: u64, minimum: u64, last_change: u64) -> Status {
    if new >= 1000 {
        Status::Maximum
    } else if new >= 900 {
        Status::High
    } else if new >= 800 {
        Status::MediumHigh
    } else if new >= 750 {
        Status::Medium
    } else if new >= minimum || (new >= minimum - 50 && last_change >= minimum) {
        Status::Low
    } else {
        Status::Default
    }
}

/// Whether the ventilation of a room may be reduced: right away when the
/// level fell by 200 ppm or more since the last status change, or is at
/// most 600 ppm; once the waiting time has passed, when it fell by 100 ppm
/// or more, or is below 700 ppm whatever the level was before. A level
/// that rose never counts as a fall.
pub open spec fn reduce_allowed(value: u64, last_change: u64, waited: bool) -> bool {
    (last_change - value >= 200 || value <= 600) || (waited && (last_change - value >= 100 || value
        < 700))
}

/// What updating a sensor decides for its room.
pub enum Co2Decision {
    /// The room keeps its status.
    Keep,
    /// The room gets this status.
    Change(Status),
    /// Updating the estimate overflowed (see `Co2::update`).
    Overflow,
}

/// The state of a single CO2 sensor.
pub struct Sensor {
    /// The name of the room the sensor is in.
    pub name: String,
    /// The address of the sensor.
    pub host: String,
    /// The CO2 estimate of the room.
    pub co2: Co2,
    /// The ventilation status of the room this sensor belongs to.
    pub status: Status,
    /// The CO2 at the time of the last status change.
    pub last_change_co2: u64,
    /// The lowest CO2 value at which to start active ventilation.
    pub co2_minimum: u64,
}

impl Sensor {
    pub open spec fn wf(&self) -> bool {
        self.co2.wf()
    }

    pub fn new(name: String, host: String) -> (sensor: Self)
        ensures
            sensor.wf(),
            sensor.name == name,
            sensor.host == host,
            sensor.co2.level() == 0,
            sensor.co2.samples() == Seq::new(BUCKETS as nat, |i: int| 0u64),
            sensor.status == Status::Default,
            sensor.last_change_co2 == 0,
            sensor.co2_minimum == 700,
    {
        Self {
            name: name,
            host: host,
            co2: Co2::new(),
            status: Status::Default,
            last_change_co2: 0,
            co2_minimum: 700,
        }
    }

    /// Records a reading of the sensor; false (recording nothing) where the
    /// count of its bucket is at `u64::MAX`.
    pub fn sample(&mut self, value: u64) -> (added: bool)
        requires
            old(self).wf(),
        ensures
            final(self).wf(),
            added == (old(self).co2.samples()[spec_co2_to_bucket(value) as int] < u64::MAX),
            added ==> final(self).co2.samples() == old(self).co2.samples().update(
                spec_co2_to_bucket(value) as int,
                (old(self).co2.samples()[spec_co2_to_bucket(value) as int] + 1) as u64,
            ),
            !added ==> final(self).co2.samples() == old(self).co2.samples(),
            added ==> final(self).co2.recorded() == old(self).co2.recorded().push(value),
            !added ==> final(self).co2.recorded() == old(self).co2.recorded(),
            final(self).co2.level() == old(self).co2.level(),
            final(self).name == old(self).name,
            final(self).host == old(self).host,
            final(self).status == old(self).status,
            final(self).last_change_co2 == old(self).last_change_co2,
            final(self).co2_minimum == old(self).co2_minimum,
    {
        if !self.co2.can_add(value) {
            return false;
        }
        self.co2.add(value);
        true
    }

    pub fn value(&self) -> (value: u64)
        ensures
            value == self.co2.level(),
    {
        self.co2.value
    }

    pub fn update_co2(&mut self) -> (value: u64)
        requires
            old(self).wf(),
            weighted_sum(old(self).co2.samples()) <= u64::MAX,
            sample_count(old(self).co2.samples()) <= u64::MAX,
        ensures
            final(self).wf(),
            value == estimate(old(self).co2.samples()),
            value == spec_bucket_to_co2(
                spec_co2_to_bucket(bucketed_mean(old(self).co2.recorded()) as u64),
            ),
            final(self).co2.level() == value,
            final(self).co2.recorded() == Seq::<u64>::empty(),
            final(self).co2.samples() == Seq::new(BUCKETS as nat, |i: int| 0u64),
            final(self).name == old(self).name,
            final(self).host == old(self).host,
            final(self).status == old(self).status,
            final(self).last_change_co2 == old(self).last_change_co2,
            final(self).co2_minimum == old(self).co2_minimum,
    {
        self.co2.update();
        self.co2.value
    }

    pub fn update_status(&mut self, status: Status)
        ensures
            final(self).status == status,
            final(self).last_change_co2 == old(self).co2.level(),
            final(self).co2 == old(self).co2,
            final(self).name == old(self).name,
            final(self).host == old(self).host,
            final(self).co2_minimum == old(self).co2_minimum,
    {
        self.status = status;
        self.last_change_co2 = self.co2.value;
    }

    /// Whether the ventilation may be reduced (see `reduce_allowed`);
    /// `waited` tells whether the waiting time since the last status change
    /// has passed.
    pub fn should_reduce(&self, waited: bool) -> (reduce: bool)
        ensures
            reduce == reduce_allowed(self.co2.level(), self.last_change_co2, waited),
    {
        // If we reduce levels this much, we can safely reduce ventilation
        // speeds right away. This won't reduce speeds too quickly, as we only
        // periodically reach this point.
        let value = self.co2.value;
        let last = self.last_change_co2;
        if (last > value && last - value >= 200) || value <= 600 {
            return true;
        }
        // After the timeout, if we're below 700 ppm we just reduce anyway,
        // regardless of the previous value. This way if we go from e.g. 750 to
        // 675, we don't keep running at the 750 ppm speed for way too long.
        waited && ((last > value && last - value >= 100) || value < 700)
    }

    /// The status a new CO2 level asks for (see `co2_status`).
    pub fn status_for(&self, new: u64) -> (status: Status)
        ensures
            status == co2_status(new, self.co2_minimum, self.last_change_co2),
    {
        let min = self.co2_minimum;
        if new >= 1000 {
            Status::Maximum
        } else if new >= 900 {
            Status::High
        } else if new >= 800 {
            Status::MediumHigh
        } else if new >= 750 {
            Status::Medium
        } else if new >= min || (new + 50 >= min && self.last_change_co2 >= min) {
            Status::Low
        } else {
            Status::Default
        }
    }

    /// Replaces the CO2 estimate by the samples of the period and decides
    /// the status of the room: the status the new level asks for when it is
    /// not lower than the current one, or when the ventilation may be
    /// reduced (`waited`: see `should_reduce`). Returns the new level too.
    pub fn decide(&mut self, waited: bool) -> (r: (u64, Co2Decision))
        requires
            old(self).wf(),
        ensures
            final(self).wf(),
            final(self).name == old(self).name,
            final(self).host == old(self).host,
            final(self).co2_minimum == old(self).co2_minimum,
            !(weighted_sum(old(self).co2.samples()) <= u64::MAX && sample_count(
                old(self).co2.samples(),
            ) <= u64::MAX) ==> r.1 is Overflow && *final(self) == *old(self),
            weighted_sum(old(self).co2.samples()) <= u64::MAX && sample_count(
                old(self).co2.samples(),
            ) <= u64::MAX ==> {
                let new = estimate(old(self).co2.samples()) as u64;
                let min = old(self).co2_minimum;
                let last = old(self).last_change_co2;
                let status = co2_status(new, min, last);
                &&& r.0 == new
                &&& new == spec_bucket_to_co2(
                    spec_co2_to_bucket(bucketed_mean(old(self).co2.recorded()) as u64),
                )
                &&& final(self).co2.level() == new
                &&& final(self).co2.recorded() == Seq::<u64>::empty()
                &&& final(self).co2.samples() == Seq::new(BUCKETS as nat, |i: int| 0u64)
                &&& if status_at_least(status, old(self).status) {
                    r.1 == Co2Decision::Change(status) && final(self).status == status
                        && final(self).last_change_co2 == new
                } else if reduce_allowed(new, last, waited) {
                    r.1 == Co2Decision::Change(status) && final(self).status == status
                        && final(self).last_change_co2 == new
                } else {
                    r.1 is Keep && final(self).status == old(self).status
                        && final(self).last_change_co2 == last
                }
            },
    {
        if !self.co2.can_update() {
            return (self.co2.value, Co2Decision::Overflow);
        }
        let new = self.update_co2();
        let status = self.status_for(new);
        if status >= self.status {
            self.update_status(status.clone());
            return (new, Co2Decision::Change(status));
        }
        if self.should_reduce(waited) {
            self.update_status(status.clone());
            (new, Co2Decision::Change(status))
        } else {
            (new, Co2Decision::Keep)
        }
    }
}

/// Law: a higher CO2 level never asks for a lower status.
pub proof fn lemma_co2_status_monotone(a: u64, b: u64, minimum: u64, last_change: u64)
    requires
        a <= b,
    ensures
        status_rank(co2_status(a, minimum, last_change)) <= status_rank(
            co2_status(b, minimum, last_change),
        ),
{
}

/// Law: the statuses CO2 levels ask for are never those of a button or of
/// humidity.
pub proof fn lemma_co2_status_kind(new: u64, minimum: u64, last_change: u64)
    ensures
        !(co2_status(new, minimum, last_change) is Button),
        !(co2_status(new, minimum, last_change) is Humid),
{
}


/// Law: a fall of 200 ppm or more since the last status change, or a level
/// of at most 600 ppm, allows reducing the ventilation right away; once the
/// waiting time has passed, so does a fall of 100 ppm or more or a level
/// below 700 ppm; in every other case (a rise in particular) the
/// ventilation is kept.
pub proof fn lemma_reduce_rules(value: u64, last_change: u64, waited: bool)
    ensures
        last_change >= value + 200 ==> reduce_allowed(value, last_change, waited),
        value <= 600 ==> reduce_allowed(value, last_change, waited),
        waited && last_change >= value + 100 ==> reduce_allowed(value, last_change, waited),
        waited && value < 700 ==> reduce_allowed(value, last_change, waited),
        !waited && last_change < value + 200 && value > 600 ==> !reduce_allowed(
            value,
            last_change,
            waited,
        ),
        last_change < value + 100 && value >= 700 ==> !reduce_allowed(value, last_change, waited),
        reduce_allowed(value, last_change, false) ==> reduce_allowed(value, last_change, true),
{
}

/// Law: the status a CO2 level asks for, by its thresholds: 1000 ppm and
/// up `Maximum`, from 900 `High`, from 800 `MediumHigh`, from 750
/// `Medium`; below that `Low` from the minimum on, or from 50 ppm below the
/// minimum when the level at the last change had reached the minimum, and
/// `Default` otherwise.
pub proof fn lemma_co2_status_thresholds(new: u64, minimum: u64, last_change: u64)
    ensures
        new >= 1000 ==> co2_status(new, minimum, last_change) == Status::Maximum,
        900 <= new < 1000 ==> co2_status(new, minimum, last_change) == Status::High,
        800 <= new < 900 ==> co2_status(new, minimum, last_change) == Status::MediumHigh,
        750 <= new < 800 ==> co2_status(new, minimum, last_change) == Status::Medium,
        new < 750 && new >= minimum ==> co2_status(new, minimum, last_change) == Status::Low,
        new < 750 && new < minimum && new + 50 >= minimum && last_change >= minimum ==> co2_status(
            new,
            minimum,
            last_change,
        ) == Status::Low,
        new < 750 && new < minimum && (new + 50 < minimum || last_change < minimum) ==> co2_status(
            new,
            minimum,
            last_change,
        ) == Status::Default,
{
}

} // verus!
