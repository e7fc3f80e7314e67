//! Accumulation of one CO2 sample and one temperature sample within a
//! budget of requests.

use vstd::prelude::*;
use crate::cipher::Cipher;
use crate::clock::{local_now, CaptureTime};
use crate::frame::{checksum_ok, decode, decode_message, tail_intact, Temperature};

verus! {

/// Why no reading could be had.
#[derive(Clone, Copy, Debug, PartialEq, Eq, Structural)]
pub enum ErrorKind {
    /// No attached device has the monitor's identifiers and the wanted path.
    DeviceNotFound,
    /// The device could not be opened.
    TransportOpenFailed,
    /// A report could not be read from the device.
    TransportReadFailed,
    /// The key could not be sent to the device.
    FeatureReportFailed,
    /// The requests ended without a valid CO2 sample.
    MissingCO2,
    /// The requests ended without a valid temperature sample.
    MissingTemperature,
}

/// A complete reading.
#[derive(Clone, Copy, Debug, PartialEq, Eq, Structural)]
pub struct CO2Reading {
    /// When the reading was completed, if that was asked for.
    pub time: Option<CaptureTime>,
    /// The CO2 concentration in parts per million.
    pub co2_ppm: u32,
    /// The temperature.
    pub temp: Temperature,
}

/// The state of one acquisition: what has been seen so far and how many
/// requests have been made.
#[derive(Clone, Copy, Debug, PartialEq, Eq, Structural)]
pub struct Acquisition {
    /// The latest valid CO2 sample.
    pub co2: Option<u32>,
    /// The latest valid temperature sample.
    pub temp: Option<Temperature>,
    /// The number of frames recorded so far.
    pub request_num: u32,
    /// The number of requests allowed.
    pub max_requests: u32,
}

/// The sample that a raw report carries under the given cipher settings.
pub open spec fn sample_of(cipher: Cipher, report: [u8; 8]) -> (Option<u32>, Option<Temperature>) {
    decode(cipher.frame_of(report@))
}

/// The reading or the failure that two slots and a capture time amount to:
/// a missing CO2 sample is reported before a missing temperature.
pub open spec fn verdict(
    co2: Option<u32>,
    temp: Option<Temperature>,
    time: Option<CaptureTime>,
) -> Result<CO2Reading, ErrorKind> {
    match (co2, temp) {
        (None, _) => Err(ErrorKind::MissingCO2),
        (Some(_), None) => Err(ErrorKind::MissingTemperature),
        (Some(co2_ppm), Some(temp)) => Ok(CO2Reading { time, co2_ppm, temp }),
    }
}

/// Turns the two slots and a capture time into a reading, or says which
/// sample is missing.
pub fn conclude(co2: Option<u32>, temp: Option<Temperature>, time: Option<CaptureTime>) -> (outcome:
    Result<CO2Reading, ErrorKind>)
    ensures
        outcome == verdict(co2, temp, time),
{
    match co2 {
        None => Err(ErrorKind::MissingCO2),
        Some(co2_ppm) => match temp {
            None => Err(ErrorKind::MissingTemperature),
            Some(temp) => Ok(CO2Reading { time, co2_ppm, temp }),
        },
    }
}

impl Acquisition {
    /// The state before the first request.
    pub open spec fn initial(max_requests: u32) -> Acquisition {
        Acquisition { co2: None, temp: None, request_num: 0, max_requests }
    }

    /// Whether both samples are known.
    pub open spec fn complete(self) -> bool {
        self.co2.is_some() && self.temp.is_some()
    }

    /// Whether another frame is to be requested: requests are left and a
    /// sample is still missing.
    pub open spec fn wanting(self) -> bool {
        self.request_num < self.max_requests && !self.complete()
    }

    /// The state after one more frame. A sample that the frame carries
    /// replaces the one in its slot; a frame that carries none leaves both
    /// slots as they are. Every frame counts as a request.
    pub open spec fn absorb(self, frame: Seq<u8>) -> Acquisition {
        let sample = decode(frame);
        Acquisition {
            co2: if sample.0.is_some() { sample.0 } else { self.co2 },
            temp: if sample.1.is_some() { sample.1 } else { self.temp },
            request_num: (self.request_num + 1) as u32,
            max_requests: self.max_requests,
        }
    }

    /// The state in which the acquisition stops when it is fed the raw
    /// reports in order: it takes a report while it wants one and one is
    /// left.
    pub open spec fn run(self, cipher: Cipher, reports: Seq<[u8; 8]>) -> Acquisition
        decreases reports.len(),
    {
        if reports.len() == 0 || !self.wanting() {
            self
        } else {
            self.absorb(cipher.frame_of(reports[0]@)).run(cipher, reports.skip(1))
        }
    }

    /// The failure that is reported when a sample is missing.
    pub open spec fn failure(self) -> ErrorKind {
        if self.co2.is_none() {
            ErrorKind::MissingCO2
        } else {
            ErrorKind::MissingTemperature
        }
    }

    /// Starts an acquisition with a budget of `max_requests` requests.
    pub fn start(max_requests: u32) -> (state: Acquisition)
        ensures
            state == Acquisition::initial(max_requests),
    {
        Acquisition { co2: None, temp: None, request_num: 0, max_requests }
    }

    /// Whether another frame is to be requested.
    pub fn wants_frame(&self) -> (wanted: bool)
        ensures
            wanted == self.wanting(),
    {
        self.request_num < self.max_requests && !(self.co2.is_some() && self.temp.is_some())
    }

    /// Records one deciphered frame.
    pub fn record(&mut self, msg: [u8; 8])
        requires
            old(self).request_num < u32::MAX,
        ensures
            *final(self) == old(self).absorb(msg@),
    {
        let (co2_val, temp_val) = decode_message(msg);
        if co2_val.is_some() {
            self.co2 = co2_val;
        }
        if temp_val.is_some() {
            self.temp = temp_val;
        }
        self.request_num = self.request_num + 1;
    }

    /// Ends the acquisition: the reading if both samples are known, else
    /// the sample that is missing, CO2 first. With `record_time` the
    /// reading carries the moment of this call.
    pub fn finish(&self, record_time: bool) -> (outcome: Result<CO2Reading, ErrorKind>)
        ensures
            outcome.is_ok() == self.complete(),
            outcome matches Ok(reading) ==> self.co2 == Some(reading.co2_ppm) && self.temp == Some(
                reading.temp,
            ) && reading.time.is_some() == record_time,
            outcome matches Err(kind) ==> kind == self.failure(),
    {
        let time = if record_time {
            Some(local_now())
        } else {
            None
        };
        conclude(self.co2, self.temp, time)
    }
}

/// Runs an acquisition on recorded raw reports, taken in order, and returns
/// its outcome with the number of reports read. Reading stops as soon as
/// both samples are known or `max_requests` reports were read. When the
/// reports run out before that, the read has failed.
pub fn read_recorded(
    cipher: &Cipher,
    reports: &Vec<[u8; 8]>,
    record_time: bool,
    max_requests: u32,
) -> (done: (Result<CO2Reading, ErrorKind>, u32))
    ensures
        ({
            let end = Acquisition::initial(max_requests).run(*cipher, reports@);
            &&& done.1 == end.request_num
            &&& done.1 <= max_requests
            &&& done.1 <= reports@.len()
            &&& end.wanting() ==> done.0 == Err::<CO2Reading, ErrorKind>(
                ErrorKind::TransportReadFailed,
            )
            &&& !end.wanting() ==> {
                &&& done.0.is_ok() == end.complete()
                &&& done.0 matches Ok(reading) ==> end.co2 == Some(reading.co2_ppm) && end.temp
                    == Some(reading.temp) && reading.time.is_some() == record_time
                &&& done.0 matches Err(kind) ==> kind == end.failure()
            }
        }),
{
    let mut state = Acquisition::start(max_requests);
    let mut i: usize = 0;
    assert(reports@.skip(0) =~= reports@);
    while i < reports.len() && state.wants_frame()
        invariant
            i <= reports@.len(),
            state.request_num == i,
            state.request_num <= max_requests,
            state.max_requests == max_requests,
            Acquisition::initial(max_requests).run(*cipher, reports@) == state.run(
                *cipher,
                reports@.skip(i as int),
            ),
        decreases reports@.len() - i,
    {
        let frame = cipher.decrypt(reports[i]);
        proof {
            assert(reports@.skip(i as int)[0] == reports@[i as int]);
            assert(reports@.skip(i as int).skip(1) =~= reports@.skip(i + 1));
        }
        state.record(frame);
        i += 1;
    }
    if state.wants_frame() {
        (Err(ErrorKind::TransportReadFailed), state.request_num)
    } else {
        (state.finish(record_time), state.request_num)
    }
}

/// A frame whose tail or checksum is wrong is discarded: it changes neither
/// slot and counts as one request.
pub proof fn lemma_invalid_frame_discarded(state: Acquisition, frame: Seq<u8>)
    requires
        !tail_intact(frame) || !checksum_ok(frame),
        state.request_num < u32::MAX,
    ensures
        state.absorb(frame).co2 == state.co2,
        state.absorb(frame).temp == state.temp,
        state.absorb(frame).request_num == state.request_num + 1,
{
}

/// Another frame is wanted exactly when "requests are left" and "both
/// samples are known" differ, except at the end of the budget, where a
/// complete acquisition wants nothing.
pub proof fn lemma_wanting_as_difference(state: Acquisition)
    ensures
        state.wanting() == (((state.request_num < state.max_requests) != state.complete()) && !(
        state.request_num >= state.max_requests && state.complete())),
        state.request_num < state.max_requests ==> state.wanting() == ((state.request_num
            < state.max_requests) != state.complete()),
{
}

/// A slot that is filled stays filled, whatever frames follow.
pub proof fn lemma_slots_stay_filled(state: Acquisition, cipher: Cipher, reports: Seq<[u8; 8]>)
    ensures
        state.co2.is_some() ==> state.run(cipher, reports).co2.is_some(),
        state.temp.is_some() ==> state.run(cipher, reports).temp.is_some(),
    decreases reports.len(),
{
    if reports.len() > 0 && state.wanting() {
        lemma_slots_stay_filled(
            state.absorb(cipher.frame_of(reports[0]@)),
            cipher,
            reports.skip(1),
        );
    }
}

/// An acquisition never reads more reports than its budget allows nor more
/// than there are, and it stops wanting once the reports can cover what is
/// left of the budget.
pub proof fn lemma_run_within_budget(state: Acquisition, cipher: Cipher, reports: Seq<[u8; 8]>)
    requires
        state.request_num <= state.max_requests,
    ensures
        ({
            let end = state.run(cipher, reports);
            &&& end.max_requests == state.max_requests
            &&& state.request_num <= end.request_num <= state.max_requests
            &&& end.request_num - state.request_num <= reports.len()
            &&& end.wanting() ==> end.request_num == state.request_num + reports.len()
            &&& reports.len() >= state.max_requests - state.request_num ==> !end.wanting()
        }),
    decreases reports.len(),
{
    if reports.len() > 0 && state.wanting() {
        lemma_run_within_budget(
            state.absorb(cipher.frame_of(reports[0]@)),
            cipher,
            reports.skip(1),
        );
    }
}

/// With a budget of zero nothing is read, and the CO2 sample is reported
/// missing.
pub proof fn lemma_zero_budget_reads_nothing(cipher: Cipher, reports: Seq<[u8; 8]>)
    ensures
        Acquisition::initial(0).run(cipher, reports) == Acquisition::initial(0),
        !Acquisition::initial(0).wanting(),
        Acquisition::initial(0).failure() == ErrorKind::MissingCO2,
{
}

/// When the first report carries a CO2 sample and the second a temperature
/// sample, a budget of two or more is enough: the acquisition stops after
/// exactly two reads with both samples, whatever reports follow.
pub proof fn lemma_two_samples_two_reads(
    cipher: Cipher,
    reports: Seq<[u8; 8]>,
    max_requests: u32,
    co2_ppm: u32,
    temp: Temperature,
)
    requires
        max_requests >= 2,
        reports.len() >= 2,
        sample_of(cipher, reports[0]) == (Some(co2_ppm), None::<Temperature>),
        sample_of(cipher, reports[1]) == (None::<u32>, Some(temp)),
    ensures
        ({
            let end = Acquisition::initial(max_requests).run(cipher, reports);
            &&& end.request_num == 2
            &&& !end.wanting()
            &&& end.co2 == Some(co2_ppm)
            &&& end.temp == Some(temp)
            &&& forall|time: Option<CaptureTime>| #[trigger]
                verdict(end.co2, end.temp, time) == Ok::<CO2Reading, ErrorKind>(
                    CO2Reading { time, co2_ppm, temp },
                )
        }),
{
    let first = Acquisition::initial(max_requests).absorb(cipher.frame_of(reports[0]@));
    let rest = reports.skip(1);
    assert(rest[0] == reports[1]);
    let second = first.absorb(cipher.frame_of(rest[0]@));
    assert(first.run(cipher, rest) == second.run(cipher, rest.skip(1)));
    assert(second.run(cipher, rest.skip(1)) == second);
}

/// Reports that carry no sample change neither slot; they are read until
/// the budget or the reports are used up.
proof fn lemma_run_without_samples(state: Acquisition, cipher: Cipher, reports: Seq<[u8; 8]>)
    requires
        state.request_num <= state.max_requests,
        !state.complete(),
        forall|i: int|
            0 <= i < reports.len() ==> #[trigger] sample_of(cipher, reports[i]) == (
                None::<u32>,
                None::<Temperature>,
            ),
    ensures
        ({
            let end = state.run(cipher, reports);
            &&& end.co2 == state.co2
            &&& end.temp == state.temp
            &&& end.max_requests == state.max_requests
            &&& end.request_num == if state.request_num + reports.len() <= state.max_requests {
                state.request_num + reports.len()
            } else {
                state.max_requests as int
            }
        }),
    decreases reports.len(),
{
    if reports.len() > 0 && state.wanting() {
        let rest = reports.skip(1);
        assert forall|i: int| 0 <= i < rest.len() implies #[trigger] sample_of(cipher, rest[i]) == (
            None::<u32>,
            None::<Temperature>,
        ) by {
            assert(rest[i] == reports[i + 1]);
        }
        assert(sample_of(cipher, reports[0]) == (None::<u32>, None::<Temperature>));
        lemma_run_without_samples(state.absorb(cipher.frame_of(reports[0]@)), cipher, rest);
    }
}

/// When no report carries a sample and there are at least as many reports
/// as the budget allows, exactly `max_requests` reports are read and the
/// CO2 sample is reported missing.
pub proof fn lemma_invalid_reports_use_budget(
    cipher: Cipher,
    reports: Seq<[u8; 8]>,
    max_requests: u32,
)
    requires
        reports.len() >= max_requests,
        forall|i: int|
            0 <= i < reports.len() ==> #[trigger] sample_of(cipher, reports[i]) == (
                None::<u32>,
                None::<Temperature>,
            ),
    ensures
        ({
            let end = Acquisition::initial(max_requests).run(cipher, reports);
            &&& end.request_num == max_requests
            &&& !end.wanting()
            &&& end.co2.is_none()
            &&& end.temp.is_none()
            &&& end.failure() == ErrorKind::MissingCO2
        }),
{
    lemma_run_without_samples(Acquisition::initial(max_requests), cipher, reports);
}

/// Whether a sample is a CO2 sample.
pub open spec fn carries_co2(sample: (Option<u32>, Option<Temperature>)) -> bool {
    sample.0.is_some() && sample.1.is_none()
}

/// Reports that carry CO2 samples only never fill the temperature slot;
/// they are read until the budget or the reports are used up, and the CO2
/// slot is filled by the first of them.
proof fn lemma_run_co2_only(state: Acquisition, cipher: Cipher, reports: Seq<[u8; 8]>)
    requires
        state.request_num <= state.max_requests,
        state.temp.is_none(),
        forall|i: int|
            0 <= i < reports.len() ==> carries_co2(#[trigger] sample_of(cipher, reports[i])),
    ensures
        ({
            let end = state.run(cipher, reports);
            &&& end.temp.is_none()
            &&& end.max_requests == state.max_requests
            &&& end.co2.is_some() == (state.co2.is_some() || end.request_num > state.request_num)
            &&& end.request_num == if state.request_num + reports.len() <= state.max_requests {
                state.request_num + reports.len()
            } else {
                state.max_requests as int
            }
        }),
    decreases reports.len(),
{
    if reports.len() > 0 && state.wanting() {
        let rest = reports.skip(1);
        assert forall|i: int| 0 <= i < rest.len() implies carries_co2(
            #[trigger] sample_of(cipher, rest[i]),
        ) by {
            assert(rest[i] == reports[i + 1]);
        }
        assert(carries_co2(sample_of(cipher, reports[0])));
        lemma_run_co2_only(state.absorb(cipher.frame_of(reports[0]@)), cipher, rest);
    }
}

/// When every report carries a CO2 sample, there are at least as many
/// reports as the budget allows and the budget is not zero, exactly
/// `max_requests` reports are read and the temperature is reported missing.
pub proof fn lemma_co2_only_misses_temperature(
    cipher: Cipher,
    reports: Seq<[u8; 8]>,
    max_requests: u32,
)
    requires
        max_requests >= 1,
        reports.len() >= max_requests,
        forall|i: int|
            0 <= i < reports.len() ==> carries_co2(#[trigger] sample_of(cipher, reports[i])),
    ensures
        ({
            let end = Acquisition::initial(max_requests).run(cipher, reports);
            &&& end.request_num == max_requests
            &&& !end.wanting()
            &&& end.co2.is_some()
            &&& end.temp.is_none()
            &&& end.failure() == ErrorKind::MissingTemperature
        }),
{
    lemma_run_co2_only(Acquisition::initial(max_requests), cipher, reports);
}

} // verus!
