//! Sample batching: three channel buffers filled in lock step and drained as
//! one batch of reports.
use vstd::prelude::*;
use crate::buffer::{buf_clear, buf_clone, buf_items, buf_len, buf_new, buf_push, SampleBuf};
use crate::protocol::{MAX_SAMPLES, SENSOR_TYPE_HUMI, SENSOR_TYPE_LUX, SENSOR_TYPE_TEMP};
use crate::report::MetricReport;

verus! {

/// Holds the samples of the batch being collected.
pub struct SensorManager {
    temp_buf: SampleBuf,
    humi_buf: SampleBuf,
    lux_buf: SampleBuf,
    batch_start_ms: u64,
    capacity: usize,
}

/// Whether `len` samples make a buffer of `capacity` almost full: at least
/// three quarters of it.
pub open spec fn almost_full_at(len: int, capacity: int) -> bool {
    4 * len >= 3 * capacity
}

/// The almost-full threshold is three quarters of the capacity: one sample
/// below three quarters rounded down the buffers are not almost full, and at
/// three quarters rounded up they are.
pub proof fn almost_full_threshold(capacity: int)
    requires
        0 < capacity,
    ensures
        !almost_full_at(capacity * 3 / 4 - 1, capacity),
        almost_full_at((capacity * 3 + 3) / 4, capacity),
{
}

impl SensorManager {
    /// The buffers hold equally many samples, at most `cap()`, and `cap()` is
    /// between 1 and `MAX_SAMPLES`.
    pub closed spec fn wf(self) -> bool {
        &&& 0 < self.capacity <= MAX_SAMPLES
        &&& buf_items(self.temp_buf).len() == buf_items(self.humi_buf).len()
        &&& buf_items(self.temp_buf).len() == buf_items(self.lux_buf).len()
        &&& buf_items(self.temp_buf).len() <= self.capacity
    }

    /// Temperature samples of the current batch, oldest first.
    pub closed spec fn temperatures(self) -> Seq<u32> {
        buf_items(self.temp_buf)
    }

    /// Humidity samples of the current batch, oldest first.
    pub closed spec fn humidities(self) -> Seq<u32> {
        buf_items(self.humi_buf)
    }

    /// Illuminance samples of the current batch, oldest first.
    pub closed spec fn illuminances(self) -> Seq<u32> {
        buf_items(self.lux_buf)
    }

    /// Time of the current batch's first sample, in milliseconds.
    pub closed spec fn start_ms(self) -> u64 {
        self.batch_start_ms
    }

    /// How many samples each buffer takes.
    pub closed spec fn cap(self) -> nat {
        self.capacity as nat
    }

    /// Samples in each buffer.
    pub open spec fn count(self) -> nat {
        self.temperatures().len()
    }

    /// Lock step: in every well-formed manager the three channel buffers hold
    /// equally many samples, never more than the capacity.
    pub proof fn lock_step(m: SensorManager)
        requires
            m.wf(),
        ensures
            m.humidities().len() == m.count(),
            m.illuminances().len() == m.count(),
            m.count() <= m.cap() <= MAX_SAMPLES,
    {
    }

    /// An empty manager whose buffers take `MAX_SAMPLES` samples each.
    pub fn new() -> (m: SensorManager)
        ensures
            m.wf(),
            m.cap() == MAX_SAMPLES,
            m.temperatures() == Seq::<u32>::empty(),
            m.humidities() == Seq::<u32>::empty(),
            m.illuminances() == Seq::<u32>::empty(),
            m.start_ms() == 0,
    {
        SensorManager {
            temp_buf: buf_new(),
            humi_buf: buf_new(),
            lux_buf: buf_new(),
            batch_start_ms: 0,
            capacity: MAX_SAMPLES,
        }
    }

    /// An empty manager whose buffers take `capacity` samples each, or `None`
    /// when `capacity` is 0 or above `MAX_SAMPLES`.
    pub fn with_capacity(capacity: usize) -> (m: Option<SensorManager>)
        ensures
            (0 < capacity <= MAX_SAMPLES) <==> m.is_some(),
            m matches Some(m) ==> {
                &&& m.wf()
                &&& m.cap() == capacity
                &&& m.temperatures() == Seq::<u32>::empty()
                &&& m.humidities() == Seq::<u32>::empty()
                &&& m.illuminances() == Seq::<u32>::empty()
                &&& m.start_ms() == 0
            },
    {
        if capacity == 0 || capacity > MAX_SAMPLES {
            return None;
        }
        Some(
            SensorManager {
                temp_buf: buf_new(),
                humi_buf: buf_new(),
                lux_buf: buf_new(),
                batch_start_ms: 0,
                capacity,
            },
        )
    }

    /// Samples in each buffer.
    pub fn len(&self) -> (n: usize)
        requires
            self.wf(),
        ensures
            n == self.count(),
    {
        buf_len(&self.temp_buf)
    }

    /// Records one sample from each sensor, given as float bit patterns.
    ///
    /// `climate` is the temperature and humidity reading, `None` when the
    /// sensor could not be read; both channels then record 0.0. The first
    /// sample of a batch fixes its start time at `current_sec * 1000`. Once
    /// the buffers are full the sample is dropped.
    pub fn do_sample(&mut self, current_sec: u32, climate: Option<(u32, u32)>, lux: u32)
        requires
            old(self).wf(),
        ensures
            final(self).wf(),
            final(self).cap() == old(self).cap(),
            old(self).count() == 0 ==> final(self).start_ms() == current_sec * 1000,
            old(self).count() != 0 ==> final(self).start_ms() == old(self).start_ms(),
            old(self).count() < old(self).cap() ==> {
                let (t, h) = match climate {
                    Some(pair) => pair,
                    None => (0u32, 0u32),
                };
                &&& final(self).temperatures() == old(self).temperatures().push(t)
                &&& final(self).humidities() == old(self).humidities().push(h)
                &&& final(self).illuminances() == old(self).illuminances().push(lux)
            },
            old(self).count() >= old(self).cap() ==> {
                &&& final(self).temperatures() == old(self).temperatures()
                &&& final(self).humidities() == old(self).humidities()
                &&& final(self).illuminances() == old(self).illuminances()
            },
    {
        let len = buf_len(&self.temp_buf);
        if len == 0 {
            self.batch_start_ms = current_sec as u64 * 1000;
        }
        if len < self.capacity {
            let (t, h) = match climate {
                Some(pair) => pair,
                None => (0u32, 0u32),
            };
            let _ = buf_push(&mut self.temp_buf, t);
            let _ = buf_push(&mut self.humi_buf, h);
            let _ = buf_push(&mut self.lux_buf, lux);
        }
    }

    /// Whether the buffers are at capacity.
    pub fn is_full(&self) -> (r: bool)
        requires
            self.wf(),
        ensures
            r == (self.count() == self.cap()),
    {
        buf_len(&self.temp_buf) == self.capacity
    }

    /// Whether the buffers are at least three quarters full, the point at which
    /// the link should be woken.
    pub fn is_almost_full(&self) -> (r: bool)
        requires
            self.wf(),
        ensures
            r == almost_full_at(self.count() as int, self.cap() as int),
    {
        buf_len(&self.temp_buf) * 4 >= self.capacity * 3
    }

    /// Drains the batch: one report per channel (temperature, humidity,
    /// illuminance), each with the batch's start time, `sample_interval_ms`
    /// and a copy of its samples; all buffers are left empty.
    pub fn take_reports(&mut self, sample_interval_ms: u32) -> (r: [MetricReport; 3])
        requires
            old(self).wf(),
        ensures
            final(self).wf(),
            final(self).cap() == old(self).cap(),
            final(self).start_ms() == old(self).start_ms(),
            final(self).temperatures() == Seq::<u32>::empty(),
            final(self).humidities() == Seq::<u32>::empty(),
            final(self).illuminances() == Seq::<u32>::empty(),
            forall|i: int|
                0 <= i < 3 ==> {
                    &&& (#[trigger] r[i]).start_timestamp == old(self).start_ms()
                    &&& r[i].sample_interval == sample_interval_ms
                    &&& r[i].count == old(self).count()
                    &&& r[i].wf()
                },
            r[0].data_type == SENSOR_TYPE_TEMP,
            r[0].samples() == old(self).temperatures(),
            r[1].data_type == SENSOR_TYPE_HUMI,
            r[1].samples() == old(self).humidities(),
            r[2].data_type == SENSOR_TYPE_LUX,
            r[2].samples() == old(self).illuminances(),
    {
        let ts = self.batch_start_ms;
        let count = buf_len(&self.temp_buf) as u32;
        let reports = [
            MetricReport {
                start_timestamp: ts,
                sample_interval: sample_interval_ms,
                data_type: SENSOR_TYPE_TEMP,
                count,
                data_blob: buf_clone(&self.temp_buf),
            },
            MetricReport {
                start_timestamp: ts,
                sample_interval: sample_interval_ms,
                data_type: SENSOR_TYPE_HUMI,
                count,
                data_blob: buf_clone(&self.humi_buf),
            },
            MetricReport {
                start_timestamp: ts,
                sample_interval: sample_interval_ms,
                data_type: SENSOR_TYPE_LUX,
                count,
                data_blob: buf_clone(&self.lux_buf),
            },
        ];
        buf_clear(&mut self.temp_buf);
        buf_clear(&mut self.humi_buf);
        buf_clear(&mut self.lux_buf);
        reports
    }
}

} // verus!
