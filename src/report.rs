//! The metric report a batch channel becomes, and its fixed wire layout.
use vstd::prelude::*;
use crate::buffer::{buf_get, buf_items, buf_len, SampleBuf};
use crate::protocol::{le32, le64, put_u32, put_u64, MAX_SAMPLES, PAYLOAD_SIZE};

verus! {

/// One channel of a drained batch.
pub struct MetricReport {
    /// Time of the batch's first sample, in milliseconds.
    pub start_timestamp: u64,
    /// Time between samples, in milliseconds.
    pub sample_interval: u32,
    /// Which sensor the samples come from.
    pub data_type: u8,
    /// Number of samples.
    pub count: u32,
    /// The samples, each the bit pattern of a 32-bit float, oldest first.
    pub data_blob: SampleBuf,
}

impl MetricReport {
    /// The samples, oldest first.
    pub open spec fn samples(&self) -> Seq<u32> {
        buf_items(self.data_blob)
    }

    /// `count` matches the number of samples.
    pub open spec fn wf(&self) -> bool {
        self.samples().len() == self.count
    }
}

/// Each sample as 4 little-endian bytes, in order.
pub open spec fn samples_bytes(s: Seq<u32>) -> Seq<u8>
    decreases s.len(),
{
    if s.len() == 0 {
        Seq::empty()
    } else {
        samples_bytes(s.drop_last()) + le32(s.last())
    }
}

/// The payload a report is sent as: timestamp, interval, type tag and count,
/// then the samples; 17 + 4 * count bytes.
#[verifier::opaque]
pub open spec fn report_payload(r: MetricReport) -> Seq<u8> {
    le64(r.start_timestamp) + le32(r.sample_interval) + seq![r.data_type] + le32(r.count)
        + samples_bytes(r.samples())
}

proof fn lemma_samples_bytes_len(s: Seq<u32>)
    ensures
        samples_bytes(s).len() == 4 * s.len(),
    decreases s.len(),
{
    if s.len() > 0 {
        lemma_samples_bytes_len(s.drop_last());
    }
}

/// Writes the report's payload over the start of `buf` and returns its length.
pub fn serialize_report(report: &MetricReport, buf: &mut [u8]) -> (n: usize)
    requires
        report.wf(),
        old(buf)@.len() >= PAYLOAD_SIZE,
    ensures
        report.count <= MAX_SAMPLES,
        n == 17 + 4 * report.count,
        n <= PAYLOAD_SIZE,
        final(buf)@.len() == old(buf)@.len(),
        final(buf)@.take(n as int) == report_payload(*report),
{
    put_u64(buf, 0, report.start_timestamp);
    put_u32(buf, 8, report.sample_interval);
    buf[12] = report.data_type;
    put_u32(buf, 13, report.count);
    let ghost head = le64(report.start_timestamp) + le32(report.sample_interval) + seq![
        report.data_type,
    ] + le32(report.count);
    assert(buf@.take(17) =~= head);
    let count = buf_len(&report.data_blob);
    let ghost items = report.samples();
    let mut i: usize = 0;
    let mut offset: usize = 17;
    while i < count
        invariant
            count == items.len(),
            count <= MAX_SAMPLES,
            items == report.samples(),
            buf@.len() == old(buf)@.len(),
            old(buf)@.len() >= PAYLOAD_SIZE,
            i <= count,
            offset == 17 + 4 * i,
            buf@.take(offset as int) == head + samples_bytes(items.take(i as int)),
        decreases count - i,
    {
        let x = buf_get(&report.data_blob, i);
        proof {
            lemma_samples_bytes_len(items.take(i as int));
        }
        let ghost before = buf@;
        put_u32(buf, offset, x);
        proof {
            let t = items.take(i + 1);
            assert(t.drop_last() =~= items.take(i as int));
            assert(buf@.take(offset + 4) =~= before.take(offset as int) + le32(x));
        }
        offset = offset + 4;
        i = i + 1;
    }
    assert(items.take(count as int) =~= items);
    reveal(report_payload);
    offset
}

} // verus!
