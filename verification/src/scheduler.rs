//! Decisions of the periodic capture loops: batching of window samples,
//! second alignment of process samples, and the retention cutoff.

use vstd::prelude::*;

use crate::types::WindowActivityCapture;

verus! {

/// How many window samples are buffered before one atomic batched insert.
pub const WINDOW_BATCH_SIZE: usize = 5;

/// The in-memory buffer of window samples awaiting their batched insert:
/// samples accumulate in arrival order and are handed out as one batch the
/// moment the threshold is reached.
pub struct SampleBatcher {
    pub buffer: Vec<WindowActivityCapture>,
    pub batch_size: usize,
}

impl SampleBatcher {
    /// An empty batcher that flushes every `batch_size` samples.
    pub fn new(batch_size: usize) -> (r: SampleBatcher)
        requires
            batch_size >= 1,
        ensures
            r.buffer@.len() == 0,
            r.batch_size == batch_size,
    {
        SampleBatcher { buffer: Vec::new(), batch_size }
    }

    /// Adds one sample. When the buffer reaches the batch size, every
    /// buffered sample is returned, oldest first, and the buffer is left
    /// empty; otherwise the sample is only buffered.
    pub fn push(&mut self, sample: WindowActivityCapture) -> (batch: Option<
        Vec<WindowActivityCapture>,
    >)
        requires
            old(self).buffer@.len() < old(self).batch_size,
        ensures
            final(self).batch_size == old(self).batch_size,
            old(self).buffer@.len() + 1 == old(self).batch_size ==> {
                &&& batch matches Some(v) && v@ == old(self).buffer@.push(sample)
                &&& final(self).buffer@.len() == 0
            },
            old(self).buffer@.len() + 1 < old(self).batch_size ==> {
                &&& batch is None
                &&& final(self).buffer@ == old(self).buffer@.push(sample)
            },
    {
        self.buffer.push(sample);
        if self.buffer.len() >= self.batch_size {
            let mut out: Vec<WindowActivityCapture> = Vec::new();
            core::mem::swap(&mut out, &mut self.buffer);
            Some(out)
        } else {
            None
        }
    }
}

/// A timestamp aligned to the start of its second, with the fractional
/// second dropped toward zero.
pub open spec fn second_aligned(ts: int) -> int {
    if ts >= 0 {
        (ts / 1000) * 1000
    } else {
        -(((-ts) / 1000) * 1000)
    }
}

/// Aligns an epoch-millisecond timestamp to the start of its second,
/// truncating toward zero as integer division does.
pub fn align_to_second(timestamp_ms: i64) -> (r: i64)
    ensures
        r as int == second_aligned(timestamp_ms as int),
{
    if timestamp_ms >= 0 {
        (timestamp_ms / 1000) * 1000
    } else {
        let mag: u64 = ((-(timestamp_ms + 1)) as u64) + 1;
        let q1000: u64 = (mag / 1000) * 1000;
        proof {
            assert(mag as int == -(timestamp_ms as int));
            assert(q1000 <= mag);
        }
        if q1000 == 0 {
            0
        } else {
            let r = -((q1000 - 1) as i64) - 1;
            proof {
                assert(r as int == -(q1000 as int));
            }
            r
        }
    }
}

/// How long process samples are retained, in milliseconds: 30 days.
pub const RETENTION_WINDOW_MS: i64 = 2_592_000_000;

/// The retention cutoff: samples older than 30 days before `now_ms` are
/// deleted.
pub fn retention_cutoff_ms(now_ms: i64) -> (r: i64)
    requires
        now_ms as int - 2_592_000_000 >= i64::MIN as int,
    ensures
        r as int == now_ms as int - 2_592_000_000,
{
    now_ms - RETENTION_WINDOW_MS
}

} // verus!
