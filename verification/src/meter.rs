//! The tunnel bandwidth meter: byte counts per direction in a sliding
//! time window, with old entries evicted as time passes. Rates are
//! byte-per-window totals; the embedding application divides by elapsed
//! time.

use vstd::prelude::*;

verus! {

/// A sliding-window meter over read and write events, each a timestamp
/// in milliseconds with a byte count.
pub struct BandwidthMeter {
    pub window_ms: u64,
    pub write_events: Vec<(u64, u64)>,
    pub read_events: Vec<(u64, u64)>,
}

/// Which events survive eviction at a time: those within the window.
pub open spec fn spec_kept(q: Seq<(u64, u64)>, window_ms: u64, now_ms: u64) -> Seq<(u64, u64)>
    decreases q.len(),
{
    if q.len() == 0 {
        q
    } else if now_ms >= q[0].0 && now_ms - q[0].0 > window_ms {
        spec_kept(q.skip(1), window_ms, now_ms)
    } else {
        q
    }
}

/// The byte total of a run of events.
pub open spec fn spec_total_bytes(q: Seq<(u64, u64)>) -> int
    decreases q.len(),
{
    if q.len() == 0 {
        0int
    } else {
        q[0].1 + spec_total_bytes(q.skip(1))
    }
}

impl BandwidthMeter {
    /// A fresh meter over a window.
    pub fn new(window_ms: u64) -> (r: BandwidthMeter)
        ensures
            r.window_ms == window_ms,
            r.write_events@.len() == 0,
            r.read_events@.len() == 0,
    {
        BandwidthMeter { window_ms, write_events: Vec::new(), read_events: Vec::new() }
    }

    /// Records bytes written at a time; entries older than the window
    /// leave.
    pub fn add_written(&mut self, length: u64, now_ms: u64)
        ensures
            final(self).write_events@ == spec_kept(
                old(self).write_events@.push((now_ms, length)),
                old(self).window_ms,
                now_ms,
            ),
            final(self).read_events@ == old(self).read_events@,
            final(self).window_ms == old(self).window_ms,
    {
        self.write_events.push((now_ms, length));
        evict_old(&mut self.write_events, self.window_ms, now_ms);
    }

    /// Records bytes read at a time; entries older than the window
    /// leave.
    pub fn add_read(&mut self, length: u64, now_ms: u64)
        ensures
            final(self).read_events@ == spec_kept(
                old(self).read_events@.push((now_ms, length)),
                old(self).window_ms,
                now_ms,
            ),
            final(self).write_events@ == old(self).write_events@,
            final(self).window_ms == old(self).window_ms,
    {
        self.read_events.push((now_ms, length));
        evict_old(&mut self.read_events, self.window_ms, now_ms);
    }

    /// The bytes written within the window as of a time.
    pub fn write_bytes_in_window(&mut self, now_ms: u64) -> (r: Option<u64>)
        ensures
            final(self).write_events@ == spec_kept(
                old(self).write_events@,
                old(self).window_ms,
                now_ms,
            ),
            final(self).read_events@ == old(self).read_events@,
            final(self).window_ms == old(self).window_ms,
            r matches Some(v) ==> v as int == spec_total_bytes(final(self).write_events@),
            r is None ==> spec_total_bytes(final(self).write_events@) > u64::MAX,
    {
        evict_old(&mut self.write_events, self.window_ms, now_ms);
        sum_bytes(&self.write_events)
    }

    /// The bytes read within the window as of a time.
    pub fn read_bytes_in_window(&mut self, now_ms: u64) -> (r: Option<u64>)
        ensures
            final(self).read_events@ == spec_kept(
                old(self).read_events@,
                old(self).window_ms,
                now_ms,
            ),
            final(self).write_events@ == old(self).write_events@,
            final(self).window_ms == old(self).window_ms,
            r matches Some(v) ==> v as int == spec_total_bytes(final(self).read_events@),
            r is None ==> spec_total_bytes(final(self).read_events@) > u64::MAX,
    {
        evict_old(&mut self.read_events, self.window_ms, now_ms);
        sum_bytes(&self.read_events)
    }

    /// The timestamp of the oldest surviving write event, if any: the
    /// denominator of a write rate.
    pub fn oldest_write_at(&self) -> (r: Option<u64>)
        ensures
            r is Some <==> self.write_events@.len() > 0,
            r matches Some(t) ==> t == self.write_events@[0].0,
    {
        if self.write_events.len() == 0 {
            None
        } else {
            Some(self.write_events[0].0)
        }
    }

    /// The timestamp of the oldest surviving read event, if any.
    pub fn oldest_read_at(&self) -> (r: Option<u64>)
        ensures
            r is Some <==> self.read_events@.len() > 0,
            r matches Some(t) ==> t == self.read_events@[0].0,
    {
        if self.read_events.len() == 0 {
            None
        } else {
            Some(self.read_events[0].0)
        }
    }
}

/// Evicts the events older than the window.
fn evict_old(queue: &mut Vec<(u64, u64)>, window_ms: u64, now_ms: u64)
    ensures
        final(queue)@ == spec_kept(old(queue)@, window_ms, now_ms),
{
    loop
        invariant
            spec_kept(queue@, window_ms, now_ms) == spec_kept(old(queue)@, window_ms, now_ms),
        ensures
            queue@ == spec_kept(old(queue)@, window_ms, now_ms),
        decreases queue@.len(),
    {
        if queue.len() == 0 {
            proof {
                assert(spec_kept(queue@, window_ms, now_ms) == queue@);
            }
            break;
        }
        let head = queue[0];
        if now_ms >= head.0 && now_ms - head.0 > window_ms {
            let ghost pre = queue@;
            let _ = queue.remove(0);
            proof {
                assert(queue@ =~= pre.skip(1));
            }
        } else {
            proof {
                assert(spec_kept(queue@, window_ms, now_ms) == queue@);
            }
            break;
        }
    }
}

/// Sums the byte counts, `None` on overflow.
fn sum_bytes(queue: &Vec<(u64, u64)>) -> (r: Option<u64>)
    ensures
        r matches Some(v) ==> v as int == spec_total_bytes(queue@),
        r is None ==> spec_total_bytes(queue@) > u64::MAX,
{
    let mut total: u64 = 0;
    let n = queue.len();
    let mut i: usize = 0;
    proof {
        assert(queue@.skip(0) =~= queue@);
    }
    while i < n
        invariant
            n == queue@.len(),
            i <= n,
            total as int + spec_total_bytes(queue@.skip(i as int)) == spec_total_bytes(queue@),
        decreases n - i,
    {
        proof {
            let rest = queue@.skip(i as int);
            assert(rest[0] == queue@[i as int]);
            assert(rest.skip(1) =~= queue@.skip(i + 1));
            lemma_total_bytes_nonneg(queue@.skip(i + 1));
        }
        let b = queue[i].1;
        if total > u64::MAX - b {
            proof {
                assert(spec_total_bytes(queue@) > u64::MAX);
            }
            return None;
        }
        total = total + b;
        i = i + 1;
    }
    proof {
        assert(queue@.skip(n as int).len() == 0);
    }
    Some(total)
}

proof fn lemma_total_bytes_nonneg(q: Seq<(u64, u64)>)
    ensures
        spec_total_bytes(q) >= 0,
    decreases q.len(),
{
    if q.len() > 0 {
        lemma_total_bytes_nonneg(q.skip(1));
    }
}

} // verus!
