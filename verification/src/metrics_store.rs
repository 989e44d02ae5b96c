//! Metrics of the last 24 hours, one sample a second.
//!
//! Every 60 samples a summary of the last minute is due for the database.
//! Floating-point values are held by their bits.
use std::collections::VecDeque;
use vstd::prelude::*;

use crate::seqs::lemma_filter_contains;
use crate::text::same;

verus! {

/// Number of samples in 24 hours.
pub const RING_BUFFER_CAPACITY: usize = 86400;

/// Number of samples between two summaries.
pub const SAMPLES_PER_MINUTE: usize = 60;

/// One sample of the metrics.
#[derive(Clone, Copy, Debug, PartialEq, Eq, Structural)]
pub struct MetricsSample {
    /// Seconds since the epoch.
    pub timestamp: u64,
    pub cpu_percent_bits: u32,
    pub cpu_temp_c_bits: u32,
    pub memory_used_mb: u64,
    pub midi_messages_per_sec_bits: u32,
    pub midi_bytes_per_sec: u64,
    pub active_notes: u32,
    pub packet_loss_percent_bits: u32,
    pub latency_p50_ms_bits: u32,
    pub latency_p95_ms_bits: u32,
    pub latency_p99_ms_bits: u32,
    pub client_count: u32,
    pub network_tx_bytes: u64,
    pub network_rx_bytes: u64,
}

/// The sample in which everything is zero.
pub open spec fn zero_sample() -> MetricsSample {
    MetricsSample {
        timestamp: 0,
        cpu_percent_bits: 0,
        cpu_temp_c_bits: 0,
        memory_used_mb: 0,
        midi_messages_per_sec_bits: 0,
        midi_bytes_per_sec: 0,
        active_notes: 0,
        packet_loss_percent_bits: 0,
        latency_p50_ms_bits: 0,
        latency_p95_ms_bits: 0,
        latency_p99_ms_bits: 0,
        client_count: 0,
        network_tx_bytes: 0,
        network_rx_bytes: 0,
    }
}

impl Default for MetricsSample {
    fn default() -> (r: Self)
        ensures
            r == zero_sample(),
    {
        MetricsSample {
            timestamp: 0,
            cpu_percent_bits: 0,
            cpu_temp_c_bits: 0,
            memory_used_mb: 0,
            midi_messages_per_sec_bits: 0,
            midi_bytes_per_sec: 0,
            active_notes: 0,
            packet_loss_percent_bits: 0,
            latency_p50_ms_bits: 0,
            latency_p95_ms_bits: 0,
            latency_p99_ms_bits: 0,
            client_count: 0,
            network_tx_bytes: 0,
            network_rx_bytes: 0,
        }
    }
}

/// The samples in memory.
pub struct MetricsStore {
    ring_buffer: VecDeque<MetricsSample>,
    sample_counter: u32,
}

pub struct MetricsStoreView {
    /// The samples, the oldest first.
    pub samples: Seq<MetricsSample>,
    /// Number of samples since the last summary.
    pub since_summary: int,
}

impl View for MetricsStore {
    type V = MetricsStoreView;

    closed spec fn view(&self) -> MetricsStoreView {
        MetricsStoreView {
            samples: self.ring_buffer@,
            since_summary: self.sample_counter as int,
        }
    }
}

/// The buffer is not over its capacity, and no summary is overdue.
pub open spec fn wf_metrics(s: MetricsStoreView) -> bool {
    &&& s.samples.len() <= RING_BUFFER_CAPACITY
    &&& 0 <= s.since_summary < SAMPLES_PER_MINUTE
}

/// The samples with a new one; a full buffer gives up its oldest.
pub open spec fn with_sample(samples: Seq<MetricsSample>, s: MetricsSample) -> Seq<MetricsSample> {
    if samples.len() >= RING_BUFFER_CAPACITY {
        samples.drop_first().push(s)
    } else {
        samples.push(s)
    }
}

/// The last `n` entries, or all of them when there are fewer.
pub open spec fn last_n(samples: Seq<MetricsSample>, n: int) -> Seq<MetricsSample> {
    if samples.len() > n {
        samples.skip(samples.len() - n)
    } else {
        samples
    }
}

/// The samples from `from_ts` to `to_ts`, both included, in order.
pub open spec fn in_range(samples: Seq<MetricsSample>, from_ts: u64, to_ts: u64) -> Seq<
    MetricsSample,
> {
    samples.filter(|s: MetricsSample| from_ts <= s.timestamp <= to_ts)
}

/// The sum of the used memory.
pub open spec fn memory_sum(samples: Seq<MetricsSample>) -> int
    decreases samples.len(),
{
    if samples.len() == 0 {
        0
    } else {
        memory_sum(samples.drop_last()) + samples.last().memory_used_mb
    }
}

/// The sum of the MIDI byte rates.
pub open spec fn bytes_sum(samples: Seq<MetricsSample>) -> int
    decreases samples.len(),
{
    if samples.len() == 0 {
        0
    } else {
        bytes_sum(samples.drop_last()) + samples.last().midi_bytes_per_sec
    }
}

/// The whole-number part of a summary: rates and memory are averaged, the
/// rest is taken from the last sample.
#[derive(Clone, Copy, Debug, PartialEq, Eq, Structural)]
pub struct MinuteSummary {
    pub timestamp: u64,
    pub memory_used_mb: u64,
    pub midi_bytes_per_sec: u64,
    pub active_notes: u32,
    pub client_count: u32,
    pub network_tx_bytes: u64,
    pub network_rx_bytes: u64,
}

/// The summary of some samples.
pub open spec fn summary_of(samples: Seq<MetricsSample>) -> MinuteSummary {
    MinuteSummary {
        timestamp: samples.last().timestamp,
        memory_used_mb: (memory_sum(samples) / samples.len() as int) as u64,
        midi_bytes_per_sec: (bytes_sum(samples) / samples.len() as int) as u64,
        active_notes: samples.last().active_notes,
        client_count: samples.last().client_count,
        network_tx_bytes: samples.last().network_tx_bytes,
        network_rx_bytes: samples.last().network_rx_bytes,
    }
}

proof fn lemma_sums_grow(samples: Seq<MetricsSample>, i: int)
    requires
        0 <= i <= samples.len(),
    ensures
        0 <= memory_sum(samples.take(i)) <= memory_sum(samples),
        0 <= bytes_sum(samples.take(i)) <= bytes_sum(samples),
    decreases samples.len() - i,
{
    lemma_sums_nonneg(samples.take(i));
    if i < samples.len() {
        lemma_sums_grow(samples, i + 1);
        assert(samples.take(i + 1).drop_last() =~= samples.take(i));
    } else {
        assert(samples.take(i) =~= samples);
    }
}

proof fn lemma_sums_nonneg(samples: Seq<MetricsSample>)
    ensures
        0 <= memory_sum(samples),
        0 <= bytes_sum(samples),
    decreases samples.len(),
{
    if samples.len() > 0 {
        lemma_sums_nonneg(samples.drop_last());
    }
}

/// Summarizes some samples; there is no summary of none.
pub fn summarize(samples: &Vec<MetricsSample>) -> (r: Option<MinuteSummary>)
    requires
        memory_sum(samples@) <= u64::MAX,
        bytes_sum(samples@) <= u64::MAX,
    ensures
        match r {
            Some(s) => samples@.len() > 0 && s == summary_of(samples@),
            None => samples@.len() == 0,
        },
{
    let n: usize = samples.len();
    if n == 0 {
        return None;
    }
    let mut memory: u64 = 0;
    let mut bytes: u64 = 0;
    let mut i: usize = 0;
    assert(samples@.take(0) =~= Seq::<MetricsSample>::empty());
    while i < n
        invariant
            i <= n == samples@.len(),
            memory == memory_sum(samples@.take(i as int)),
            bytes == bytes_sum(samples@.take(i as int)),
            memory_sum(samples@) <= u64::MAX,
            bytes_sum(samples@) <= u64::MAX,
        decreases n - i,
    {
        proof {
            lemma_sums_grow(samples@, i + 1);
            assert(samples@.take(i + 1).drop_last() =~= samples@.take(i as int));
        }
        memory = memory + samples[i].memory_used_mb;
        bytes = bytes + samples[i].midi_bytes_per_sec;
        i += 1;
    }
    assert(samples@.take(n as int) =~= samples@);
    let last = samples[n - 1];
    assert(memory / (n as u64) == memory as int / n as int);
    assert(bytes / (n as u64) == bytes as int / n as int);
    Some(
        MinuteSummary {
            timestamp: last.timestamp,
            memory_used_mb: memory / (n as u64),
            midi_bytes_per_sec: bytes / (n as u64),
            active_notes: last.active_notes,
            client_count: last.client_count,
            network_tx_bytes: last.network_tx_bytes,
            network_rx_bytes: last.network_rx_bytes,
        },
    )
}

impl MetricsStore {
    pub fn new() -> (r: Self)
        ensures
            r@.samples == Seq::<MetricsSample>::empty(),
            r@.since_summary == 0,
            wf_metrics(r@),
    {
        MetricsStore { ring_buffer: VecDeque::new(), sample_counter: 0 }
    }

    /// Takes in a sample. The answer says whether a summary of the last minute
    /// is due, which is the case for every 60th sample.
    pub fn record(&mut self, sample: MetricsSample) -> (due: bool)
        requires
            wf_metrics(old(self)@),
        ensures
            final(self)@.samples == with_sample(old(self)@.samples, sample),
            due == (old(self)@.since_summary + 1 == SAMPLES_PER_MINUTE),
            final(self)@.since_summary == if due {
                0
            } else {
                old(self)@.since_summary + 1
            },
            wf_metrics(final(self)@),
    {
        if self.ring_buffer.len() >= RING_BUFFER_CAPACITY {
            let _oldest = self.ring_buffer.pop_front();
        }
        self.ring_buffer.push_back(sample);
        assert(self.ring_buffer@ =~= with_sample(old(self)@.samples, sample));
        self.sample_counter = self.sample_counter + 1;
        if self.sample_counter >= 60 {
            self.sample_counter = 0;
            true
        } else {
            false
        }
    }

    /// The last `count` samples, the oldest first.
    pub fn query_recent(&self, count: usize) -> (r: Vec<MetricsSample>)
        ensures
            r@ == last_n(self@.samples, count as int),
    {
        let len: usize = self.ring_buffer.len();
        let start: usize = if len > count {
            len - count
        } else {
            0
        };
        let mut r: Vec<MetricsSample> = Vec::new();
        let mut i: usize = start;
        while i < len
            invariant
                start <= i <= len,
                len == self.ring_buffer@.len(),
                r@ =~= self.ring_buffer@.subrange(start as int, i as int),
            decreases len - i,
        {
            r.push(self.ring_buffer[i]);
            i += 1;
        }
        assert(r@ =~= last_n(self@.samples, count as int));
        r
    }

    /// The samples from `from_ts` to `to_ts`, both included.
    pub fn query_range(&self, from_ts: u64, to_ts: u64) -> (r: Vec<MetricsSample>)
        ensures
            r@ == in_range(self@.samples, from_ts, to_ts),
    {
        let ghost all = self.ring_buffer@;
        let ghost keep = |s: MetricsSample| from_ts <= s.timestamp <= to_ts;
        let mut r: Vec<MetricsSample> = Vec::new();
        let mut i: usize = 0;
        assert(all.take(0).filter(keep) =~= Seq::<MetricsSample>::empty()) by {
            reveal(Seq::filter);
        }
        while i < self.ring_buffer.len()
            invariant
                i <= all.len(),
                all == self.ring_buffer@,
                keep == (|s: MetricsSample| from_ts <= s.timestamp <= to_ts),
                r@ == all.take(i as int).filter(keep),
            decreases all.len() - i,
        {
            let s: MetricsSample = self.ring_buffer[i];
            proof {
                let next = all.take(i + 1);
                assert(next.drop_last() =~= all.take(i as int));
                assert(next.last() == s);
                reveal(Seq::filter);
            }
            if from_ts <= s.timestamp && s.timestamp <= to_ts {
                r.push(s);
            }
            i += 1;
        }
        assert(all.take(i as int) =~= all);
        r
    }

    /// The newest sample.
    pub fn latest(&self) -> (r: Option<MetricsSample>)
        ensures
            match r {
                Some(s) => self@.samples.len() > 0 && s == self@.samples.last(),
                None => self@.samples.len() == 0,
            },
    {
        let len: usize = self.ring_buffer.len();
        if len == 0 {
            None
        } else {
            Some(self.ring_buffer[len - 1])
        }
    }

    /// The number of samples.
    pub fn sample_count(&self) -> (n: usize)
        ensures
            n == self@.samples.len(),
    {
        self.ring_buffer.len()
    }
}

/// A request for metrics.
pub struct MetricsQuery {
    /// Number of samples; 60 when it is absent.
    pub count: Option<usize>,
    /// `1h`, `6h`, `24h` or `7d`.
    pub range: Option<String>,
}

/// Where the answer to a request for metrics comes from.
#[derive(Clone, Copy, Debug, PartialEq, Eq, Structural)]
pub enum MetricsSource {
    /// The last samples in memory.
    Recent { count: usize },
    /// The samples in memory of a time range.
    Range { from: u64, to: u64 },
    /// The one-minute summaries of the database.
    Summaries { from: u64, to: u64 },
}

/// Length of a range in seconds; a range that is not known is an hour.
pub open spec fn range_secs(range: Seq<char>) -> u64 {
    if range == "6h"@ {
        21600
    } else if range == "24h"@ {
        86400
    } else if range == "7d"@ {
        604800
    } else {
        3600
    }
}

/// Finds out where the answer to a request at `now` comes from.
pub fn metrics_source(query: &MetricsQuery, now: u64) -> (r: MetricsSource)
    requires
        query.range matches Some(range) ==> now >= range_secs(range@),
    ensures
        r == match query.range {
            None => MetricsSource::Recent {
                count: match query.count {
                    Some(n) => n,
                    None => 60,
                },
            },
            Some(range) => if range@ == "7d"@ {
                MetricsSource::Summaries { from: (now - 604800) as u64, to: now }
            } else {
                MetricsSource::Range { from: (now - range_secs(range@)) as u64, to: now }
            },
        },
{
    match &query.range {
        None => MetricsSource::Recent { count: query.count.unwrap_or(60) },
        Some(range) => {
            let range = range.as_str();
            proof {
                reveal_strlit("1h");
                reveal_strlit("6h");
                reveal_strlit("24h");
                reveal_strlit("7d");
                assert("7d"@[0] != "6h"@[0]);
                assert("7d"@.len() != "24h"@.len());
            }
            if same(range, "7d") {
                MetricsSource::Summaries { from: now - 604800, to: now }
            } else if same(range, "6h") {
                MetricsSource::Range { from: now - 21600, to: now }
            } else if same(range, "24h") {
                MetricsSource::Range { from: now - 86400, to: now }
            } else {
                MetricsSource::Range { from: now - 3600, to: now }
            }
        },
    }
}

/// The buffer holds the newest samples in the order of their arrival: a new
/// sample is the last, and behind it stands what was there, without the oldest
/// where the buffer was full.
pub proof fn law_newest_kept(samples: Seq<MetricsSample>, s: MetricsSample)
    requires
        samples.len() <= RING_BUFFER_CAPACITY,
    ensures
        with_sample(samples, s) == last_n(samples.push(s), RING_BUFFER_CAPACITY as int),
        with_sample(samples, s).last() == s,
        with_sample(samples, s).len() <= RING_BUFFER_CAPACITY,
{
    assert(with_sample(samples, s) =~= last_n(samples.push(s), RING_BUFFER_CAPACITY as int));
}

/// A sample that is recorded is the latest one; what was there stays in its order, but
/// for the oldest sample of a full day. After sixty samples a summary is due.
pub proof fn law_recorded_sample(
    store: &mut MetricsStore,
    sample: MetricsSample,
    due: bool,
    after: MetricsStore,
    latest: Option<MetricsSample>,
    n: usize,
)
    requires
        wf_metrics(old(store)@),
        call_ensures(MetricsStore::record, (store, sample), due),
        after == *final(store),
        call_ensures(MetricsStore::latest, (&after,), latest),
        call_ensures(MetricsStore::sample_count, (&after,), n),
    ensures
        latest == Some(sample),
        old(store)@.samples.len() < 86400 ==> n == old(store)@.samples.len() + 1
            && after@.samples.drop_last() == old(store)@.samples,
        old(store)@.samples.len() == 86400 ==> n == 86400 && after@.samples.drop_last() == old(store)@.samples.skip(1),
        due <==> old(store)@.since_summary == 59,
        due ==> after@.since_summary == 0,
        !due ==> after@.since_summary == old(store)@.since_summary + 1,
{
    let b = old(store)@.samples;
    assert(after@.samples.drop_last() =~= if b.len() < 86400 {
        b
    } else {
        b.skip(1)
    });
}

/// The recent samples end with the newest one and follow each other as they came; there
/// are as many as were asked for, or all.
pub proof fn law_recent_samples(store: MetricsStore, count: usize, r: Vec<MetricsSample>, i: int)
    requires
        call_ensures(MetricsStore::query_recent, (&store, count), r),
    ensures
        r@.len() == (if count <= store@.samples.len() {
            count as nat
        } else {
            store@.samples.len()
        }),
        0 <= i < r@.len() ==> r@[r@.len() - 1 - i] == store@.samples[store@.samples.len() - 1 - i],
{
}

/// A query of a range of time finds exactly the samples of that time, both ends among it.
pub proof fn law_samples_of_a_range(
    store: MetricsStore,
    from_ts: u64,
    to_ts: u64,
    r: Vec<MetricsSample>,
    s: MetricsSample,
)
    requires
        call_ensures(MetricsStore::query_range, (&store, from_ts, to_ts), r),
    ensures
        r@.contains(s) <==> store@.samples.contains(s) && from_ts <= s.timestamp <= to_ts,
{
    let p = |s: MetricsSample| from_ts <= s.timestamp <= to_ts;
    lemma_filter_contains(store@.samples, p, s);
}

/// A sample that is recorded comes last in a query of its time, behind what the query
/// found before, and not at all in a query of another time.
pub proof fn law_range_in_order(
    store: &mut MetricsStore,
    before: MetricsStore,
    after: MetricsStore,
    sample: MetricsSample,
    due: bool,
    from_ts: u64,
    to_ts: u64,
    r: Vec<MetricsSample>,
    s: Vec<MetricsSample>,
)
    requires
        before == *old(store),
        after == *final(store),
        wf_metrics(before@),
        before@.samples.len() < 86400,
        call_ensures(MetricsStore::record, (store, sample), due),
        call_ensures(MetricsStore::query_range, (&before, from_ts, to_ts), r),
        call_ensures(MetricsStore::query_range, (&after, from_ts, to_ts), s),
    ensures
        from_ts <= sample.timestamp <= to_ts ==> s@ == r@.push(sample),
        !(from_ts <= sample.timestamp <= to_ts) ==> s@ == r@,
{
    reveal(Seq::filter);
    assert(after@.samples.drop_last() =~= before@.samples);
}

/// A store at the start holds nothing.
pub proof fn law_empty_store(store: MetricsStore, latest: Option<MetricsSample>, n: usize)
    requires
        call_ensures(MetricsStore::new, (), store),
        call_ensures(MetricsStore::latest, (&store,), latest),
        call_ensures(MetricsStore::sample_count, (&store,), n),
    ensures
        latest is None,
        n == 0,
        store@.since_summary == 0,
{
}

/// A summary of equal samples says what they say, and one of any samples takes time,
/// notes, clients and network from the last of them; its averages, times the number of
/// samples, are their sum but for a rest of less than that number.
pub proof fn law_summary(samples: Vec<MetricsSample>, r: Option<MinuteSummary>)
    requires
        call_ensures(summarize, (&samples,), r),
        memory_sum(samples@) <= u64::MAX,
        bytes_sum(samples@) <= u64::MAX,
    ensures
        r is None <==> samples@.len() == 0,
        r matches Some(s) ==> {
            let last = samples@[samples@.len() - 1];
            let n = samples@.len();
            let memory = samples@.fold_left(0int, |sum: int, x: MetricsSample| sum + x.memory_used_mb);
            let bytes = samples@.fold_left(
                0int,
                |sum: int, x: MetricsSample| sum + x.midi_bytes_per_sec,
            );
            &&& s.timestamp == last.timestamp
            &&& s.active_notes == last.active_notes
            &&& s.client_count == last.client_count
            &&& s.network_tx_bytes == last.network_tx_bytes
            &&& s.network_rx_bytes == last.network_rx_bytes
            &&& 0 <= memory - s.memory_used_mb * n < n
            &&& 0 <= bytes - s.midi_bytes_per_sec * n < n
            &&& (forall|i: int|
                0 <= i < samples@.len() ==> (#[trigger] samples@[i]).memory_used_mb
                    == last.memory_used_mb) ==> s.memory_used_mb == last.memory_used_mb
            &&& (forall|i: int|
                0 <= i < samples@.len() ==> (#[trigger] samples@[i]).midi_bytes_per_sec
                    == last.midi_bytes_per_sec) ==> s.midi_bytes_per_sec
                == last.midi_bytes_per_sec
        },
{
    if let Some(s) = r {
        let n = samples@.len() as int;
        let last = samples@[n - 1];
        lemma_sums_nonneg(samples@);
        lemma_sums(samples@);
        lemma_average(memory_sum(samples@), n);
        lemma_average(bytes_sum(samples@), n);
        if forall|i: int|
            0 <= i < samples@.len() ==> (#[trigger] samples@[i]).memory_used_mb
                == last.memory_used_mb {
            lemma_equal_memory(samples@, last.memory_used_mb);
            lemma_average_of_equals(last.memory_used_mb as int, n);
        }
        if forall|i: int|
            0 <= i < samples@.len() ==> (#[trigger] samples@[i]).midi_bytes_per_sec
                == last.midi_bytes_per_sec {
            lemma_equal_bytes(samples@, last.midi_bytes_per_sec);
            lemma_average_of_equals(last.midi_bytes_per_sec as int, n);
        }
    }
}

proof fn lemma_sums(samples: Seq<MetricsSample>)
    ensures
        memory_sum(samples) == samples.fold_left(
            0int,
            |sum: int, x: MetricsSample| sum + x.memory_used_mb,
        ),
        bytes_sum(samples) == samples.fold_left(
            0int,
            |sum: int, x: MetricsSample| sum + x.midi_bytes_per_sec,
        ),
    decreases samples.len(),
{
    if samples.len() > 0 {
        lemma_sums(samples.drop_last());
    }
}

proof fn lemma_average(sum: int, n: int)
    requires
        n > 0,
        0 <= sum <= u64::MAX,
    ensures
        0 <= sum / n <= sum,
        0 <= sum - (sum / n) * n < n,
{
    assert(0 <= sum / n <= sum && 0 <= sum - (sum / n) * n < n) by (nonlinear_arith)
        requires
            n > 0,
            0 <= sum,
    ;
}

proof fn lemma_average_of_equals(x: int, n: int)
    requires
        n > 0,
    ensures
        (x * n) / n == x,
{
    assert((x * n) / n == x) by (nonlinear_arith)
        requires
            n > 0,
    ;
}

proof fn lemma_equal_memory(samples: Seq<MetricsSample>, x: u64)
    requires
        forall|i: int| 0 <= i < samples.len() ==> (#[trigger] samples[i]).memory_used_mb == x,
    ensures
        memory_sum(samples) == x * samples.len(),
    decreases samples.len(),
{
    if samples.len() > 0 {
        let rest = samples.drop_last();
        assert forall|i: int| 0 <= i < rest.len() implies (#[trigger] rest[i]).memory_used_mb
            == x by {
            assert(rest[i] == samples[i]);
        }
        lemma_equal_memory(rest, x);
        assert(x * (samples.len() - 1) + x == x * samples.len()) by (nonlinear_arith);
    } else {
        assert(x * samples.len() == 0) by (nonlinear_arith)
            requires
                samples.len() == 0,
        ;
    }
}

proof fn lemma_equal_bytes(samples: Seq<MetricsSample>, x: u64)
    requires
        forall|i: int| 0 <= i < samples.len() ==> (#[trigger] samples[i]).midi_bytes_per_sec == x,
    ensures
        bytes_sum(samples) == x * samples.len(),
    decreases samples.len(),
{
    if samples.len() > 0 {
        let rest = samples.drop_last();
        assert forall|i: int| 0 <= i < rest.len() implies (#[trigger] rest[i]).midi_bytes_per_sec
            == x by {
            assert(rest[i] == samples[i]);
        }
        lemma_equal_bytes(rest, x);
        assert(x * (samples.len() - 1) + x == x * samples.len()) by (nonlinear_arith);
    } else {
        assert(x * samples.len() == 0) by (nonlinear_arith)
            requires
                samples.len() == 0,
        ;
    }
}

/// Where metrics come from: without a range the samples in memory, sixty where no number
/// is given; a week from the summaries, and shorter ranges from memory, each as long as
/// it says and up to now.
pub proof fn law_metrics_source(query: MetricsQuery, now: u64, r: MetricsSource)
    requires
        call_ensures(metrics_source, (&query, now), r),
        now >= 604800,
    ensures
        query.range is None ==> (r matches MetricsSource::Recent { count } && (
        query.count matches Some(n) ==> count == n) && (query.count is None ==> count == 60)),
        query.range matches Some(t) && t@ == "7d"@ ==> (r matches MetricsSource::Summaries {
            from,
            to,
        } && to == now && to - from == 7 * 24 * 3600),
        query.range matches Some(t) && t@ == "24h"@ ==> (r matches MetricsSource::Range {
            from,
            to,
        } && to == now && to - from == 24 * 3600),
        query.range matches Some(t) && t@ == "6h"@ ==> (r matches MetricsSource::Range { from, to }
            && to == now && to - from == 6 * 3600),
        query.range matches Some(t) && t@ != "7d"@ && t@ != "24h"@ && t@ != "6h"@ ==> (
        r matches MetricsSource::Range { from, to } && to == now && to - from == 3600),
{
    reveal_strlit("6h");
    reveal_strlit("24h");
    reveal_strlit("7d");
    assert("6h"@[0] != "7d"@[0] && "6h"@[0] != "24h"@[0] && "24h"@[0] != "7d"@[0]);
}

/// A sample without a measurement is zero in everything.
pub proof fn law_zero_sample(s: MetricsSample)
    requires
        call_ensures(MetricsSample::default, (), s),
    ensures
        s.timestamp == 0 && s.cpu_percent_bits == 0 && s.cpu_temp_c_bits == 0 && s.memory_used_mb
            == 0 && s.midi_messages_per_sec_bits == 0 && s.midi_bytes_per_sec == 0
            && s.active_notes == 0,
        s.packet_loss_percent_bits == 0 && s.latency_p50_ms_bits == 0 && s.latency_p95_ms_bits == 0
            && s.latency_p99_ms_bits == 0 && s.client_count == 0 && s.network_tx_bytes == 0
            && s.network_rx_bytes == 0,
{
}

} // verus!
