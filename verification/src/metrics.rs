//! The numbers that the debug panel shows.

use vstd::prelude::*;
use crate::alloc_counter;
use crate::alloc_counter::CountingAllocator;
use crate::context_meter::ContextGauge;
use crate::sse::TokenUsage;

verus! {

/// Every number, and who answered last.
pub struct Metrics {
    pub callback_samples: u64,
    pub callback_p50_us: u64,
    pub callback_p95_us: u64,
    pub callback_p99_us: u64,
    pub callback_p999_us: u64,
    pub last_stt_ms: u64,
    pub last_llm_ms: u64,
    /// Time to the first token of the last answer.
    pub last_llm_ttft_ms: u64,
    pub last_vision_ms: u64,
    /// Who answered last.
    pub last_provider: String,
    pub transcript_chars: u64,
    pub transcript_lines: u64,
    /// When the interview state was last refreshed, or 0.
    pub state_epoch_s: u64,
    pub agent_prompt_tokens: u64,
    pub agent_cached_tokens: u64,
    pub agent_completion_tokens: u64,
    /// The local count of the transcript when `agent_prompt_tokens` came.
    pub agent_anchor_line_tokens: u64,
    pub context_used_tokens: u64,
    pub context_pending_tokens: u64,
    pub context_window_tokens: u64,
    /// What the whole session has spent.
    pub total_prompt_tokens: u64,
    pub total_cached_tokens: u64,
    pub total_completion_tokens: u64,
    pub heap_live_bytes: u64,
    pub heap_total_allocated_bytes: u64,
    pub heap_peak_live_bytes: u64,
    pub heap_buckets_live: [u64; 16],
    pub heap_buckets_total: [u64; 16],
}

/// The numbers at one moment, for the panel.
pub struct MetricsSnapshot {
    pub callback_samples: u64,
    pub callback_p50_us: u64,
    pub callback_p95_us: u64,
    pub callback_p99_us: u64,
    pub callback_p999_us: u64,
    pub last_stt_ms: u64,
    pub last_llm_ms: u64,
    pub last_llm_ttft_ms: u64,
    pub last_vision_ms: u64,
    pub last_provider: String,
    pub transcript_chars: u64,
    pub transcript_lines: u64,
    pub state_epoch_s: u64,
    pub agent_prompt_tokens: u64,
    pub agent_cached_tokens: u64,
    pub agent_completion_tokens: u64,
    pub context_used_tokens: u64,
    pub context_pending_tokens: u64,
    pub context_window_tokens: u64,
    pub total_prompt_tokens: u64,
    pub total_cached_tokens: u64,
    pub total_completion_tokens: u64,
    pub heap_live_bytes: u64,
    pub heap_total_allocated_bytes: u64,
    pub heap_peak_live_bytes: u64,
    pub heap_buckets_live: [u64; 16],
    pub heap_buckets_total: [u64; 16],
    pub counting_alloc_enabled: bool,
    pub allocator_name: &'static str,
}

/// How the program was built, as far as its allocator goes.
#[derive(Clone, Copy, Debug, PartialEq, Eq, Structural)]
pub struct AllocatorBuild {
    pub dhat: bool,
    pub counting: bool,
    pub mimalloc: bool,
    pub debug: bool,
    pub windows: bool,
}

/// The allocator that a build runs on, by name.
pub open spec fn allocator_of(b: AllocatorBuild) -> Seq<char> {
    if b.dhat {
        "dhat"@
    } else if b.counting {
        alloc_counter::inner_name(b.mimalloc, b.windows)
    } else if b.mimalloc {
        "mimalloc"@
    } else if b.debug {
        "assert_no_alloc (debug)"@
    } else if b.windows {
        "system (HeapAlloc)"@
    } else {
        "system"@
    }
}

pub fn active_allocator_name(b: AllocatorBuild) -> (r: &'static str)
    ensures
        r@ == allocator_of(b),
{
    if b.dhat {
        "dhat"
    } else if b.counting {
        alloc_counter::inner_allocator_name(b.mimalloc, b.windows)
    } else if b.mimalloc {
        "mimalloc"
    } else if b.debug {
        "assert_no_alloc (debug)"
    } else if b.windows {
        "system (HeapAlloc)"
    } else {
        "system"
    }
}

/// Numbers that nothing was counted into yet.
pub open spec fn zeroed(m: Metrics) -> bool {
    &&& m.last_provider@ == Seq::<char>::empty()
    &&& m.heap_buckets_live@ == Seq::new(16, |i: int| 0u64)
    &&& m.heap_buckets_total@ == Seq::new(16, |i: int| 0u64)
    &&& m == (Metrics {
        callback_samples: 0,
        callback_p50_us: 0,
        callback_p95_us: 0,
        callback_p99_us: 0,
        callback_p999_us: 0,
        last_stt_ms: 0,
        last_llm_ms: 0,
        last_llm_ttft_ms: 0,
        last_vision_ms: 0,
        last_provider: m.last_provider,
        transcript_chars: 0,
        transcript_lines: 0,
        state_epoch_s: 0,
        agent_prompt_tokens: 0,
        agent_cached_tokens: 0,
        agent_completion_tokens: 0,
        agent_anchor_line_tokens: 0,
        context_used_tokens: 0,
        context_pending_tokens: 0,
        context_window_tokens: 0,
        total_prompt_tokens: 0,
        total_cached_tokens: 0,
        total_completion_tokens: 0,
        heap_live_bytes: 0,
        heap_total_allocated_bytes: 0,
        heap_peak_live_bytes: 0,
        heap_buckets_live: m.heap_buckets_live,
        heap_buckets_total: m.heap_buckets_total,
    })
}

impl Default for Metrics {
    fn default() -> (r: Self)
        ensures
            zeroed(r),
    {
        let r = Metrics {
            callback_samples: 0,
            callback_p50_us: 0,
            callback_p95_us: 0,
            callback_p99_us: 0,
            callback_p999_us: 0,
            last_stt_ms: 0,
            last_llm_ms: 0,
            last_llm_ttft_ms: 0,
            last_vision_ms: 0,
            last_provider: String::new(),
            transcript_chars: 0,
            transcript_lines: 0,
            state_epoch_s: 0,
            agent_prompt_tokens: 0,
            agent_cached_tokens: 0,
            agent_completion_tokens: 0,
            agent_anchor_line_tokens: 0,
            context_used_tokens: 0,
            context_pending_tokens: 0,
            context_window_tokens: 0,
            total_prompt_tokens: 0,
            total_cached_tokens: 0,
            total_completion_tokens: 0,
            heap_live_bytes: 0,
            heap_total_allocated_bytes: 0,
            heap_peak_live_bytes: 0,
            heap_buckets_live: [0u64; 16],
            heap_buckets_total: [0u64; 16],
        };
        assert(r.last_provider@ =~= Seq::<char>::empty());
        assert(r.heap_buckets_live@ =~= Seq::new(16, |i: int| 0u64));
        assert(r.heap_buckets_total@ =~= Seq::new(16, |i: int| 0u64));
        r
    }
}

/// The sum of two counters, which start over when they run full.
pub open spec fn spent(a: u64, b: u64) -> u64 {
    ((a + b) % (u64::MAX + 1)) as u64
}

impl Metrics {
    /// Adds one call's tokens to what the session has spent.
    pub fn add_spend(&mut self, usage: TokenUsage)
        ensures
            *final(self) == (Metrics {
                total_prompt_tokens: spent(old(self).total_prompt_tokens, usage.prompt),
                total_cached_tokens: spent(old(self).total_cached_tokens, usage.cached),
                total_completion_tokens: spent(old(self).total_completion_tokens, usage.completion),
                ..*old(self)
            }),
    {
        self.total_prompt_tokens = self.total_prompt_tokens.wrapping_add(usage.prompt);
        self.total_cached_tokens = self.total_cached_tokens.wrapping_add(usage.cached);
        self.total_completion_tokens = self.total_completion_tokens.wrapping_add(usage.completion);
    }

    /// Takes over the heap's counters.
    pub fn refresh_heap(&mut self, heap: &CountingAllocator)
        ensures
            final(self).heap_live_bytes == alloc_counter::live_of(heap@),
            final(self).heap_total_allocated_bytes == heap@.allocated,
            final(self).heap_peak_live_bytes == heap@.peak_live,
            final(self).heap_buckets_live@ == heap@.live,
            final(self).heap_buckets_total@ == heap@.total,
            *final(self) == (Metrics {
                heap_live_bytes: final(self).heap_live_bytes,
                heap_total_allocated_bytes: final(self).heap_total_allocated_bytes,
                heap_peak_live_bytes: final(self).heap_peak_live_bytes,
                heap_buckets_live: final(self).heap_buckets_live,
                heap_buckets_total: final(self).heap_buckets_total,
                ..*old(self)
            }),
    {
        self.heap_live_bytes = alloc_counter::live_bytes(heap);
        self.heap_total_allocated_bytes = alloc_counter::total_allocated(heap);
        self.heap_peak_live_bytes = alloc_counter::peak_live_bytes(heap);
        self.heap_buckets_live = alloc_counter::live_counts_by_bucket(heap);
        self.heap_buckets_total = alloc_counter::total_allocs_by_bucket(heap);
    }

    /// Takes over a reading of the context meter.
    pub fn refresh_context(&mut self, gauge: ContextGauge)
        ensures
            *final(self) == (Metrics {
                context_used_tokens: gauge.used,
                context_pending_tokens: gauge.pending,
                context_window_tokens: gauge.window,
                ..*old(self)
            }),
    {
        self.context_used_tokens = gauge.used;
        self.context_pending_tokens = gauge.pending;
        self.context_window_tokens = gauge.window;
    }

    /// A line was added to the transcript, which now holds `chars_total` bytes.
    pub fn line_added(&mut self, chars_total: u64)
        ensures
            *final(self) == (Metrics {
                transcript_chars: chars_total,
                transcript_lines: spent(old(self).transcript_lines, 1),
                ..*old(self)
            }),
    {
        self.transcript_chars = chars_total;
        self.transcript_lines = self.transcript_lines.wrapping_add(1);
    }

    /// The numbers at this moment.
    pub fn snapshot(&self, build: AllocatorBuild) -> (r: MetricsSnapshot)
        ensures
            r.callback_samples == self.callback_samples,
            r.callback_p50_us == self.callback_p50_us,
            r.callback_p95_us == self.callback_p95_us,
            r.callback_p99_us == self.callback_p99_us,
            r.callback_p999_us == self.callback_p999_us,
            r.last_stt_ms == self.last_stt_ms,
            r.last_llm_ms == self.last_llm_ms,
            r.last_llm_ttft_ms == self.last_llm_ttft_ms,
            r.last_vision_ms == self.last_vision_ms,
            r.last_provider@ == self.last_provider@,
            r.transcript_chars == self.transcript_chars,
            r.transcript_lines == self.transcript_lines,
            r.state_epoch_s == self.state_epoch_s,
            r.agent_prompt_tokens == self.agent_prompt_tokens,
            r.agent_cached_tokens == self.agent_cached_tokens,
            r.agent_completion_tokens == self.agent_completion_tokens,
            r.context_used_tokens == self.context_used_tokens,
            r.context_pending_tokens == self.context_pending_tokens,
            r.context_window_tokens == self.context_window_tokens,
            r.total_prompt_tokens == self.total_prompt_tokens,
            r.total_cached_tokens == self.total_cached_tokens,
            r.total_completion_tokens == self.total_completion_tokens,
            r.heap_live_bytes == self.heap_live_bytes,
            r.heap_total_allocated_bytes == self.heap_total_allocated_bytes,
            r.heap_peak_live_bytes == self.heap_peak_live_bytes,
            r.heap_buckets_live == self.heap_buckets_live,
            r.heap_buckets_total == self.heap_buckets_total,
            r.counting_alloc_enabled == build.counting,
            r.allocator_name@ == allocator_of(build),
    {
        MetricsSnapshot {
            callback_samples: self.callback_samples,
            callback_p50_us: self.callback_p50_us,
            callback_p95_us: self.callback_p95_us,
            callback_p99_us: self.callback_p99_us,
            callback_p999_us: self.callback_p999_us,
            last_stt_ms: self.last_stt_ms,
            last_llm_ms: self.last_llm_ms,
            last_llm_ttft_ms: self.last_llm_ttft_ms,
            last_vision_ms: self.last_vision_ms,
            last_provider: self.last_provider.clone(),
            transcript_chars: self.transcript_chars,
            transcript_lines: self.transcript_lines,
            state_epoch_s: self.state_epoch_s,
            agent_prompt_tokens: self.agent_prompt_tokens,
            agent_cached_tokens: self.agent_cached_tokens,
            agent_completion_tokens: self.agent_completion_tokens,
            context_used_tokens: self.context_used_tokens,
            context_pending_tokens: self.context_pending_tokens,
            context_window_tokens: self.context_window_tokens,
            total_prompt_tokens: self.total_prompt_tokens,
            total_cached_tokens: self.total_cached_tokens,
            total_completion_tokens: self.total_completion_tokens,
            heap_live_bytes: self.heap_live_bytes,
            heap_total_allocated_bytes: self.heap_total_allocated_bytes,
            heap_peak_live_bytes: self.heap_peak_live_bytes,
            heap_buckets_live: self.heap_buckets_live,
            heap_buckets_total: self.heap_buckets_total,
            counting_alloc_enabled: build.counting,
            allocator_name: active_allocator_name(build),
        }
    }
}

/// Whether the heap is logged on this tick of the panel: on every fifth.
pub fn heap_log_due(ticks: u64) -> (r: bool)
    ensures
        r == (ticks % 5 == 0),
{
    ticks % 5 == 0
}

/// What is spent adds up, as long as it can be counted.
pub proof fn spending_adds_up(a: u64, b: u64)
    requires
        a + b <= u64::MAX,
    ensures
        spent(a, b) == a + b,
{
}

/// The allocator that is named is the one in use: the profiler before all, then
/// the one under the counter, then the one chosen for the build.
pub proof fn the_allocator_in_use_is_named(b: AllocatorBuild)
    ensures
        b.dhat ==> allocator_of(b) == "dhat"@,
        !b.dhat && b.mimalloc ==> allocator_of(b) == "mimalloc"@,
        !b.dhat && !b.mimalloc && b.counting ==> allocator_of(b) == (if b.windows {
            "system (HeapAlloc)"@
        } else {
            "system (libc malloc)"@
        }),
        !b.dhat && !b.mimalloc && !b.counting && b.debug ==> allocator_of(b)
            == "assert_no_alloc (debug)"@,
        !b.dhat && !b.mimalloc && !b.counting && !b.debug ==> allocator_of(b) == (if b.windows {
            "system (HeapAlloc)"@
        } else {
            "system"@
        }),
{
}

} // verus!
