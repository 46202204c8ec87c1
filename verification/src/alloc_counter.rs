//! Bookkeeping over the heap: what was asked for, what was given back, the
//! most that was ever live, and a histogram of sizes.

use vstd::prelude::*;

verus! {

/// Size classes: powers of two from 16 bytes up, and one for all the rest.
pub const BUCKET_COUNT: usize = 16;

/// The largest size of each class, in bytes.
pub const BUCKET_BOUNDS: [usize; 16] = [
    16,
    32,
    64,
    128,
    256,
    512,
    1_024,
    2_048,
    4_096,
    8_192,
    16_384,
    32_768,
    65_536,
    262_144,
    1_048_576,
    usize::MAX,
];

/// How the log names each class.
pub const BUCKET_LABELS: [&'static str; 16] = [
    "≤16B",
    "≤32B",
    "≤64B",
    "≤128B",
    "≤256B",
    "≤512B",
    "≤1KB",
    "≤2KB",
    "≤4KB",
    "≤8KB",
    "≤16KB",
    "≤32KB",
    "≤64KB",
    "≤256KB",
    "≤1MB",
    ">1MB",
];

/// The class of a size: the first whose bound it does not exceed.
pub open spec fn is_bucket_of(size: usize, i: int) -> bool {
    &&& 0 <= i < BUCKET_COUNT
    &&& size <= BUCKET_BOUNDS[i]
    &&& forall|j: int| 0 <= j < i ==> size > #[trigger] BUCKET_BOUNDS[j]
}

pub fn bucket_for(size: usize) -> (r: usize)
    ensures
        is_bucket_of(size, r as int),
{
    let mut i: usize = 0;
    while i < BUCKET_COUNT - 1
        invariant
            i <= BUCKET_COUNT - 1,
            forall|j: int| 0 <= j < i ==> size > #[trigger] BUCKET_BOUNDS[j],
        decreases BUCKET_COUNT - i,
    {
        if size <= BUCKET_BOUNDS[i] {
            return i;
        }
        i += 1;
    }
    i
}

/// The allocator underneath, by name.
pub open spec fn inner_name(mimalloc: bool, windows: bool) -> Seq<char> {
    if mimalloc {
        "mimalloc"@
    } else if windows {
        "system (HeapAlloc)"@
    } else {
        "system (libc malloc)"@
    }
}

pub fn inner_allocator_name(mimalloc: bool, windows: bool) -> (r: &'static str)
    ensures
        r@ == inner_name(mimalloc, windows),
{
    if mimalloc {
        "mimalloc"
    } else if windows {
        "system (HeapAlloc)"
    } else {
        "system (libc malloc)"
    }
}

/// The counters.
#[verifier::ext_equal]
pub struct HeapView {
    /// Bytes ever asked for.
    pub allocated: u64,
    /// Bytes ever given back.
    pub deallocated: u64,
    /// The most bytes that were live at once.
    pub peak_live: u64,
    /// Allocations ever made, by size class.
    pub total: Seq<u64>,
    /// Allocations that are live, by size class.
    pub live: Seq<u64>,
}

/// Bytes that are live.
pub open spec fn live_of(v: HeapView) -> u64 {
    if v.allocated > v.deallocated {
        (v.allocated - v.deallocated) as u64
    } else {
        0
    }
}

/// A counter that went up by one. It starts over when it runs full.
pub open spec fn up(n: u64) -> u64 {
    if n == u64::MAX {
        0
    } else {
        (n + 1) as u64
    }
}

/// A counter that went down by one. Below zero it starts over from the top.
pub open spec fn down(n: u64) -> u64 {
    if n == 0 {
        u64::MAX
    } else {
        (n - 1) as u64
    }
}

/// A counter of bytes that went up.
pub open spec fn added(n: u64, size: int) -> u64 {
    ((n + size) % (u64::MAX + 1)) as u64
}

/// The counters after an allocation of a size in class `i`.
pub open spec fn after_alloc(v: HeapView, size: usize, i: int) -> HeapView {
    let grown = HeapView { allocated: added(v.allocated, size as int), ..v };
    HeapView {
        peak_live: if live_of(grown) > v.peak_live {
            live_of(grown)
        } else {
            v.peak_live
        },
        total: v.total.update(i, up(v.total[i])),
        live: v.live.update(i, up(v.live[i])),
        ..grown
    }
}

/// The counters after an allocation of a size in class `i` is given back.
pub open spec fn after_dealloc(v: HeapView, size: usize, i: int) -> HeapView {
    HeapView {
        deallocated: added(v.deallocated, size as int),
        live: v.live.update(i, down(v.live[i])),
        ..v
    }
}

/// Counters that nothing was counted into yet.
pub open spec fn no_heap() -> HeapView {
    HeapView {
        allocated: 0,
        deallocated: 0,
        peak_live: 0,
        total: Seq::new(16, |i: int| 0u64),
        live: Seq::new(16, |i: int| 0u64),
    }
}

/// Counts what an allocator does.
#[derive(Clone, Copy, Debug)]
pub struct CountingAllocator {
    allocated: u64,
    deallocated: u64,
    peak_live: u64,
    total: [u64; 16],
    live: [u64; 16],
}

impl View for CountingAllocator {
    type V = HeapView;

    closed spec fn view(&self) -> HeapView {
        HeapView {
            allocated: self.allocated,
            deallocated: self.deallocated,
            peak_live: self.peak_live,
            total: self.total@,
            live: self.live@,
        }
    }
}

impl CountingAllocator {
    pub fn new() -> (r: Self)
        ensures
            r@ == no_heap(),
    {
        let r = CountingAllocator {
            allocated: 0,
            deallocated: 0,
            peak_live: 0,
            total: [0u64; 16],
            live: [0u64; 16],
        };
        assert(r@.total =~= Seq::new(16, |i: int| 0u64));
        assert(r@.live =~= Seq::new(16, |i: int| 0u64));
        r
    }

    /// An allocation was made.
    pub fn count_alloc(&mut self, size: usize)
        ensures
            exists|i: int| #[trigger]
                is_bucket_of(size, i) && final(self)@ == after_alloc(old(self)@, size, i),
    {
        let ghost before = self@;
        self.allocated = self.allocated.wrapping_add(size as u64);
        let live_now: u64 = self.allocated.saturating_sub(self.deallocated);
        if live_now > self.peak_live {
            self.peak_live = live_now;
        }
        let bucket: usize = bucket_for(size);
        self.total[bucket] = self.total[bucket].wrapping_add(1);
        self.live[bucket] = self.live[bucket].wrapping_add(1);
        assert(self@ =~= after_alloc(before, size, bucket as int));
    }

    /// An allocation was given back.
    pub fn count_dealloc(&mut self, size: usize)
        ensures
            exists|i: int| #[trigger]
                is_bucket_of(size, i) && final(self)@ == after_dealloc(old(self)@, size, i),
    {
        let ghost before = self@;
        self.deallocated = self.deallocated.wrapping_add(size as u64);
        let bucket: usize = bucket_for(size);
        self.live[bucket] = self.live[bucket].wrapping_sub(1);
        assert(self@ =~= after_dealloc(before, size, bucket as int));
    }
}

/// Bytes ever asked for.
pub fn total_allocated(heap: &CountingAllocator) -> (r: u64)
    ensures
        r == heap@.allocated,
{
    heap.allocated
}

/// Bytes ever given back.
pub fn total_deallocated(heap: &CountingAllocator) -> (r: u64)
    ensures
        r == heap@.deallocated,
{
    heap.deallocated
}

/// Bytes that are live.
pub fn live_bytes(heap: &CountingAllocator) -> (r: u64)
    ensures
        r == live_of(heap@),
{
    heap.allocated.saturating_sub(heap.deallocated)
}

/// The most bytes that were live at once.
pub fn peak_live_bytes(heap: &CountingAllocator) -> (r: u64)
    ensures
        r == heap@.peak_live,
{
    heap.peak_live
}

/// Allocations that are live, by size class.
pub fn live_counts_by_bucket(heap: &CountingAllocator) -> (r: [u64; 16])
    ensures
        r@ == heap@.live,
{
    heap.live
}

/// Allocations ever made, by size class.
pub fn total_allocs_by_bucket(heap: &CountingAllocator) -> (r: [u64; 16])
    ensures
        r@ == heap@.total,
{
    heap.total
}

/// A size has one class.
pub proof fn bucket_is_unique(size: usize, i: int, j: int)
    requires
        is_bucket_of(size, i),
        is_bucket_of(size, j),
    ensures
        i == j,
{
    if i < j {
        assert(size > BUCKET_BOUNDS[i]);
    }
    if j < i {
        assert(size > BUCKET_BOUNDS[j]);
    }
}

/// What is allocated and given back leaves no trace among what is live, while
/// the totals remember it.
pub proof fn giving_back_balances(v: HeapView, size: usize, i: int)
    requires
        is_bucket_of(size, i),
        v.live.len() == BUCKET_COUNT,
        v.total.len() == BUCKET_COUNT,
        v.deallocated <= v.allocated,
        v.allocated + size <= u64::MAX,
    ensures
        ({
            let after = after_dealloc(after_alloc(v, size, i), size, i);
            &&& live_of(after) == live_of(v)
            &&& after.live == v.live
            &&& after.total == v.total.update(i, up(v.total[i]))
        }),
{
    let after = after_dealloc(after_alloc(v, size, i), size, i);
    assert(down(up(v.live[i])) == v.live[i]);
    assert(after.live =~= v.live);
}

/// Something that the allocator was asked for: an allocation, or its return, of
/// a size in a class.
pub struct HeapCall {
    pub allocates: bool,
    pub size: usize,
    pub class: int,
}

/// The counters after these calls.
pub open spec fn heap_after(calls: Seq<HeapCall>) -> HeapView
    decreases calls.len(),
{
    if calls.len() == 0 {
        no_heap()
    } else {
        let before = heap_after(calls.drop_last());
        let call = calls.last();
        if call.allocates {
            after_alloc(before, call.size, call.class)
        } else {
            after_dealloc(before, call.size, call.class)
        }
    }
}

/// The bytes that these calls allocated, or gave back.
pub open spec fn bytes_of(calls: Seq<HeapCall>, allocates: bool) -> int
    decreases calls.len(),
{
    if calls.len() == 0 {
        0
    } else {
        bytes_of(calls.drop_last(), allocates) + (if calls.last().allocates == allocates {
            calls.last().size as int
        } else {
            0
        })
    }
}

/// The bytes that are live after the first `k` calls.
pub open spec fn live_at(calls: Seq<HeapCall>, k: int) -> int {
    bytes_of(calls.take(k), true) - bytes_of(calls.take(k), false)
}

/// The peak is the most that was ever live: as long as the counters do not run
/// full and nothing is given back that was not allocated, what is live is the
/// difference of what was allocated and given back, and the peak is the largest
/// such difference since the start.
pub proof fn peak_is_the_most_ever_live(calls: Seq<HeapCall>)
    requires
        bytes_of(calls, true) <= u64::MAX,
        forall|k: int| 0 <= k <= calls.len() ==> #[trigger] live_at(calls, k) >= 0,
    ensures
        live_of(heap_after(calls)) == live_at(calls, calls.len() as int),
        forall|k: int|
            0 <= k <= calls.len() ==> #[trigger] live_at(calls, k) <= heap_after(calls).peak_live,
        exists|k: int|
            0 <= k <= calls.len() && #[trigger] live_at(calls, k) == heap_after(calls).peak_live,
        heap_after(calls).allocated == bytes_of(calls, true),
        heap_after(calls).deallocated == bytes_of(calls, false),
    decreases calls.len(),
{
    let n = calls.len() as int;
    assert(calls.take(n) =~= calls);
    assert(live_at(calls, n) >= 0);
    if n == 0 {
        assert(live_at(calls, 0) == heap_after(calls).peak_live);
    } else {
        let before = calls.drop_last();
        assert forall|k: int| 0 <= k <= before.len() implies #[trigger] live_at(before, k)
            == live_at(calls, k) by {
            assert(before.take(k) =~= calls.take(k));
        }
        assert forall|k: int| 0 <= k <= before.len() implies #[trigger] live_at(before, k)
            >= 0 by {
            assert(live_at(calls, k) >= 0);
        }
        lemma_bytes_add_up(before);
        peak_is_the_most_ever_live(before);
        let peak = heap_after(before).peak_live;
        let at = choose|k: int| 0 <= k <= before.len() && #[trigger] live_at(before, k) == peak;
        assert(live_at(calls, at) == peak);
        assert forall|k: int| 0 <= k <= n implies #[trigger] live_at(calls, k) <= heap_after(
            calls,
        ).peak_live by {
            if k < n {
                assert(live_at(before, k) == live_at(calls, k));
            } else {
                assert(live_at(before, n - 1) <= peak);
            }
        }
        if heap_after(calls).peak_live == peak {
            assert(live_at(calls, at) == heap_after(calls).peak_live);
        } else {
            assert(live_at(calls, n) == heap_after(calls).peak_live);
        }
    }
}

proof fn lemma_bytes_add_up(calls: Seq<HeapCall>)
    ensures
        bytes_of(calls, true) >= 0,
        bytes_of(calls, false) >= 0,
    decreases calls.len(),
{
    if calls.len() > 0 {
        lemma_bytes_add_up(calls.drop_last());
    }
}

/// The peak is never below what is live, and never falls.
pub proof fn peak_bounds_live(v: HeapView, size: usize, i: int)
    requires
        is_bucket_of(size, i),
        live_of(v) <= v.peak_live,
        v.deallocated + size <= u64::MAX,
    ensures
        live_of(after_alloc(v, size, i)) <= after_alloc(v, size, i).peak_live,
        after_alloc(v, size, i).peak_live >= v.peak_live,
        live_of(after_dealloc(v, size, i)) <= after_dealloc(v, size, i).peak_live,
        after_dealloc(v, size, i).peak_live == v.peak_live,
{
}

/// An allocation counts once in its class, and no other class changes; giving
/// it back takes it off what is live there and off no total.
pub proof fn classes_are_counted_apart(v: HeapView, size: usize, i: int, j: int)
    requires
        is_bucket_of(size, i),
        0 <= j < BUCKET_COUNT,
        v.live.len() == BUCKET_COUNT,
        v.total.len() == BUCKET_COUNT,
        v.live[i] < u64::MAX,
        v.total[i] < u64::MAX,
    ensures
        ({
            let grown = after_alloc(v, size, i);
            let one: int = if i == j {
                1
            } else {
                0
            };
            &&& grown.total[j] == v.total[j] + one
            &&& grown.live[j] == v.live[j] + one
            &&& v.allocated + size <= u64::MAX ==> grown.allocated == v.allocated + size
            &&& grown.deallocated == v.deallocated
        }),
        ({
            let back = after_dealloc(v, size, i);
            let one: int = if i == j {
                1
            } else {
                0
            };
            &&& back.total == v.total
            &&& v.live[i] > 0 ==> back.live[j] == v.live[j] - one
            &&& v.deallocated + size <= u64::MAX ==> back.deallocated == v.deallocated + size
            &&& back.allocated == v.allocated
        }),
{
}

/// The classes go by the size: sixteen bytes and less are in the first, and more
/// than a mebibyte in the last.
pub proof fn classes_go_by_size(size: usize)
    ensures
        is_bucket_of(size, 0) <==> size <= 16,
        is_bucket_of(size, 6) <==> 512 < size <= 1_024,
        is_bucket_of(size, 15) <==> size > 1_048_576,
{
    let b = BUCKET_BOUNDS;
    assert(b[0] == 16 && b[1] == 32 && b[2] == 64 && b[3] == 128 && b[4] == 256 && b[5] == 512);
    assert(b[6] == 1_024 && b[7] == 2_048 && b[8] == 4_096 && b[9] == 8_192 && b[10] == 16_384);
    assert(b[11] == 32_768 && b[12] == 65_536 && b[13] == 262_144 && b[14] == 1_048_576);
    assert(b[15] == usize::MAX);
}

} // verus!
