//! What a recording allocator keeps of the allocations that go through it.

use vstd::prelude::*;

verus! {

/// What is known of the allocations so far.
#[derive(Clone, Copy, Debug, PartialEq, Eq, Structural)]
pub struct AllocationRecord {
    /// The largest one that the thread asked for since the last reset.
    pub largest: usize,
    /// The bytes asked for. What is given back is not taken off.
    pub bytes: u64,
    /// How many there were.
    pub calls: u64,
}

/// The sum of two counters; past the largest number it starts over.
pub open spec fn counted(a: u64, b: int) -> int {
    (a + b) % 0x10000000000000000
}

impl AllocationRecord {
    /// After a request for `size` bytes that takes `growth` bytes more.
    pub open spec fn requested(self, size: usize, growth: usize) -> AllocationRecord {
        AllocationRecord {
            largest: if size > self.largest {
                size
            } else {
                self.largest
            },
            bytes: counted(self.bytes, growth as int) as u64,
            calls: counted(self.calls, 1) as u64,
        }
    }

    /// After requests, each with its size and its growth, in order.
    pub open spec fn requested_all(self, requests: Seq<(usize, usize)>) -> AllocationRecord
        decreases requests.len(),
    {
        if requests.len() == 0 {
            self
        } else {
            let last = requests.last();
            self.requested_all(requests.drop_last()).requested(last.0, last.1)
        }
    }

    /// Nothing yet.
    pub fn new() -> (r: AllocationRecord)
        ensures
            r == (AllocationRecord { largest: 0, bytes: 0, calls: 0 }),
    {
        AllocationRecord { largest: 0, bytes: 0, calls: 0 }
    }

    /// Records a request for `size` bytes that takes `growth` bytes more.
    pub fn record(&mut self, size: usize, growth: usize)
        ensures
            *final(self) == old(self).requested(size, growth),
    {
        if size > self.largest {
            self.largest = size;
        }
        self.bytes = self.bytes.wrapping_add(growth as u64);
        self.calls = self.calls.wrapping_add(1);
    }

    /// Records an allocation.
    pub fn allocated(&mut self, size: usize)
        ensures
            *final(self) == old(self).requested(size, size),
    {
        self.record(size, size);
    }

    /// Records that an allocation of `old_size` bytes became one of
    /// `new_size`: a smaller one takes nothing more.
    pub fn reallocated(&mut self, old_size: usize, new_size: usize)
        ensures
            *final(self) == old(self).requested(
                new_size,
                (if new_size > old_size {
                    new_size - old_size
                } else {
                    0
                }) as usize,
            ),
    {
        let growth: usize = if new_size > old_size {
            new_size - old_size
        } else {
            0
        };
        self.record(new_size, growth);
    }

    /// Forgets the largest allocation.
    pub fn reset_largest_allocation(&mut self)
        ensures
            *final(self) == (AllocationRecord { largest: 0, ..*old(self) }),
    {
        self.largest = 0;
    }

    /// The largest allocation since the last reset.
    pub fn largest_allocation(&self) -> (r: usize)
        ensures
            r == self.largest,
    {
        self.largest
    }

    /// The bytes and the number of all allocations.
    pub fn allocation_counters(&self) -> (r: (u64, u64))
        ensures
            r == (self.bytes, self.calls),
    {
        (self.bytes, self.calls)
    }
}

/// The bytes that requests take together.
pub open spec fn volume(requests: Seq<(usize, usize)>) -> int
    decreases requests.len(),
{
    if requests.len() == 0 {
        0
    } else {
        volume(requests.drop_last()) + requests.last().1
    }
}

/// Between two reads the counters grow by the volume and the number of the
/// requests in between, as far as they can count. After a reset the largest is
/// the size of one of the requests since then, and no request was larger.
pub proof fn counters_measure_what_lies_between(
    record: AllocationRecord,
    requests: Seq<(usize, usize)>,
)
    ensures
        ({
            let r = record.requested_all(requests);
            &&& record.bytes + volume(requests) <= u64::MAX ==> r.bytes == record.bytes + volume(
                requests,
            )
            &&& record.calls + requests.len() <= u64::MAX ==> r.calls == record.calls
                + requests.len()
            &&& record.largest == 0 ==> r.largest == 0 || exists|i: int|
                0 <= i < requests.len() && (#[trigger] requests[i]).0 == r.largest
            &&& forall|i: int| 0 <= i < requests.len() ==> (#[trigger] requests[i]).0 <= r.largest
        }),
        0 <= volume(requests),
    decreases requests.len(),
{
    if requests.len() > 0 {
        let init = requests.drop_last();
        let last = requests.last();
        counters_measure_what_lies_between(record, init);
        let r = record.requested_all(requests);
        assert(requests[requests.len() - 1] == last);
        if record.largest == 0 && r.largest != 0 {
            if last.0 != r.largest {
                let i = choose|i: int|
                    0 <= i < init.len() && (#[trigger] init[i]).0 == r.largest;
                assert(requests[i] == init[i]);
            }
        }
        assert forall|i: int| 0 <= i < requests.len() implies (#[trigger] requests[i]).0
            <= r.largest by {
            if i < init.len() {
                assert(init[i] == requests[i]);
            }
        }
    }
}

/// One request counts once, its growth is added to the bytes, and the largest request
/// is kept; a counter that is full begins again.
pub proof fn a_request_counts_once(record: AllocationRecord, size: usize, growth: usize)
    ensures
        ({
            let after = record.requested(size, growth);
            &&& after.calls == record.calls + 1 || (record.calls == u64::MAX && after.calls == 0)
            &&& record.bytes + growth <= u64::MAX ==> after.bytes == record.bytes + growth
            &&& record.bytes + growth > u64::MAX ==> after.bytes == record.bytes + growth
                - 0x1_0000_0000_0000_0000
            &&& after.largest >= size && after.largest >= record.largest
            &&& after.largest == size || after.largest == record.largest
        }),
{
}

} // verus!
