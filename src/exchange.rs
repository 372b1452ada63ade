use vstd::prelude::*;
use vstd::utf8::{decode_utf8, valid_utf8};
use crate::geometry::Rect;
use crate::session::Detection;

verus! {

/// Bytes in each text buffer handed to the engine.
pub const TEXT_CAPACITY: usize = 20;

/// Why a buffer array could not be allocated.
#[derive(Debug, Clone, Copy, PartialEq, Eq, Structural)]
pub enum AllocationError {
    /// The outer array of buffer addresses could not be allocated.
    Outer,
    /// Buffer `index` could not be allocated; the `index` buffers before it
    /// were handed back for release.
    Inner { index: usize },
}

/// Addresses to free, inner buffers first and the outer array last.
#[derive(Debug, Clone, PartialEq, Eq)]
pub struct ReleasePlan {
    pub inner: Vec<usize>,
    pub outer: usize,
}

/// A fully allocated array of `n` text buffers: the outer array's address and
/// the address of each buffer, none of them zero.
#[derive(Debug)]
pub struct BufferArray {
    outer: usize,
    slots: Vec<usize>,
}

/// An array of text buffers being allocated one buffer at a time.
#[derive(Debug)]
pub struct ArrayAllocation {
    requested: usize,
    outer: usize,
    slots: Vec<usize>,
}

/// What to do after one buffer allocation was attempted.
#[derive(Debug)]
pub enum AllocProgress {
    /// Allocate the next buffer.
    NeedMore(ArrayAllocation),
    /// All buffers are allocated.
    Complete(BufferArray),
    /// An allocation failed: free what the plan lists, then report the error.
    Failed(ReleasePlan, AllocationError),
}

/// No address in `s` is zero.
pub open spec fn all_nonzero(s: Seq<usize>) -> bool {
    forall|i: int| 0 <= i < s.len() ==> s[i] != 0
}

impl BufferArray {
    pub closed spec fn spec_outer(&self) -> usize {
        self.outer
    }

    pub closed spec fn spec_slots(&self) -> Seq<usize> {
        self.slots@
    }

    pub closed spec fn wf(&self) -> bool {
        self.outer != 0 && all_nonzero(self.slots@)
    }

    /// The address of the outer array.
    pub fn outer(&self) -> (r: usize)
        ensures
            r == self.spec_outer(),
    {
        self.outer
    }

    /// Number of buffers.
    pub fn len(&self) -> (r: usize)
        ensures
            r == self.spec_slots().len(),
    {
        self.slots.len()
    }

    /// The address of buffer `i`.
    pub fn slot(&self, i: usize) -> (r: usize)
        requires
            i < self.spec_slots().len(),
        ensures
            r == self.spec_slots()[i as int],
    {
        self.slots[i]
    }

    /// Gives the array up: every buffer, then the outer array, is to be freed.
    pub fn release(self) -> (r: ReleasePlan)
        ensures
            r.inner@ == self.spec_slots(),
            r.outer == self.spec_outer(),
    {
        ReleasePlan { inner: self.slots, outer: self.outer }
    }
}

impl ArrayAllocation {
    pub closed spec fn spec_requested(&self) -> usize {
        self.requested
    }

    pub closed spec fn spec_outer(&self) -> usize {
        self.outer
    }

    /// The buffers granted so far, in order.
    pub closed spec fn spec_slots(&self) -> Seq<usize> {
        self.slots@
    }

    pub closed spec fn wf(&self) -> bool {
        &&& self.outer != 0
        &&& all_nonzero(self.slots@)
        &&& self.slots@.len() < self.requested
    }

    /// Starts allocating `requested` buffers once the outer array was
    /// requested at address `outer` (zero: that allocation failed). With no
    /// buffer to allocate the array is complete at once.
    pub fn begin(requested: usize, outer: usize) -> (r: Result<AllocProgress, AllocationError>)
        ensures
            outer == 0 ==> r == Err::<AllocProgress, AllocationError>(AllocationError::Outer),
            outer != 0 && requested == 0 ==> (r matches Ok(AllocProgress::Complete(a))
                && a.wf() && a.spec_outer() == outer && a.spec_slots().len() == 0),
            outer != 0 && requested > 0 ==> (r matches Ok(AllocProgress::NeedMore(s))
                && s.wf() && s.spec_requested() == requested && s.spec_outer() == outer
                && s.spec_slots().len() == 0),
    {
        if outer == 0 {
            return Err(AllocationError::Outer);
        }
        if requested == 0 {
            return Ok(AllocProgress::Complete(BufferArray { outer, slots: Vec::new() }));
        }
        Ok(AllocProgress::NeedMore(ArrayAllocation { requested, outer, slots: Vec::new() }))
    }

    /// The index of the buffer to allocate next.
    pub fn next_index(&self) -> (r: usize)
        ensures
            r == self.spec_slots().len(),
    {
        self.slots.len()
    }

    /// Records the address that the allocation of the next buffer returned
    /// (zero: it failed). On failure every buffer granted so far, and the
    /// outer array, are handed back for release, and nothing else.
    pub fn record(self, inner: usize) -> (r: AllocProgress)
        requires
            self.wf(),
        ensures
            inner == 0 ==> (r matches AllocProgress::Failed(plan, e)
                && plan.inner@ == self.spec_slots()
                && plan.outer == self.spec_outer()
                && e == AllocationError::Inner { index: self.spec_slots().len() as usize }),
            inner != 0 && self.spec_slots().len() + 1 == self.spec_requested() ==> (r matches AllocProgress::Complete(a)
                && a.wf()
                && a.spec_slots() == self.spec_slots().push(inner)
                && a.spec_outer() == self.spec_outer()),
            inner != 0 && self.spec_slots().len() + 1 < self.spec_requested() ==> (r matches AllocProgress::NeedMore(s)
                && s.wf()
                && s.spec_slots() == self.spec_slots().push(inner)
                && s.spec_outer() == self.spec_outer()
                && s.spec_requested() == self.spec_requested()),
    {
        let ArrayAllocation { requested, outer, mut slots } = self;
        if inner == 0 {
            let index = slots.len();
            return AllocProgress::Failed(ReleasePlan { inner: slots, outer }, AllocationError::Inner { index });
        }
        slots.push(inner);
        if slots.len() == requested {
            AllocProgress::Complete(BufferArray { outer, slots })
        } else {
            AllocProgress::NeedMore(ArrayAllocation { requested, outer, slots })
        }
    }
}

/// Length of the C string held in the first `n` bytes of `b`: the index of
/// the first zero byte, or `n` when there is none.
pub open spec fn c_len(b: Seq<u8>, n: int) -> int
    decreases n,
{
    if n <= 0 {
        0
    } else {
        let p = c_len(b, n - 1);
        if p < n - 1 {
            p
        } else if b[n - 1] == 0 {
            n - 1
        } else {
            n
        }
    }
}

/// The text bytes of a buffer: everything before the first zero byte.
pub open spec fn c_text(b: Seq<u8>) -> Seq<u8> {
    b.take(c_len(b, b.len() as int))
}

/// The plate read from entry `j`, when its text is valid UTF-8.
pub open spec fn entry(rects: Seq<Rect>, texts: Seq<Vec<u8>>, j: int) -> Option<(Rect, Seq<char>)> {
    if valid_utf8(c_text(texts[j]@)) {
        Some((rects[j], decode_utf8(c_text(texts[j]@))))
    } else {
        None
    }
}

/// The plates read from the first `n` entries, in order, undecodable ones skipped.
pub open spec fn harvested(rects: Seq<Rect>, texts: Seq<Vec<u8>>, n: int) -> Seq<(Rect, Seq<char>)>
    decreases n,
{
    if n <= 0 {
        seq![]
    } else {
        let prev = harvested(rects, texts, n - 1);
        match entry(rects, texts, n - 1) {
            Some(e) => prev.push(e),
            None => prev,
        }
    }
}

/// The detections `r` are exactly the entries `e`.
pub open spec fn same_entries(r: Seq<Detection>, e: Seq<(Rect, Seq<char>)>) -> bool {
    &&& r.len() == e.len()
    &&& forall|i: int| 0 <= i < r.len() ==> r[i].rect == e[i].0 && r[i].text@ == e[i].1
}

/// The number of entries to read: the engine's count, kept within what was
/// handed to it.
pub open spec fn entries_to_read(count: i32, rects: Seq<Rect>, texts: Seq<Vec<u8>>) -> int {
    let limit = if rects.len() < texts.len() { rects.len() as int } else { texts.len() as int };
    if count < 0 {
        0
    } else if count > limit {
        limit
    } else {
        count as int
    }
}

/// Relies on `std::str::from_utf8`: it accepts exactly the valid UTF-8 byte
/// strings and yields the characters they encode.
#[verifier::external_body]
fn utf8_to_string(b: &[u8]) -> (r: Option<String>)
    ensures
        r.is_some() == valid_utf8(b@),
        r matches Some(s) ==> s@ == decode_utf8(b@),
{
    match std::str::from_utf8(b) {
        Ok(s) => Some(s.to_string()),
        Err(_) => None,
    }
}

proof fn lemma_c_len_stable(b: Seq<u8>, k: int, n: int)
    requires
        0 <= k < n,
        c_len(b, k + 1) == k,
    ensures
        c_len(b, n) == k,
    decreases n - k,
{
    if n > k + 1 {
        lemma_c_len_stable(b, k, n - 1);
    }
}

/// The bytes of `b` before its first zero byte.
pub fn c_text_of(b: &Vec<u8>) -> (r: Vec<u8>)
    ensures
        r@ == c_text(b@),
{
    let mut out: Vec<u8> = Vec::new();
    let mut i: usize = 0;
    while i < b.len() && b[i] != 0
        invariant
            i <= b@.len(),
            c_len(b@, i as int) == i,
            out@ == b@.take(i as int),
        decreases b@.len() - i,
    {
        out.push(b[i]);
        i = i + 1;
        assert(out@ =~= b@.take(i as int));
    }
    if i < b.len() {
        proof {
            lemma_c_len_stable(b@, i as int, b@.len() as int);
        }
    }
    out
}

/// Reads the plates the engine wrote: for each of the first `count` entries
/// (at most as many as were handed over) the text before the first zero byte,
/// decoded as UTF-8, with its rectangle; an entry that does not decode is
/// skipped.
pub fn harvest(rects: &Vec<Rect>, texts: &Vec<Vec<u8>>, count: i32) -> (r: Vec<Detection>)
    ensures
        same_entries(r@, harvested(rects@, texts@, entries_to_read(count, rects@, texts@))),
        r@.len() <= entries_to_read(count, rects@, texts@),
{
    let limit: usize = if rects.len() < texts.len() { rects.len() } else { texts.len() };
    let n: usize = if count < 0 {
        0
    } else if count as usize > limit {
        limit
    } else {
        count as usize
    };
    let mut out: Vec<Detection> = Vec::new();
    let mut j: usize = 0;
    while j < n
        invariant
            n == entries_to_read(count, rects@, texts@),
            n <= rects@.len(),
            n <= texts@.len(),
            j <= n,
            same_entries(out@, harvested(rects@, texts@, j as int)),
            out@.len() <= j,
        decreases n - j,
    {
        let bytes = c_text_of(&texts[j]);
        match utf8_to_string(bytes.as_slice()) {
            Some(text) => {
                out.push(Detection { rect: rects[j], text });
            },
            None => {},
        }
        j = j + 1;
    }
    out
}

} // verus!
