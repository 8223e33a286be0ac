use vstd::prelude::*;
use vstd::string::*;

use crate::bytes::{bytes_of, copy_range};

verus! {

/// `needle` occurs in `hay` starting at index `i`.
pub open spec fn occurs_at(hay: Seq<u8>, needle: Seq<u8>, i: int) -> bool {
    0 <= i && i + needle.len() <= hay.len() && hay.subrange(i, i + needle.len()) == needle
}

/// `needle` occurs somewhere in `hay`.
pub open spec fn contains(hay: Seq<u8>, needle: Seq<u8>) -> bool {
    exists|i: int| occurs_at(hay, needle, i)
}

/// Whether `needle` occurs anywhere in `hay`.
pub fn find_marker(hay: &[u8], needle: &[u8]) -> (r: bool)
    ensures
        r == contains(hay@, needle@),
{
    if needle.len() > hay.len() {
        proof {
            assert forall|i: int| !occurs_at(hay@, needle@, i) by {}
        }
        return false;
    }
    let n: usize = hay.len();
    let last: usize = n - needle.len();
    let mut i: usize = 0;
    loop
        invariant
            n == hay@.len(),
            last == hay@.len() - needle@.len(),
            i <= last,
            forall|j: int| 0 <= j < i ==> !occurs_at(hay@, needle@, j),
        decreases last - i,
    {
        let mut k: usize = 0;
        let mut same = true;
        while k < needle.len()
            invariant
                i <= last,
                n == hay@.len(),
                last == hay@.len() - needle@.len(),
                k <= needle@.len(),
                same == (forall|j: int| 0 <= j < k ==> hay@[i + j] == needle@[j]),
            decreases needle@.len() - k,
        {
            if hay[i + k] != needle[k] {
                same = false;
            }
            k = k + 1;
        }
        if same {
            proof {
                assert(hay@.subrange(i as int, i + needle@.len()) =~= needle@);
                assert(occurs_at(hay@, needle@, i as int));
            }
            return true;
        }
        proof {
            if occurs_at(hay@, needle@, i as int) {
                assert forall|j: int| 0 <= j < needle@.len() implies hay@[i + j] == needle@[j] by {
                    assert(hay@.subrange(i as int, i + needle@.len())[j] == hay@[i + j]);
                }
            }
        }
        if i == last {
            proof {
                assert forall|j: int| !occurs_at(hay@, needle@, j) by {
                    if 0 <= j < i {
                    }
                }
            }
            return false;
        }
        i = i + 1;
    }
}

/// Outcome of one poll of an acknowledgment wait.
#[derive(Clone, Copy, Debug, PartialEq, Eq, Structural)]
pub enum WaitStatus {
    /// The marker is in the buffer.
    Found,
    /// Not yet: sleep one tick and poll again.
    Pending,
    /// The budget of polls is spent without the marker.
    TimedOut,
}

/// Waits for a literal marker in the read buffer within a budget of polls,
/// one tick apart.
pub struct AckWaiter {
    marker: Vec<u8>,
    budget: u64,
    polls: u64,
}

pub struct AckWaiterView {
    pub marker: Seq<u8>,
    pub budget: nat,
    /// Polls made so far that did not find the marker.
    pub polls: nat,
}

impl View for AckWaiter {
    type V = AckWaiterView;

    closed spec fn view(&self) -> AckWaiterView {
        AckWaiterView { marker: self.marker@, budget: self.budget as nat, polls: self.polls as nat }
    }
}

/// One poll on `buffer`: the marker anywhere in it is success; otherwise the
/// poll is counted, and the poll that reaches the budget gives up.
pub open spec fn poll_spec(w: AckWaiterView, buffer: Seq<u8>) -> (WaitStatus, AckWaiterView) {
    if contains(buffer, w.marker) {
        (WaitStatus::Found, w)
    } else if w.polls >= w.budget {
        (WaitStatus::TimedOut, w)
    } else {
        (WaitStatus::Pending, AckWaiterView { polls: w.polls + 1, ..w })
    }
}

/// A poll that could not read the buffer: it finds nothing, but it counts
/// against the budget all the same.
pub open spec fn miss_spec(w: AckWaiterView) -> (WaitStatus, AckWaiterView) {
    if w.polls >= w.budget {
        (WaitStatus::TimedOut, w)
    } else {
        (WaitStatus::Pending, AckWaiterView { polls: w.polls + 1, ..w })
    }
}

/// The statuses of successive polls on `buffers`, and the waiter after them.
pub open spec fn replay(w: AckWaiterView, buffers: Seq<Seq<u8>>) -> (Seq<WaitStatus>, AckWaiterView)
    decreases buffers.len(),
{
    if buffers.len() == 0 {
        (Seq::empty(), w)
    } else {
        let (st, next) = poll_spec(w, buffers[0]);
        let (rest, last) = replay(next, buffers.drop_first());
        (seq![st] + rest, last)
    }
}

impl AckWaiter {
    /// A wait for `marker` that gives up after `budget` unsuccessful polls
    /// beyond the first.
    pub fn new(marker: &str, budget: u64) -> (r: Self)
        ensures
            r@.marker == marker.spec_bytes(),
            r@.budget == budget,
            r@.polls == 0,
    {
        AckWaiter { marker: bytes_of(marker), budget, polls: 0 }
    }

    /// A wait for the bytes `marker` that gives up after `budget`
    /// unsuccessful polls beyond the first.
    pub fn from_bytes(marker: &Vec<u8>, budget: u64) -> (r: Self)
        ensures
            r@.marker == marker@,
            r@.budget == budget,
            r@.polls == 0,
    {
        AckWaiter { marker: copy_range(marker.as_slice(), 0, marker.len()), budget, polls: 0 }
    }

    /// Counts a poll in which the buffer could not be read.
    pub fn miss(&mut self) -> (r: WaitStatus)
        ensures
            (r, final(self)@) == miss_spec(old(self)@),
    {
        if self.polls >= self.budget {
            WaitStatus::TimedOut
        } else {
            self.polls = self.polls + 1;
            WaitStatus::Pending
        }
    }

    /// Checks `buffer` for the marker once.
    pub fn poll(&mut self, buffer: &str) -> (r: WaitStatus)
        ensures
            (r, final(self)@) == poll_spec(old(self)@, buffer.spec_bytes()),
    {
        let found = find_marker(buffer.as_bytes(), self.marker.as_slice());
        if found {
            WaitStatus::Found
        } else if self.polls >= self.budget {
            WaitStatus::TimedOut
        } else {
            self.polls = self.polls + 1;
            WaitStatus::Pending
        }
    }
}

/// A poll succeeds exactly when the marker stands anywhere in the buffer,
/// wherever that is, and never before it is there.
pub proof fn lemma_found_iff_present(w: AckWaiterView, before: Seq<u8>, after: Seq<u8>, buffer: Seq<u8>)
    ensures
        poll_spec(w, before + w.marker + after).0 == WaitStatus::Found,
        (poll_spec(w, buffer).0 == WaitStatus::Found) == contains(buffer, w.marker),
{
    let hay = before + w.marker + after;
    assert(hay.subrange(before.len() as int, (before.len() + w.marker.len()) as int) =~= w.marker);
    assert(occurs_at(hay, w.marker, before.len() as int));
}

/// With no marker in any buffer, a waiter that has made `polls` of its
/// `budget` polls reports pending until the budget is spent, and then gives up:
/// it never waits longer than its budget. A poll that cannot read the buffer
/// counts the same as one that reads it without the marker.
pub proof fn lemma_times_out_after_budget(w: AckWaiterView, buffers: Seq<Seq<u8>>)
    requires
        w.polls <= w.budget,
        buffers.len() == w.budget - w.polls + 1,
        forall|i: int| 0 <= i < buffers.len() ==> !contains(#[trigger] buffers[i], w.marker),
    ensures
        miss_spec(w) == poll_spec(w, buffers[0]),
        replay(w, buffers).0.len() == buffers.len(),
        replay(w, buffers).0[buffers.len() - 1] == WaitStatus::TimedOut,
        forall|i: int| 0 <= i < buffers.len() - 1 ==> replay(w, buffers).0[i] == WaitStatus::Pending,
    decreases buffers.len(),
{
    assert(!contains(buffers[0], w.marker));
    if w.polls == w.budget {
        assert(buffers.drop_first().len() == 0);
        assert(replay(w, buffers).0 =~= seq![WaitStatus::TimedOut]);
    } else {
        let next = poll_spec(w, buffers[0]).1;
        let rest = buffers.drop_first();
        assert forall|i: int| 0 <= i < rest.len() implies !contains(#[trigger] rest[i], next.marker) by {
            assert(rest[i] == buffers[i + 1]);
        }
        lemma_times_out_after_budget(next, rest);
        let tail = replay(next, rest).0;
        assert(replay(w, buffers).0 =~= seq![WaitStatus::Pending] + tail);
    }
}

} // verus!
