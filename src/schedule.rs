use vstd::prelude::*;

verus! {

/// The chunk indices not yet delivered, highest first, so that the smallest
/// sits at the tail.
#[derive(Clone, Debug)]
pub struct UnfinishedChunks {
    items: Vec<usize>,
}

impl View for UnfinishedChunks {
    type V = Seq<usize>;

    closed spec fn view(&self) -> Seq<usize> {
        self.items@
    }
}

/// `s` is strictly decreasing.
pub open spec fn strictly_decreasing(s: Seq<usize>) -> bool {
    forall|i: int, j: int| 0 <= i < j < s.len() ==> s[i] > s[j]
}

impl UnfinishedChunks {
    /// The indices are held highest first, each once.
    pub open spec fn wf(&self) -> bool {
        strictly_decreasing(self@)
    }

    /// An empty set.
    pub fn new() -> (r: UnfinishedChunks)
        ensures
            r.wf(),
            r@.len() == 0,
    {
        UnfinishedChunks { items: Vec::new() }
    }

    /// All of `0..count`, highest first.
    pub fn seeded(count: usize) -> (r: UnfinishedChunks)
        ensures
            r.wf(),
            r@.len() == count,
            forall|i: int| 0 <= i < count ==> r@[i] == count - 1 - i,
            forall|k: usize| r@.contains(k) <==> k < count,
    {
        let mut items: Vec<usize> = Vec::with_capacity(count);
        let mut i: usize = count;
        while i > 0
            invariant
                i <= count,
                items@.len() == count - i,
                forall|j: int| 0 <= j < items@.len() ==> items@[j] == count - 1 - j,
            decreases i,
        {
            i = i - 1;
            items.push(i);
        }
        let r = UnfinishedChunks { items };
        assert forall|k: usize| r@.contains(k) <==> k < count by {
            if k < count {
                assert(r@[count - 1 - k] == k);
            }
        }
        r
    }

    /// Number of chunks still owed.
    pub fn len(&self) -> (r: usize)
        ensures
            r == self@.len(),
    {
        self.items.len()
    }

    /// Whether every chunk was delivered.
    pub fn is_empty(&self) -> (r: bool)
        ensures
            r == (self@.len() == 0),
    {
        self.items.len() == 0
    }

    /// Whether chunk `k` is still owed.
    pub fn contains(&self, k: usize) -> (r: bool)
        ensures
            r == self@.contains(k),
    {
        let mut i: usize = 0;
        while i < self.items.len()
            invariant
                i <= self@.len(),
                forall|j: int| 0 <= j < i ==> self@[j] != k,
            decreases self@.len() - i,
        {
            if self.items[i] == k {
                return true;
            }
            i = i + 1;
        }
        false
    }

    /// The smallest index still owed.
    pub fn smallest(&self) -> (r: Option<usize>)
        requires
            self.wf(),
        ensures
            self@.len() == 0 ==> r is None,
            self@.len() > 0 ==> r == Some(self@.last()),
            r matches Some(m) ==> forall|k: usize| self@.contains(k) ==> m <= k,
    {
        let n = self.items.len();
        if n == 0 {
            None
        } else {
            Some(self.items[n - 1])
        }
    }

    /// The window gate: a worker may start chunk `k` unless it lies more than
    /// `active_worker_count` beyond the smallest chunk still owed.
    pub fn window_open(&self, k: usize, active_worker_count: usize) -> (r: bool)
        requires
            self.wf(),
        ensures
            self@.len() == 0 ==> r,
            self@.len() > 0 ==> r == (k - self@.last() <= active_worker_count),
    {
        match self.smallest() {
            None => true,
            Some(m) => k <= m || k - m <= active_worker_count,
        }
    }

    /// Marks chunk `k` delivered, searching from the tail where the small
    /// indices sit. Returns whether it was still owed.
    pub fn complete(&mut self, k: usize) -> (r: bool)
        requires
            old(self).wf(),
        ensures
            final(self).wf(),
            r == old(self)@.contains(k),
            !final(self)@.contains(k),
            forall|x: usize| x != k ==> (final(self)@.contains(x) <==> old(self)@.contains(x)),
            final(self)@.len() == if r {
                old(self)@.len() - 1
            } else {
                old(self)@.len() as int
            },
    {
        let n = self.items.len();
        let mut i: usize = n;
        while i > 0
            invariant
                i <= n,
                n == self@.len(),
                self@ == old(self)@,
                strictly_decreasing(self@),
                forall|j: int| i <= j < n ==> self@[j] != k,
            decreases i,
        {
            if self.items[i - 1] == k {
                let ghost before = self@;
                self.items.remove(i - 1);
                proof {
                    let idx = (i - 1) as int;
                    assert(self@ == before.remove(idx));
                    assert forall|a: int, b: int| 0 <= a < b < self@.len() implies self@[a]
                        > self@[b] by {
                        let a0 = if a < idx {
                            a
                        } else {
                            a + 1
                        };
                        let b0 = if b < idx {
                            b
                        } else {
                            b + 1
                        };
                        assert(self@[a] == before[a0] && self@[b] == before[b0]);
                    }
                    assert forall|x: usize| x != k implies (self@.contains(x)
                        <==> before.contains(x)) by {
                        if before.contains(x) {
                            let j = choose|j: int| 0 <= j < before.len() && before[j] == x;
                            if j < idx {
                                assert(self@[j] == x);
                            } else {
                                assert(j != idx);
                                assert(self@[j - 1] == x);
                            }
                        }
                    }
                    assert(!self@.contains(k)) by {
                        if self@.contains(k) {
                            let j = choose|j: int| 0 <= j < self@.len() && self@[j] == k;
                            if j < idx {
                                assert(before[j] == self@[j]);
                                assert(before[j] > before[idx]);
                            } else {
                                assert(before[j + 1] == k && before[idx] > before[j + 1]);
                            }
                        }
                    }
                    assert(before[idx] == k);
                }
                return true;
            }
            i = i - 1;
        }
        assert(!self@.contains(k)) by {
            if self@.contains(k) {
                let j = choose|j: int| 0 <= j < self@.len() && self@[j] == k;
                assert(i <= j);
            }
        }
        false
    }
}

/// Seeding with `count` chunks and marking chunks delivered leaves the set
/// empty exactly when every one of `0..count` was delivered.
pub proof fn lemma_empty_iff_all_delivered(u: UnfinishedChunks, count: usize)
    requires
        u.wf(),
        forall|k: usize| u@.contains(k) ==> k < count,
    ensures
        u@.len() == 0 <==> (forall|k: usize| k < count ==> !u@.contains(k)),
{
    if u@.len() > 0 {
        assert(u@.contains(u@[0]));
    }
}

} // verus!
