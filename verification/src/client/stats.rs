//! Processing statistics, collected in one place and merged into another,
//! then reported and reset.

use vstd::prelude::*;

verus! {

/// A set of identifiers.
pub struct IdSet {
    ids: Vec<u32>,
}

impl View for IdSet {
    type V = Set<u32>;

    closed spec fn view(&self) -> Set<u32> {
        self.ids@.to_set()
    }
}

impl IdSet {
    /// No identifier is held twice.
    pub closed spec fn wf(&self) -> bool {
        self.ids@.no_duplicates()
    }

    /// The number of identifiers.
    pub closed spec fn spec_len(&self) -> nat {
        self.ids@.len()
    }

    /// No identifiers.
    pub fn new() -> (r: Self)
        ensures
            r.wf(),
            r@ == Set::<u32>::empty(),
    {
        let r = IdSet { ids: Vec::new() };
        assert(r.ids@.to_set() =~= Set::<u32>::empty());
        r
    }

    /// Whether `id` is in the set.
    pub fn contains(&self, id: u32) -> (r: bool)
        ensures
            r == self@.contains(id),
    {
        let mut k: usize = 0;
        while k < self.ids.len()
            invariant
                k <= self.ids.len(),
                forall|j: int| 0 <= j < k ==> self.ids@[j] != id,
            decreases self.ids.len() - k,
        {
            if self.ids[k] == id {
                assert(self.ids@.contains(id));
                return true;
            }
            k = k + 1;
        }
        false
    }

    /// Add `id` to the set.
    pub fn set(&mut self, id: u32)
        requires
            old(self).wf(),
        ensures
            final(self).wf(),
            final(self)@ == old(self)@.insert(id),
    {
        if !self.contains(id) {
            self.ids.push(id);
            proof {
                assert(self.ids@.to_set() =~= old(self).ids@.to_set().insert(id)) by {
                    assert forall|x: u32| self.ids@.contains(x) <==> (old(self).ids@.contains(x)
                        || x == id) by {
                        if old(self).ids@.contains(x) {
                            let j = choose|j: int| 0 <= j < old(self).ids@.len() && old(self).ids@[j] == x;
                            assert(self.ids@[j] == x);
                        }
                        if x == id {
                            assert(self.ids@[self.ids@.len() - 1] == id);
                        }
                    }
                }
            }
        } else {
            assert(old(self)@.insert(id) =~= old(self)@);
        }
    }

    /// Add every identifier of `other` to the set.
    pub fn union(&mut self, other: &IdSet)
        requires
            old(self).wf(),
        ensures
            final(self).wf(),
            final(self)@ == old(self)@.union(other@),
    {
        let mut k: usize = 0;
        while k < other.ids.len()
            invariant
                k <= other.ids.len(),
                self.wf(),
                self@ == old(self)@.union(other.ids@.subrange(0, k as int).to_set()),
            decreases other.ids.len() - k,
        {
            self.set(other.ids[k]);
            proof {
                let s0 = other.ids@.subrange(0, k as int);
                let s1 = other.ids@.subrange(0, k + 1);
                let last = other.ids@[k as int];
                assert forall|x: u32| s1.contains(x) <==> (s0.contains(x) || x == last) by {
                    if s1.contains(x) {
                        let j = choose|j: int| 0 <= j < s1.len() && s1[j] == x;
                        if j < k {
                            assert(s0[j] == x);
                        }
                    }
                    if s0.contains(x) {
                        let j = choose|j: int| 0 <= j < s0.len() && s0[j] == x;
                        assert(s1[j] == x);
                    }
                    if x == last {
                        assert(s1[k as int] == x);
                    }
                }
                assert(s1.to_set() =~= s0.to_set().insert(last));
                assert(self@ =~= old(self)@.union(s1.to_set()));
            }
            k = k + 1;
        }
        assert(other.ids@.subrange(0, other.ids.len() as int) =~= other.ids@);
    }

    /// Remove every identifier.
    pub fn clear(&mut self)
        ensures
            final(self).wf(),
            final(self)@ == Set::<u32>::empty(),
    {
        self.ids.clear();
        assert(self.ids@.to_set() =~= Set::<u32>::empty());
    }

    /// The identifiers, in the order they were added.
    pub fn ids(&self) -> (r: &Vec<u32>)
        ensures
            r@.to_set() == self@,
    {
        &self.ids
    }
}

/// Processing statistics.
pub struct Stats {
    pub no_output_buffer: usize,
    pub no_input_buffer: usize,
    pub non_ready: usize,
    pub non_ready_set: IdSet,
    pub not_self_triggered: usize,
    pub signal_error: usize,
    pub signal_error_set: IdSet,
    pub signal_ok: usize,
    pub signal_ok_set: IdSet,
    pub timing_sum: u64,
    pub timing_count: usize,
}

/// What one report of the statistics holds: each group that had something
/// to report, with its values before they were reset.
pub struct Report {
    /// The nodes that were not ready, and how often.
    pub non_ready: Option<(usize, Vec<u32>)>,
    /// The signals that failed and succeeded, with their nodes.
    pub signals: Option<(usize, usize, Vec<u32>, Vec<u32>)>,
    /// How often no input buffer was there.
    pub no_input_buffer: Option<usize>,
    /// How often a node was not triggered by itself.
    pub not_self_triggered: Option<usize>,
    /// How often no output buffer was there.
    pub no_output_buffer: Option<usize>,
    /// The number of timings and their sum.
    pub timing: Option<(usize, u64)>,
}

impl Stats {
    /// Each set of identifiers holds no identifier twice.
    pub open spec fn wf(&self) -> bool {
        &&& self.non_ready_set.wf()
        &&& self.signal_error_set.wf()
        &&& self.signal_ok_set.wf()
    }

    /// No statistics.
    pub fn new() -> (r: Self)
        ensures
            r.wf(),
            r.no_output_buffer == 0,
            r.no_input_buffer == 0,
            r.non_ready == 0,
            r.non_ready_set@ == Set::<u32>::empty(),
            r.not_self_triggered == 0,
            r.signal_error == 0,
            r.signal_error_set@ == Set::<u32>::empty(),
            r.signal_ok == 0,
            r.signal_ok_set@ == Set::<u32>::empty(),
            r.timing_sum == 0,
            r.timing_count == 0,
    {
        Stats {
            no_output_buffer: 0,
            no_input_buffer: 0,
            non_ready: 0,
            non_ready_set: IdSet::new(),
            not_self_triggered: 0,
            signal_error: 0,
            signal_error_set: IdSet::new(),
            signal_ok: 0,
            signal_ok_set: IdSet::new(),
            timing_sum: 0,
            timing_count: 0,
        }
    }

    /// Move the statistics of `other` into these: counters add up, sets
    /// join, and `other` is left empty.
    pub fn merge(&mut self, other: &mut Self)
        requires
            old(self).wf(),
            old(other).wf(),
            old(self).no_output_buffer + old(other).no_output_buffer <= usize::MAX,
            old(self).no_input_buffer + old(other).no_input_buffer <= usize::MAX,
            old(self).non_ready + old(other).non_ready <= usize::MAX,
            old(self).not_self_triggered + old(other).not_self_triggered <= usize::MAX,
            old(self).signal_error + old(other).signal_error <= usize::MAX,
            old(self).signal_ok + old(other).signal_ok <= usize::MAX,
            old(self).timing_sum + old(other).timing_sum <= u64::MAX,
            old(self).timing_count + old(other).timing_count <= usize::MAX,
        ensures
            final(self).wf(),
            final(other).wf(),
            final(self).no_output_buffer == old(self).no_output_buffer + old(other).no_output_buffer,
            final(self).no_input_buffer == old(self).no_input_buffer + old(other).no_input_buffer,
            final(self).non_ready == old(self).non_ready + old(other).non_ready,
            final(self).non_ready_set@ == old(self).non_ready_set@.union(old(other).non_ready_set@),
            final(self).not_self_triggered == old(self).not_self_triggered + old(other).not_self_triggered,
            final(self).signal_error == old(self).signal_error + old(other).signal_error,
            final(self).signal_error_set@ == old(self).signal_error_set@.union(
                old(other).signal_error_set@,
            ),
            final(self).signal_ok == old(self).signal_ok + old(other).signal_ok,
            final(self).signal_ok_set@ == old(self).signal_ok_set@.union(old(other).signal_ok_set@),
            final(self).timing_sum == old(self).timing_sum + old(other).timing_sum,
            final(self).timing_count == old(self).timing_count + old(other).timing_count,
            final(other).no_output_buffer == 0,
            final(other).no_input_buffer == 0,
            final(other).non_ready == 0,
            final(other).non_ready_set@ == Set::<u32>::empty(),
            final(other).not_self_triggered == 0,
            final(other).signal_error == 0,
            final(other).signal_error_set@ == Set::<u32>::empty(),
            final(other).signal_ok == 0,
            final(other).signal_ok_set@ == Set::<u32>::empty(),
            final(other).timing_sum == 0,
            final(other).timing_count == 0,
    {
        self.no_output_buffer = self.no_output_buffer + other.no_output_buffer;
        other.no_output_buffer = 0;
        self.no_input_buffer = self.no_input_buffer + other.no_input_buffer;
        other.no_input_buffer = 0;
        self.non_ready = self.non_ready + other.non_ready;
        other.non_ready = 0;
        self.non_ready_set.union(&other.non_ready_set);
        other.non_ready_set.clear();
        self.not_self_triggered = self.not_self_triggered + other.not_self_triggered;
        other.not_self_triggered = 0;
        self.signal_error = self.signal_error + other.signal_error;
        other.signal_error = 0;
        self.signal_error_set.union(&other.signal_error_set);
        other.signal_error_set.clear();
        self.signal_ok = self.signal_ok + other.signal_ok;
        other.signal_ok = 0;
        self.signal_ok_set.union(&other.signal_ok_set);
        other.signal_ok_set.clear();
        self.timing_sum = self.timing_sum + other.timing_sum;
        other.timing_sum = 0;
        self.timing_count = self.timing_count + other.timing_count;
        other.timing_count = 0;
    }

    /// Take what there is to report: each group with something to report is
    /// returned and reset; the others are left as they are.
    pub fn report(&mut self) -> (r: Report)
        requires
            old(self).wf(),
        ensures
            final(self).wf(),
            old(self).non_ready > 0 ==> (r.non_ready matches Some((n, ids)) && n == old(self).non_ready && ids@.to_set() == old(self).non_ready_set@ && final(self).non_ready
                == 0 && final(self).non_ready_set@ == Set::<u32>::empty()),
            old(self).non_ready == 0 ==> r.non_ready is None && final(self).non_ready_set@ == old(self).non_ready_set@ && final(self).non_ready == 0,
            old(self).signal_error > 0 || old(self).signal_ok > 0 ==> (r.signals matches Some(
                (e, o, es, os),
            ) && e == old(self).signal_error && o == old(self).signal_ok && es@.to_set() == old(self).signal_error_set@ && os@.to_set() == old(self).signal_ok_set@ && final(self).signal_error == 0 && final(self).signal_ok == 0 && final(self).signal_error_set@
                == Set::<u32>::empty() && final(self).signal_ok_set@ == Set::<u32>::empty()),
            old(self).signal_error == 0 && old(self).signal_ok == 0 ==> r.signals is None && final(self).signal_error == 0 && final(self).signal_ok == 0 && final(self).signal_error_set@
                == old(self).signal_error_set@ && final(self).signal_ok_set@ == old(self).signal_ok_set@,
            r.no_input_buffer == (if old(self).no_input_buffer > 0 {
                Some(old(self).no_input_buffer)
            } else {
                None
            }),
            final(self).no_input_buffer == 0,
            r.not_self_triggered == (if old(self).not_self_triggered > 0 {
                Some(old(self).not_self_triggered)
            } else {
                None
            }),
            final(self).not_self_triggered == 0,
            r.no_output_buffer == (if old(self).no_output_buffer > 0 {
                Some(old(self).no_output_buffer)
            } else {
                None
            }),
            final(self).no_output_buffer == 0,
            old(self).timing_count > 0 ==> r.timing == Some(
                (old(self).timing_count, old(self).timing_sum),
            ) && final(self).timing_count == 0 && final(self).timing_sum == 0,
            old(self).timing_count == 0 ==> r.timing is None && final(self).timing_count == 0
                && final(self).timing_sum == old(self).timing_sum,
    {
        let mut report = Report {
            non_ready: None,
            signals: None,
            no_input_buffer: None,
            not_self_triggered: None,
            no_output_buffer: None,
            timing: None,
        };
        if self.non_ready > 0 {
            report.non_ready = Some((self.non_ready, self.non_ready_set.ids().clone()));
            self.non_ready = 0;
            self.non_ready_set.clear();
        }
        if self.signal_error > 0 || self.signal_ok > 0 {
            report.signals = Some(
                (
                    self.signal_error,
                    self.signal_ok,
                    self.signal_error_set.ids().clone(),
                    self.signal_ok_set.ids().clone(),
                ),
            );
            self.signal_error = 0;
            self.signal_error_set.clear();
            self.signal_ok = 0;
            self.signal_ok_set.clear();
        }
        if self.no_input_buffer > 0 {
            report.no_input_buffer = Some(self.no_input_buffer);
            self.no_input_buffer = 0;
        }
        if self.not_self_triggered > 0 {
            report.not_self_triggered = Some(self.not_self_triggered);
            self.not_self_triggered = 0;
        }
        if self.no_output_buffer > 0 {
            report.no_output_buffer = Some(self.no_output_buffer);
            self.no_output_buffer = 0;
        }
        if self.timing_count > 0 {
            report.timing = Some((self.timing_count, self.timing_sum));
            self.timing_count = 0;
            self.timing_sum = 0;
        }
        report
    }
}

} // verus!
