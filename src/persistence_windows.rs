//! Per-sequencer ingest progress of a partition: the range of sequence
//! numbers written since the last persist.

use vstd::prelude::*;

verus! {

/// The sequence numbers seen from one sequencer: the smallest, if known, and
/// the largest.
#[derive(Clone, Copy, Debug, PartialEq, Eq, Structural)]
pub struct OptionalMinMaxSequence {
    pub min: Option<u64>,
    pub max: u64,
}

/// The range of one sequencer after `sequence_number` was seen: the maximum
/// grows to cover it, and the minimum is set when unknown and kept otherwise.
pub open spec fn extend_range(
    current: Option<OptionalMinMaxSequence>,
    sequence_number: u64,
) -> OptionalMinMaxSequence {
    match current {
        None => OptionalMinMaxSequence { min: Some(sequence_number), max: sequence_number },
        Some(r) => OptionalMinMaxSequence {
            min: match r.min {
                Some(m) => Some(m),
                None => Some(sequence_number),
            },
            max: if r.max >= sequence_number { r.max } else { sequence_number },
        },
    }
}

/// Whether `s` lists the entries of `m` in ascending order of sequencer id,
/// each once.
pub open spec fn lists_map(
    s: Seq<(u32, OptionalMinMaxSequence)>,
    m: Map<u32, OptionalMinMaxSequence>,
) -> bool {
    &&& forall|i: int, j: int| 0 <= i < j < s.len() ==> s[i].0 < s[j].0
    &&& forall|i: int| 0 <= i < s.len() ==> #[trigger] m.contains_key(s[i].0) && m[s[i].0] == s[i].1
    &&& forall|k: u32| m.contains_key(k) ==> exists|i: int| 0 <= i < s.len() && #[trigger] s[i].0 == k
}

/// A copy of `ranges` with the `skip` entries from position `at` on replaced
/// by `entry`.
fn splice(
    ranges: &Vec<(u32, OptionalMinMaxSequence)>,
    at: usize,
    skip: usize,
    entry: (u32, OptionalMinMaxSequence),
) -> (r: Vec<(u32, OptionalMinMaxSequence)>)
    requires
        at + skip <= ranges@.len(),
    ensures
        r@ == ranges@.subrange(0, at as int).push(entry) + ranges@.subrange(
            at + skip,
            ranges@.len() as int,
        ),
{
    let n = ranges.len();
    let mut out: Vec<(u32, OptionalMinMaxSequence)> = Vec::new();
    let mut i: usize = 0;
    while i < at
        invariant
            n == ranges@.len(),
            at + skip <= n,
            i <= at,
            out@ == ranges@.subrange(0, i as int),
        decreases at - i,
    {
        out.push(ranges[i]);
        i = i + 1;
    }
    out.push(entry);
    let ghost head = out@;
    let mut j: usize = at + skip;
    while j < n
        invariant
            n == ranges@.len(),
            at + skip <= j <= n,
            head == ranges@.subrange(0, at as int).push(entry),
            out@ == head + ranges@.subrange(at + skip, j as int),
        decreases n - j,
    {
        out.push(ranges[j]);
        j = j + 1;
        assert(out@ =~= head + ranges@.subrange(at + skip, j as int));
    }
    out
}

/// Ingest progress of one partition, by sequencer id.
pub struct PersistenceWindows {
    ranges: Vec<(u32, OptionalMinMaxSequence)>,
    numbers: Ghost<Map<u32, OptionalMinMaxSequence>>,
}

impl View for PersistenceWindows {
    type V = Map<u32, OptionalMinMaxSequence>;

    closed spec fn view(&self) -> Map<u32, OptionalMinMaxSequence> {
        self.numbers@
    }
}

impl PersistenceWindows {
    #[verifier::type_invariant]
    spec fn wf(&self) -> bool {
        lists_map(self.ranges@, self.numbers@)
    }

    /// No sequencer seen yet.
    pub fn new() -> (r: PersistenceWindows)
        ensures
            r@ == Map::<u32, OptionalMinMaxSequence>::empty(),
    {
        PersistenceWindows { ranges: Vec::new(), numbers: Ghost(Map::empty()) }
    }

    /// Records that `sequence_number` of `sequencer_id` was ingested.
    pub fn add_sequence(&mut self, sequencer_id: u32, sequence_number: u64)
        ensures
            final(self)@ == old(self)@.insert(
                sequencer_id,
                extend_range(
                    if old(self)@.contains_key(sequencer_id) {
                        Some(old(self)@[sequencer_id])
                    } else {
                        None
                    },
                    sequence_number,
                ),
            ),
    {
        proof {
            use_type_invariant(&*self);
        }
        let n = self.ranges.len();
        let mut i: usize = 0;
        while i < n && self.ranges[i].0 < sequencer_id
            invariant
                n == self.ranges@.len(),
                i <= n,
                lists_map(self.ranges@, self.numbers@),
                forall|j: int| 0 <= j < i ==> self.ranges@[j].0 < sequencer_id,
            decreases n - i,
        {
            i = i + 1;
        }
        let ghost old_numbers = self.numbers@;
        if i < n && self.ranges[i].0 == sequencer_id {
            let cur = self.ranges[i].1;
            let min = match cur.min {
                Some(m) => Some(m),
                None => Some(sequence_number),
            };
            let max = if cur.max >= sequence_number { cur.max } else { sequence_number };
            let updated = OptionalMinMaxSequence { min, max };
            let ghost old_ranges = self.ranges@;
            let new_ranges = splice(&self.ranges, i, 1, (sequencer_id, updated));
            assert(new_ranges@ =~= old_ranges.update(i as int, (sequencer_id, updated)));
            let ghost new_numbers = old_numbers.insert(sequencer_id, updated);
            assert(lists_map(new_ranges@, new_numbers)) by {
                assert forall|k: u32| new_numbers.contains_key(k) implies exists|j: int|
                    0 <= j < new_ranges@.len() && #[trigger] new_ranges@[j].0 == k by {
                    if k != sequencer_id {
                        assert(old_numbers.contains_key(k));
                        let j = choose|j: int| 0 <= j < old_ranges.len() && #[trigger] old_ranges[j].0 == k;
                        assert(new_ranges@[j].0 == k);
                    } else {
                        assert(new_ranges@[i as int].0 == k);
                    }
                }
            }
            *self = PersistenceWindows { ranges: new_ranges, numbers: Ghost(new_numbers) };
        } else {
            proof {
                if old_numbers.contains_key(sequencer_id) {
                    let j = choose|j: int| 0 <= j < n && #[trigger] self.ranges@[j].0 == sequencer_id;
                    if j >= i {
                        assert(self.ranges@[i as int].0 > sequencer_id);
                    }
                }
            }
            let fresh = OptionalMinMaxSequence { min: Some(sequence_number), max: sequence_number };
            let ghost old_ranges = self.ranges@;
            let new_ranges = splice(&self.ranges, i, 0, (sequencer_id, fresh));
            let ghost new_numbers = old_numbers.insert(sequencer_id, fresh);
            assert(new_ranges@ =~= old_ranges.insert(i as int, (sequencer_id, fresh)));
            assert(lists_map(new_ranges@, new_numbers)) by {
                assert forall|a: int, b: int| 0 <= a < b < new_ranges@.len() implies new_ranges@[a].0
                    < new_ranges@[b].0 by {
                    if b < i {
                    } else if a > i {
                        assert(new_ranges@[a].0 == old_ranges[a - 1].0);
                        assert(new_ranges@[b].0 == old_ranges[b - 1].0);
                    } else if a == i {
                        assert(new_ranges@[b].0 == old_ranges[b - 1].0);
                        assert(old_ranges[i as int].0 > sequencer_id);
                        assert(old_ranges[i as int].0 <= old_ranges[b - 1].0);
                    } else {
                        if b > i {
                            assert(new_ranges@[b].0 == old_ranges[b - 1].0);
                            assert(old_ranges[a].0 < old_ranges[b - 1].0);
                        }
                    }
                }
                assert forall|a: int| 0 <= a < new_ranges@.len() implies #[trigger] new_numbers.contains_key(
                    new_ranges@[a].0,
                ) && new_numbers[new_ranges@[a].0] == new_ranges@[a].1 by {
                    if a < i {
                        assert(old_numbers.contains_key(old_ranges[a].0));
                    } else if a > i {
                        assert(new_ranges@[a] == old_ranges[a - 1]);
                        assert(old_numbers.contains_key(old_ranges[a - 1].0));
                        assert(old_ranges[a - 1].0 != sequencer_id);
                    }
                }
                assert forall|k: u32| new_numbers.contains_key(k) implies exists|j: int|
                    0 <= j < new_ranges@.len() && #[trigger] new_ranges@[j].0 == k by {
                    if k != sequencer_id {
                        let j = choose|j: int| 0 <= j < old_ranges.len() && #[trigger] old_ranges[j].0 == k;
                        if j < i {
                            assert(new_ranges@[j].0 == k);
                        } else {
                            assert(new_ranges@[j + 1].0 == k);
                        }
                    } else {
                        assert(new_ranges@[i as int].0 == k);
                    }
                }
            }
            *self = PersistenceWindows { ranges: new_ranges, numbers: Ghost(new_numbers) };
        }
    }

    /// The range of each sequencer, in ascending order of sequencer id.
    pub fn sequencer_numbers(&self) -> (r: Vec<(u32, OptionalMinMaxSequence)>)
        ensures
            lists_map(r@, self@),
    {
        proof {
            use_type_invariant(self);
        }
        let n = self.ranges.len();
        let mut out: Vec<(u32, OptionalMinMaxSequence)> = Vec::new();
        let mut i: usize = 0;
        while i < n
            invariant
                n == self.ranges@.len(),
                i <= n,
                out@ == self.ranges@.subrange(0, i as int),
            decreases n - i,
        {
            out.push(self.ranges[i]);
            i = i + 1;
        }
        assert(out@ == self.ranges@);
        out
    }
}

} // verus!
