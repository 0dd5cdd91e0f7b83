//! The non-canonical-base tally: for every sequence character whose
//! uppercased form is not A, T, G or C, the cumulative number of occurrences
//! across the whole file. Informational only: the tally never fails a record.
use vstd::prelude::*;
use crate::chars::exec_is_canonical_base;
use crate::chars::is_canonical_base;
use crate::chars::to_upper_char;
use crate::chars::upper_char;
use crate::record::num_records;
use crate::record::sequence_at;

verus! {

use vstd::string::StrSliceExecFns;

/// How many of the first `n` characters of `s` are non-canonical and
/// uppercase to `c`.
pub open spec fn count_noncanon_up_to(s: Seq<char>, n: int, c: char) -> nat
    decreases n,
{
    if n <= 0 {
        0
    } else {
        count_noncanon_up_to(s, n - 1, c) + (if !is_canonical_base(s[n - 1]) && upper_char(
            s[n - 1],
        ) == c {
            1nat
        } else {
            0nat
        })
    }
}

/// How many characters of `s` are non-canonical and uppercase to `c`.
pub open spec fn count_noncanon(s: Seq<char>, c: char) -> nat {
    count_noncanon_up_to(s, s.len() as int, c)
}

/// The tally owed to the first `n` records' sequence lines.
pub open spec fn tally_count_up_to(retained: Seq<Seq<char>>, n: int, c: char) -> nat
    decreases n,
{
    if n <= 0 {
        0
    } else {
        tally_count_up_to(retained, n - 1, c) + count_noncanon(sequence_at(retained, n - 1), c)
    }
}

/// The tally owed to the whole file: the exact number of occurrences,
/// case-insensitively, of each non-canonical character across all sequence
/// lines.
pub open spec fn tally_count(retained: Seq<Seq<char>>, c: char) -> nat {
    tally_count_up_to(retained, num_records(retained), c)
}

/// A count never exceeds the number of characters looked at.
pub proof fn lemma_count_noncanon_le(s: Seq<char>, n: int, c: char)
    requires
        0 <= n <= s.len(),
    ensures
        count_noncanon_up_to(s, n, c) <= n,
    decreases n,
{
    if n > 0 {
        lemma_count_noncanon_le(s, n - 1, c);
    }
}

/// The tally itself: keys are distinct uppercased non-canonical characters,
/// each with a positive occurrence count, in order of first appearance.
pub struct Tally {
    keys: Vec<char>,
    counts: Vec<u128>,
}

impl Tally {
    /// Well-formedness: keys and counts pair up, no key repeats, and every
    /// recorded count is positive. Constructors establish it and every
    /// method preserves it.
    pub closed spec fn wf(&self) -> bool {
        &&& self.keys@.len() == self.counts@.len()
        &&& forall|i: int, j: int|
            0 <= i < j < self.keys@.len() ==> self.keys@[i] != self.keys@[j]
        &&& forall|i: int| 0 <= i < self.counts@.len() ==> self.counts@[i] >= 1
    }

    /// The count recorded for character `c`; zero when `c` has no entry.
    pub closed spec fn spec_count(&self, c: char) -> nat {
        if self.keys@.contains(c) {
            self.counts@[self.keys@.index_of(c)] as nat
        } else {
            0
        }
    }

    /// The entries in first-appearance order.
    pub closed spec fn spec_entries(&self) -> Seq<(char, u128)> {
        Seq::new(self.keys@.len(), |i: int| (self.keys@[i], self.counts@[i]))
    }

    /// An empty tally: every count is zero.
    pub fn new() -> (t: Tally)
        ensures
            t.wf(),
            forall|c: char| t.spec_count(c) == 0,
            t.spec_entries() == Seq::<(char, u128)>::empty(),
    {
        let t = Tally { keys: Vec::new(), counts: Vec::new() };
        proof {
            assert(t.spec_entries() =~= Seq::<(char, u128)>::empty());
        }
        t
    }

    fn find(&self, c: char) -> (r: Option<usize>)
        ensures
            match r {
                Some(i) => i < self.keys@.len() && self.keys@[i as int] == c,
                None => !self.keys@.contains(c),
            },
    {
        let mut i: usize = 0;
        let n: usize = self.keys.len();
        while i < n
            invariant
                n == self.keys@.len(),
                0 <= i <= n,
                forall|j: int| 0 <= j < i ==> self.keys@[j] != c,
            decreases n - i,
        {
            if self.keys[i] == c {
                return Some(i);
            }
            i += 1;
        }
        None
    }

    /// Adds one occurrence of `c`.
    fn bump(&mut self, c: char)
        requires
            old(self).wf(),
            old(self).spec_count(c) < u128::MAX,
        ensures
            final(self).wf(),
            final(self).spec_count(c) == old(self).spec_count(c) + 1,
            forall|d: char| d != c ==> final(self).spec_count(d) == old(self).spec_count(d),
    {
        let found = self.find(c);
        match found {
            Some(i) => {
                proof {
                    assert(self.keys@.contains(c));
                    let k = self.keys@.index_of(c);
                    assert(self.keys@[k] == c);
                    assert(k == i);
                }
                let cur: u128 = self.counts[i];
                self.counts.set(i, cur + 1);
                proof {
                    let keys = self.keys@;
                    assert forall|d: char| self.spec_count(d) == if d == c {
                        old(self).spec_count(d) + 1
                    } else {
                        old(self).spec_count(d)
                    } by {
                        if keys.contains(d) {
                            let k = keys.index_of(d);
                            assert(keys[k] == d);
                            if d == c {
                                assert(k == i);
                            } else {
                                assert(k != i);
                            }
                        }
                    }
                }
            },
            None => {
                let ghost before_keys = self.keys@;
                let ghost before_counts = self.counts@;
                self.keys.push(c);
                self.counts.push(1);
                proof {
                    let keys = self.keys@;
                    let counts = self.counts@;
                    let last = before_keys.len() as int;
                    assert(keys[last] == c);
                    assert forall|d: char| self.spec_count(d) == if d == c {
                        old(self).spec_count(d) + 1
                    } else {
                        old(self).spec_count(d)
                    } by {
                        if d == c {
                            assert(keys.contains(c));
                            let k = keys.index_of(c);
                            assert(keys[k] == c);
                            assert(forall|j: int| 0 <= j < last ==> keys[j] != c);
                            assert(k == last);
                            assert(!before_keys.contains(c));
                        } else {
                            if keys.contains(d) {
                                let k = keys.index_of(d);
                                assert(keys[k] == d);
                                assert(k < last);
                                assert(before_keys[k] == d);
                                assert(before_keys.contains(d));
                                let kb = before_keys.index_of(d);
                                assert(before_keys[kb] == d);
                                assert(kb == k);
                            } else {
                                assert(!before_keys.contains(d)) by {
                                    if before_keys.contains(d) {
                                        let kb = before_keys.index_of(d);
                                        assert(keys[kb] == d);
                                    }
                                }
                            }
                        }
                    }
                }
            },
        }
    }

    /// True iff no non-canonical character has been counted.
    pub fn is_empty(&self) -> (r: bool)
        requires
            self.wf(),
        ensures
            r == (forall|c: char| self.spec_count(c) == 0),
    {
        proof {
            if self.keys@.len() > 0 {
                let c0 = self.keys@[0];
                assert(self.keys@.contains(c0));
                let k = self.keys@.index_of(c0);
                assert(self.keys@[k] == c0);
                assert(k == 0);
                assert(self.spec_count(c0) >= 1);
            }
        }
        self.keys.len() == 0
    }

    /// The entries as plain pairs, in first-appearance order. Each entry
    /// records the count of its own key, every count is positive, and no key
    /// repeats.
    pub fn entries(&self) -> (r: Vec<(char, u128)>)
        requires
            self.wf(),
        ensures
            r@ == self.spec_entries(),
            forall|i: int|
                0 <= i < r@.len() ==> (#[trigger] r@[i]).1 as nat == self.spec_count(r@[i].0)
                    && r@[i].1 >= 1,
            forall|i: int, j: int| 0 <= i < j < r@.len() ==> r@[i].0 != r@[j].0,
            r@.len() == 0 <==> (forall|c: char| self.spec_count(c) == 0),
    {
        let n: usize = self.keys.len();
        let mut r: Vec<(char, u128)> = Vec::new();
        let mut i: usize = 0;
        while i < n
            invariant
                n == self.keys@.len(),
                self.keys@.len() == self.counts@.len(),
                0 <= i <= n,
                r@ =~= self.spec_entries().take(i as int),
            decreases n - i,
        {
            r.push((self.keys[i], self.counts[i]));
            proof {
                assert(r@ =~= self.spec_entries().take(i + 1));
            }
            i += 1;
        }
        proof {
            assert(self.spec_entries().take(n as int) =~= self.spec_entries());
            let keys = self.keys@;
            assert forall|i: int|
                0 <= i < r@.len() implies (#[trigger] r@[i]).1 as nat == self.spec_count(r@[i].0)
                && r@[i].1 >= 1 by {
                let d = keys[i];
                assert(keys.contains(d));
                let k = keys.index_of(d);
                assert(keys[k] == d);
                assert(k == i);
            }
            if keys.len() > 0 {
                let c0 = keys[0];
                assert(keys.contains(c0));
                let k = keys.index_of(c0);
                assert(keys[k] == c0);
                assert(k == 0);
                assert(self.spec_count(c0) >= 1);
            }
        }
        r
    }

}

/// Non-canonical-base rule: uppercases every character of the sequence line
/// and counts those that are not A, T, G or C. Always passes; it is
/// bookkeeping, never a reason to fail. The `requires` only rules out
/// counter overflow, which no file that fits in memory approaches.
pub fn check_non_atgc(seq: &String, tally: &mut Tally) -> (r: bool)
    requires
        old(tally).wf(),
        forall|c: char| old(tally).spec_count(c) + seq@.len() <= u128::MAX,
    ensures
        r,
        final(tally).wf(),
        forall|c: char|
            final(tally).spec_count(c) == old(tally).spec_count(c) + count_noncanon(seq@, c),
{
    let s = seq.as_str();
    let n: usize = s.unicode_len();
    let mut j: usize = 0;
    while j < n
        invariant
            n == seq@.len(),
            s@ == seq@,
            0 <= j <= n,
            tally.wf(),
            forall|c: char| old(tally).spec_count(c) + seq@.len() <= u128::MAX,
            forall|c: char|
                tally.spec_count(c) == old(tally).spec_count(c) + count_noncanon_up_to(
                    seq@,
                    j as int,
                    c,
                ),
        decreases n - j,
    {
        let c = s.get_char(j);
        if !exec_is_canonical_base(c) {
            let u = to_upper_char(c);
            proof {
                lemma_count_noncanon_le(seq@, j as int, u);
            }
            tally.bump(u);
            proof {
                assert forall|d: char|
                    tally.spec_count(d) == old(tally).spec_count(d) + count_noncanon_up_to(
                        seq@,
                        j + 1,
                        d,
                    ) by {
                    assert(count_noncanon_up_to(seq@, j + 1, d) == count_noncanon_up_to(
                        seq@,
                        j as int,
                        d,
                    ) + (if !is_canonical_base(seq@[j as int]) && upper_char(seq@[j as int]) == d {
                        1nat
                    } else {
                        0nat
                    }));
                }
            }
        } else {
            proof {
                assert forall|d: char|
                    tally.spec_count(d) == old(tally).spec_count(d) + count_noncanon_up_to(
                        seq@,
                        j + 1,
                        d,
                    ) by {
                    assert(count_noncanon_up_to(seq@, j + 1, d) == count_noncanon_up_to(
                        seq@,
                        j as int,
                        d,
                    ));
                }
            }
        }
        j += 1;
    }
    true
}

} // verus!
