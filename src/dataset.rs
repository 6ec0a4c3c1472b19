use vstd::prelude::*;
use crate::curve::SurvivorCurve;

verus! {

/// The counts of a curve, male then female.
pub open spec fn curve_counts(c: SurvivorCurve) -> (Seq<u32>, Seq<u32>) {
    (c.male@, c.female@)
}

/// The years from `first` to `last`, both included, `step` apart.
pub fn batch_years(first: u32, last: u32, step: u32) -> (r: Vec<u32>)
    requires
        step > 0,
    ensures
        r.len() == (if first <= last { (last - first) / (step as int) + 1 } else { 0 }),
        forall|i: int| 0 <= i < r.len() ==> r[i] == first + i * step,
{
    let mut r: Vec<u32> = Vec::new();
    if first > last {
        return r;
    }
    let mut y: u64 = first as u64;
    assert(r.len() * step == 0) by (nonlinear_arith)
        requires r.len() == 0;
    assert(0 <= (last - first) / (step as int)) by (nonlinear_arith)
        requires first <= last, step > 0;
    while y <= last as u64
        invariant
            step > 0,
            first <= last,
            y == first + r.len() * step,
            r.len() <= (last - first) / (step as int) + 1,
            y <= last ==> r.len() < (last - first) / (step as int) + 1,
            y > last ==> r.len() == (last - first) / (step as int) + 1,
            forall|i: int| 0 <= i < r.len() ==> r[i] == first + i * step,
        decreases last + step - y,
    {
        r.push(y as u32);
        proof {
            let n = r.len() as int;
            let q = (last - first) / (step as int);
            assert(n * step == (n - 1) * step + step) by (nonlinear_arith);
            assert((first + n * step <= last) ==> n <= q) by (nonlinear_arith)
                requires step > 0, first <= last, q == (last - first) / (step as int), n >= 0;
            assert((first + n * step > last) ==> n >= q + 1) by (nonlinear_arith)
                requires step > 0, first <= last, q == (last - first) / (step as int), n >= 0;
            assert(n <= q + 1);
        }
        y = y + step as u64;
    }
    r
}

/// Survivor curves keyed by year, kept in ascending order of year.
#[derive(Debug)]
pub struct YearlyDataset {
    entries: Vec<(u32, SurvivorCurve)>,
}

impl View for YearlyDataset {
    type V = Map<u32, (Seq<u32>, Seq<u32>)>;

    closed spec fn view(&self) -> Map<u32, (Seq<u32>, Seq<u32>)> {
        Map::new(
            |y: u32| exists|i: int| 0 <= i < self.entries.len() && self.entries[i].0 == y,
            |y: u32|
                {
                    let i = choose|i: int| 0 <= i < self.entries.len() && self.entries[i].0 == y;
                    curve_counts(self.entries[i].1)
                },
        )
    }
}

impl YearlyDataset {
    /// Years strictly ascending, and every curve well formed.
    pub closed spec fn wf(&self) -> bool {
        &&& forall|i: int, j: int| 0 <= i < j < self.entries.len() ==> self.entries[i].0 < self.entries[j].0
        &&& forall|i: int| 0 <= i < self.entries.len() ==> (#[trigger] self.entries[i]).1.wf()
    }

    proof fn lemma_entry(&self, i: int)
        requires
            self.wf(),
            0 <= i < self.entries.len(),
        ensures
            self@.contains_key(self.entries[i].0),
            self@[self.entries[i].0] == curve_counts(self.entries[i].1),
    {
        let y = self.entries[i].0;
        let k = choose|k: int| 0 <= k < self.entries.len() && self.entries[k].0 == y;
        if k != i {
            assert(self.entries[k].0 != self.entries[i].0);
        }
    }

    /// An empty dataset.
    pub fn new() -> (r: Self)
        ensures
            r.wf(),
            r@ == Map::<u32, (Seq<u32>, Seq<u32>)>::empty(),
    {
        let r = YearlyDataset { entries: Vec::new() };
        assert(r@ =~= Map::<u32, (Seq<u32>, Seq<u32>)>::empty());
        r
    }

    /// The number of years held.
    pub fn len(&self) -> (r: usize)
        requires
            self.wf(),
        ensures
            r == self@.dom().len(),
    {
        proof {
            assert(self@.dom() =~= self.entries@.map_values(|e: (u32, SurvivorCurve)| e.0).to_set()) by {
                assert forall|y: u32| self@.dom().contains(y) implies self.entries@.map_values(
                    |e: (u32, SurvivorCurve)| e.0,
                ).contains(y) by {
                    let k = choose|k: int| 0 <= k < self.entries.len() && self.entries[k].0 == y;
                    assert(self.entries@.map_values(|e: (u32, SurvivorCurve)| e.0)[k] == y);
                }
            }
            let ys = self.entries@.map_values(|e: (u32, SurvivorCurve)| e.0);
            assert(ys.no_duplicates());
            ys.unique_seq_to_set();
        }
        self.entries.len()
    }

    /// The years held, in ascending order.
    pub fn years(&self) -> (r: Vec<u32>)
        requires
            self.wf(),
        ensures
            forall|y: u32| r@.contains(y) <==> self@.contains_key(y),
            forall|i: int, j: int| 0 <= i < j < r.len() ==> r[i] < r[j],
    {
        let mut r: Vec<u32> = Vec::new();
        let mut i: usize = 0;
        while i < self.entries.len()
            invariant
                self.wf(),
                i <= self.entries.len(),
                r.len() == i,
                forall|k: int| 0 <= k < i ==> r[k] == self.entries[k].0,
            decreases self.entries.len() - i,
        {
            r.push(self.entries[i].0);
            i += 1;
        }
        proof {
            assert forall|y: u32| r@.contains(y) <==> self@.contains_key(y) by {
                if self@.contains_key(y) {
                    let k = choose|k: int| 0 <= k < self.entries.len() && self.entries[k].0 == y;
                    assert(r@[k] == y);
                }
                if r@.contains(y) {
                    let k = choose|k: int| 0 <= k < r.len() && r@[k] == y;
                    self.lemma_entry(k);
                }
            }
        }
        r
    }

    /// The curve held for a year, if any.
    pub fn get(&self, year: u32) -> (r: Option<&SurvivorCurve>)
        requires
            self.wf(),
        ensures
            r is Some <==> self@.contains_key(year),
            r matches Some(c) ==> curve_counts(*c) == self@[year] && c.wf(),
    {
        let mut i: usize = 0;
        while i < self.entries.len()
            invariant
                self.wf(),
                i <= self.entries.len(),
                forall|k: int| 0 <= k < i ==> self.entries[k].0 != year,
            decreases self.entries.len() - i,
        {
            if self.entries[i].0 == year {
                proof { self.lemma_entry(i as int); }
                return Some(&self.entries[i].1);
            }
            i += 1;
        }
        None
    }

    /// Puts the curve of a year in, in place of any curve held for it.
    #[verifier::rlimit(40)]
    pub fn insert(&mut self, year: u32, curve: SurvivorCurve)
        requires
            old(self).wf(),
            curve.wf(),
        ensures
            final(self).wf(),
            final(self)@ == old(self)@.insert(year, curve_counts(curve)),
    {
        let ghost before = self.entries@;
        let mut i: usize = 0;
        while i < self.entries.len() && self.entries[i].0 < year
            invariant
                self.entries@ == before,
                i <= self.entries.len(),
                forall|k: int| 0 <= k < i ==> self.entries[k].0 < year,
            decreases self.entries.len() - i,
        {
            i += 1;
        }
        let ghost c = curve;
        let replace = i < self.entries.len() && self.entries[i].0 == year;
        if replace {
            self.entries.remove(i);
        }
        self.entries.insert(i, (year, curve));
        let ghost after = self.entries@;
        assert(replace ==> after =~= before.update(i as int, (year, c)));
        assert(!replace ==> after =~= before.insert(i as int, (year, c)));
        assert(self.wf());
        proof {
            assert forall|y: u32| #[trigger] self@.contains_key(y) == old(self)@.insert(year, curve_counts(c)).contains_key(y) by {
                if y != year {
                    if old(self)@.contains_key(y) {
                        let k = choose|k: int| 0 <= k < before.len() && before[k].0 == y;
                        if replace || k < i {
                            assert(after[k].0 == y);
                        } else {
                            assert(after[k + 1].0 == y);
                        }
                    }
                    if self@.contains_key(y) {
                        let k = choose|k: int| 0 <= k < after.len() && after[k].0 == y;
                        if replace || k < i {
                            assert(before[k].0 == y);
                        } else {
                            assert(before[k - 1].0 == y);
                        }
                    }
                } else {
                    assert(after[i as int].0 == y);
                }
            }
            assert forall|y: u32| #[trigger] self@.contains_key(y) implies self@[y] == old(self)@.insert(year, curve_counts(c))[y] by {
                let k = choose|k: int| 0 <= k < after.len() && after[k].0 == y;
                self.lemma_entry(k);
                if y != year {
                    if replace || k < i {
                        assert(before[k] == after[k]);
                        old(self).lemma_entry(k);
                    } else {
                        assert(before[k - 1] == after[k]);
                        old(self).lemma_entry(k - 1);
                    }
                } else {
                    self.lemma_entry(i as int);
                }
            }
            assert(self@ =~= old(self)@.insert(year, curve_counts(c)));
        }
    }
}

} // verus!
