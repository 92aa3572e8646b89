//! A bounded population of individuals kept sorted by fitness dominance.

use vstd::prelude::*;

use crate::common::Cost;

verus! {

/// Essential information about one individual of the population.
#[derive(Clone, Debug)]
pub struct Individual {
    /// Objective fitness values, most significant first.
    pub fitness: Vec<Cost>,
    /// Number of tours of the underlying solution.
    pub tours: u64,
    /// Number of unassigned jobs of the underlying solution.
    pub unassigned: u64,
    /// Total cost of the underlying solution.
    pub cost: Cost,
}

/// Lexicographic comparison of two fitness vectors; the shorter vector
/// precedes any extension of itself.
pub open spec fn spec_lex_cmp(a: Seq<Cost>, b: Seq<Cost>) -> core::cmp::Ordering
    decreases a.len(),
{
    if a.len() == 0 && b.len() == 0 {
        core::cmp::Ordering::Equal
    } else if a.len() == 0 {
        core::cmp::Ordering::Less
    } else if b.len() == 0 {
        core::cmp::Ordering::Greater
    } else if a[0] < b[0] {
        core::cmp::Ordering::Less
    } else if a[0] > b[0] {
        core::cmp::Ordering::Greater
    } else {
        spec_lex_cmp(a.drop_first(), b.drop_first())
    }
}

/// Strictly better fitness.
pub open spec fn lex_less(a: Seq<Cost>, b: Seq<Cost>) -> bool {
    spec_lex_cmp(a, b) == core::cmp::Ordering::Less
}

/// Better or equal fitness.
pub open spec fn lex_leq(a: Seq<Cost>, b: Seq<Cost>) -> bool {
    spec_lex_cmp(a, b) != core::cmp::Ordering::Greater
}

/// The comparison is a total order: exactly one of less, equal, greater
/// holds, `Equal` coincides with sequence equality, and the order is
/// transitive.
pub proof fn lemma_lex_cmp_total(a: Seq<Cost>, b: Seq<Cost>)
    ensures
        spec_lex_cmp(a, b) == core::cmp::Ordering::Equal <==> a == b,
        spec_lex_cmp(a, b) == core::cmp::Ordering::Less <==> spec_lex_cmp(b, a)
            == core::cmp::Ordering::Greater,
    decreases a.len(),
{
    if a.len() > 0 && b.len() > 0 && a[0] == b[0] {
        lemma_lex_cmp_total(a.drop_first(), b.drop_first());
        if a.drop_first() == b.drop_first() {
            assert forall|i: int| 0 <= i < a.len() implies a[i] == b[i] by {
                if i > 0 {
                    assert(a[i] == a.drop_first()[i - 1]);
                    assert(b[i] == b.drop_first()[i - 1]);
                }
            }
            assert(a =~= b);
        }
        if a == b {
            assert(a.drop_first() =~= b.drop_first());
        }
    } else {
        if a.len() == 0 && b.len() == 0 {
            assert(a =~= b);
        }
    }
}

/// Transitivity of the lexicographic order.
pub proof fn lemma_lex_trans(a: Seq<Cost>, b: Seq<Cost>, c: Seq<Cost>)
    requires
        lex_leq(a, b),
        lex_leq(b, c),
    ensures
        lex_leq(a, c),
        lex_less(a, b) || lex_less(b, c) ==> lex_less(a, c),
    decreases a.len() + b.len() + c.len(),
{
    lemma_lex_cmp_total(a, b);
    lemma_lex_cmp_total(b, c);
    lemma_lex_cmp_total(a, c);
    if a.len() > 0 && b.len() > 0 && c.len() > 0 && a[0] == b[0] && b[0] == c[0] {
        lemma_lex_trans(a.drop_first(), b.drop_first(), c.drop_first());
    }
}

/// Compares two fitness vectors.
pub fn lex_cmp(a: &Vec<Cost>, b: &Vec<Cost>) -> (r: core::cmp::Ordering)
    ensures
        r == spec_lex_cmp(a@, b@),
{
    let mut i: usize = 0;
    proof {
        assert(a@.skip(0) =~= a@);
        assert(b@.skip(0) =~= b@);
    }
    while i < a.len() && i < b.len()
        invariant
            0 <= i <= a@.len(),
            i <= b@.len(),
            forall|j: int| 0 <= j < i ==> a@[j] == b@[j],
            spec_lex_cmp(a@, b@) == spec_lex_cmp(a@.skip(i as int), b@.skip(i as int)),
        decreases a@.len() - i,
    {
        proof {
            assert(a@.skip(i as int)[0] == a@[i as int]);
            assert(b@.skip(i as int)[0] == b@[i as int]);
            assert(a@.skip(i as int).drop_first() =~= a@.skip(i + 1));
            assert(b@.skip(i as int).drop_first() =~= b@.skip(i + 1));
        }
        if a[i] < b[i] {
            return core::cmp::Ordering::Less;
        }
        if a[i] > b[i] {
            return core::cmp::Ordering::Greater;
        }
        i = i + 1;
    }
    proof {
        if i < a@.len() {
            assert(a@.skip(i as int).len() > 0);
            assert(b@.skip(i as int).len() == 0);
        } else if i < b@.len() {
            assert(a@.skip(i as int).len() == 0);
            assert(b@.skip(i as int).len() > 0);
        } else {
            assert(a@.skip(i as int).len() == 0);
            assert(b@.skip(i as int).len() == 0);
        }
    }
    if a.len() == b.len() {
        core::cmp::Ordering::Equal
    } else if a.len() < b.len() {
        core::cmp::Ordering::Less
    } else {
        core::cmp::Ordering::Greater
    }
}

/// Where a fitness ranks into a sorted sequence: the index after the
/// leading run of strictly better individuals, scanned from index `i`.
pub open spec fn spec_insert_pos_from(s: Seq<Individual>, f: Seq<Cost>, i: int) -> int
    decreases s.len() - i,
{
    if i < 0 || i >= s.len() || spec_lex_cmp(f, s[i].fitness@) != core::cmp::Ordering::Greater {
        i
    } else {
        spec_insert_pos_from(s, f, i + 1)
    }
}

/// The scan result is pinned by any witness position: strictly better
/// individuals up to `i`, then a mismatch or the end.
proof fn lemma_insert_pos_char(s: Seq<Individual>, f: Seq<Cost>, t: int, i: int)
    requires
        0 <= t <= i <= s.len(),
        forall|j: int|
            0 <= j < i ==> spec_lex_cmp(f, (#[trigger] s[j]).fitness@)
                == core::cmp::Ordering::Greater,
        i == s.len() || spec_lex_cmp(f, s[i].fitness@) != core::cmp::Ordering::Greater,
    ensures
        spec_insert_pos_from(s, f, t) == i,
    decreases i - t,
{
    if t < i {
        lemma_insert_pos_char(s, f, t + 1, i);
    }
}

/// The individuals are sorted: earlier ones have better or equal fitness.
pub open spec fn population_sorted(s: Seq<Individual>) -> bool {
    forall|i: int, j: int|
        0 <= i <= j < s.len() ==> lex_leq((#[trigger] s[i]).fitness@, (#[trigger] s[j]).fitness@)
}

/// In which phase the population's selection currently is.
#[derive(Clone, Copy, PartialEq, Eq, Structural, Debug)]
pub enum SelectionPhase {
    /// No individuals were discovered yet.
    Initial,
    /// The population is still growing.
    Exploration,
    /// The population is full and refining.
    Exploitation,
}

/// A bounded set of individuals ranked by dominance, best first.
#[derive(Clone, Debug)]
pub struct DominancePopulation {
    /// Largest number of individuals kept.
    pub max_size: usize,
    /// Number of parents handed out by one selection.
    pub selection_size: usize,
    /// The individuals, best first.
    pub individuals: Vec<Individual>,
}

impl DominancePopulation {
    /// The population invariant: bounded and sorted.
    pub open spec fn wf(&self) -> bool {
        &&& self.max_size >= 1
        &&& self.individuals@.len() <= self.max_size
        &&& population_sorted(self.individuals@)
    }

    /// An empty population.
    pub fn new(max_size: usize, selection_size: usize) -> (r: DominancePopulation)
        requires
            max_size >= 1,
        ensures
            r.wf(),
            r.max_size == max_size,
            r.selection_size == selection_size,
            r.individuals@.len() == 0,
    {
        DominancePopulation { max_size, selection_size, individuals: Vec::new() }
    }

    /// Number of individuals currently held.
    pub fn size(&self) -> (r: usize)
        ensures
            r == self.individuals@.len(),
    {
        self.individuals.len()
    }

    /// All individuals, best first.
    pub fn all(&self) -> (r: &Vec<Individual>)
        ensures
            r == &self.individuals,
    {
        &self.individuals
    }

    /// Dominance comparison used by the population.
    pub fn cmp(&self, a: &Individual, b: &Individual) -> (r: core::cmp::Ordering)
        ensures
            r == spec_lex_cmp(a.fitness@, b.fitness@),
    {
        lex_cmp(&a.fitness, &b.fitness)
    }

    /// The current selection phase.
    pub fn selection_phase(&self) -> (r: SelectionPhase)
        ensures
            r == if self.individuals@.len() == 0 {
                SelectionPhase::Initial
            } else if self.individuals@.len() < self.max_size {
                SelectionPhase::Exploration
            } else {
                SelectionPhase::Exploitation
            },
    {
        if self.individuals.len() == 0 {
            SelectionPhase::Initial
        } else if self.individuals.len() < self.max_size {
            SelectionPhase::Exploration
        } else {
            SelectionPhase::Exploitation
        }
    }

    /// Offers one individual to the population: it is ranked in, and when
    /// the bound is exceeded the dominated-furthest member is evicted.
    /// Returns whether the best individual changed. The best individual
    /// never regresses.
    pub fn add(&mut self, individual: Individual) -> (r: bool)
        requires
            old(self).wf(),
        ensures
            final(self).wf(),
            final(self).max_size == old(self).max_size,
            final(self).selection_size == old(self).selection_size,
            final(self).individuals@.len() == if old(self).individuals@.len()
                < old(self).max_size {
                old(self).individuals@.len() as int + 1
            } else {
                old(self).individuals@.len() as int
            },
            r == (old(self).individuals@.len() == 0 || lex_less(
                individual.fitness@,
                old(self).individuals@[0].fitness@,
            )),
            r ==> final(self).individuals@[0] == individual,
            !r && old(self).individuals@.len() > 0 ==> final(self).individuals@[0].fitness@
                == old(self).individuals@[0].fitness@,
            old(self).individuals@.len() > 0 ==> lex_leq(
                final(self).individuals@[0].fitness@,
                old(self).individuals@[0].fitness@,
            ),
            ({
                let p = spec_insert_pos_from(old(self).individuals@, individual.fitness@, 0);
                final(self).individuals@ == if old(self).individuals@.len() < old(
                    self,
                ).max_size {
                    old(self).individuals@.insert(p, individual)
                } else {
                    old(self).individuals@.insert(p, individual).drop_last()
                }
            }),
    {
        let ghost s0 = self.individuals@;
        let mut pos: usize = 0;
        while pos < self.individuals.len() && matches!(
            lex_cmp(&individual.fitness, &self.individuals[pos].fitness),
            core::cmp::Ordering::Greater,
        )
            invariant
                s0 == self.individuals@,
                0 <= pos <= s0.len(),
                forall|j: int|
                    0 <= j < pos ==> lex_less((#[trigger] s0[j]).fitness@, individual.fitness@),
                forall|j: int|
                    0 <= j < pos ==> spec_lex_cmp(individual.fitness@, (#[trigger] s0[j]).fitness@)
                        == core::cmp::Ordering::Greater,
            decreases s0.len() - pos,
        {
            proof {
                lemma_lex_cmp_total(individual.fitness@, s0[pos as int].fitness@);
                lemma_lex_cmp_total(s0[pos as int].fitness@, individual.fitness@);
            }
            pos = pos + 1;
        }
        proof {
            if pos < s0.len() {
                lemma_lex_cmp_total(individual.fitness@, s0[pos as int].fitness@);
            }
            lemma_insert_pos_char(s0, individual.fitness@, 0, pos as int);
        }
        let improved = if self.individuals.len() == 0 {
            true
        } else if pos == 0 {
            let c = lex_cmp(&individual.fitness, &self.individuals[0].fitness);
            matches!(c, core::cmp::Ordering::Less)
        } else {
            false
        };
        proof {
            if pos > 0 && s0.len() > 0 {
                lemma_lex_cmp_total(s0[0].fitness@, individual.fitness@);
                lemma_lex_cmp_total(individual.fitness@, s0[0].fitness@);
            }
        }
        self.individuals.insert(pos, individual);
        if self.individuals.len() > self.max_size {
            let _ = self.individuals.pop();
        }
        proof {
            let s1 = self.individuals@;
            assert forall|i: int, j: int| 0 <= i <= j < s1.len() implies lex_leq(
                (#[trigger] s1[i]).fitness@,
                (#[trigger] s1[j]).fitness@,
            ) by {
                let p = pos as int;
                lemma_lex_cmp_total(individual.fitness@, individual.fitness@);
                if i == j {
                    lemma_lex_cmp_total(s1[i].fitness@, s1[j].fitness@);
                } else if i < p && j < p {
                    assert(s1[i] == s0[i] && s1[j] == s0[j]);
                    assert(lex_leq(s0[i].fitness@, s0[j].fitness@));
                } else if i < p && j == p {
                    lemma_lex_cmp_total(s0[i].fitness@, individual.fitness@);
                } else if i < p && j > p {
                    assert(s1[j] == s0[j - 1]);
                    assert(lex_leq(s0[i].fitness@, s0[j - 1].fitness@));
                } else if i == p && j > p {
                    assert(s1[j] == s0[j - 1]);
                    if p < s0.len() {
                        assert(lex_leq(individual.fitness@, s0[p].fitness@));
                        assert(lex_leq(s0[p].fitness@, s0[j - 1].fitness@));
                        lemma_lex_trans(individual.fitness@, s0[p].fitness@, s0[j - 1].fitness@);
                    }
                } else {
                    assert(s1[i] == s0[i - 1] && s1[j] == s0[j - 1]);
                    assert(lex_leq(s0[i - 1].fitness@, s0[j - 1].fitness@));
                }
            }
            if s0.len() > 0 {
                if pos == 0 {
                    lemma_lex_cmp_total(individual.fitness@, s0[0].fitness@);
                } else {
                    lemma_lex_cmp_total(s0[0].fitness@, individual.fitness@);
                }
            }
        }
        improved
    }

    /// Offers several individuals; returns whether the best changed. The
    /// best individual never regresses, and it never regresses below the
    /// best of the offered individuals that fit.
    pub fn add_all(&mut self, individuals: Vec<Individual>) -> (r: bool)
        requires
            old(self).wf(),
        ensures
            final(self).wf(),
            final(self).max_size == old(self).max_size,
            final(self).selection_size == old(self).selection_size,
            old(self).individuals@.len() > 0 ==> final(self).individuals@.len() > 0 && lex_leq(
                final(self).individuals@[0].fitness@,
                old(self).individuals@[0].fitness@,
            ),
            r ==> final(self).individuals@.len() > 0,
            r == (final(self).individuals@.len() > 0 && (old(self).individuals@.len() == 0
                || lex_less(
                final(self).individuals@[0].fitness@,
                old(self).individuals@[0].fitness@,
            ))),
    {
        let ghost s0 = self.individuals@;
        proof {
            if s0.len() > 0 {
                lemma_lex_cmp_total(s0[0].fitness@, s0[0].fitness@);
            }
        }
        let mut improved = false;
        let mut i: usize = 0;
        let n = individuals.len();
        let mut rest = individuals;
        while i < n
            invariant
                self.wf(),
                self.max_size == old(self).max_size,
                self.selection_size == old(self).selection_size,
                0 <= i <= n,
                n == i + rest@.len(),
                s0 == old(self).individuals@,
                s0.len() > 0 ==> self.individuals@.len() > 0 && lex_leq(
                    self.individuals@[0].fitness@,
                    s0[0].fitness@,
                ),
                improved ==> self.individuals@.len() > 0,
                improved == (self.individuals@.len() > 0 && (s0.len() == 0 || lex_less(
                    self.individuals@[0].fitness@,
                    s0[0].fitness@,
                ))),
            decreases n - i,
        {
            let ghost mid = self.individuals@;
            let ind = rest.remove(0);
            let one = self.add(ind);
            if one {
                improved = true;
            }
            proof {
                let new0 = self.individuals@[0].fitness@;
                if s0.len() > 0 {
                    let mid0 = mid[0].fitness@;
                    let s00 = s0[0].fitness@;
                    lemma_lex_cmp_total(new0, mid0);
                    lemma_lex_cmp_total(mid0, s00);
                    lemma_lex_cmp_total(new0, s00);
                    lemma_lex_trans(new0, mid0, s00);
                }
            }
            i = i + 1;
        }
        improved
    }

    /// Indices of the parents one selection hands out: the best
    /// `selection_size` individuals, best first.
    pub fn select(&self) -> (r: Vec<usize>)
        ensures
            r@.len() == if self.selection_size <= self.individuals@.len() {
                self.selection_size as int
            } else {
                self.individuals@.len() as int
            },
            forall|j: int| 0 <= j < r@.len() ==> #[trigger] r@[j] == j,
    {
        let count = if self.selection_size <= self.individuals.len() {
            self.selection_size
        } else {
            self.individuals.len()
        };
        let mut r: Vec<usize> = Vec::new();
        let mut j: usize = 0;
        while j < count
            invariant
                0 <= j <= count,
                r@.len() == j,
                forall|k: int| 0 <= k < j ==> #[trigger] r@[k] == k,
            decreases count - j,
        {
            r.push(j);
            j = j + 1;
        }
        r
    }

    /// The rank of the individual at an index: zero exactly for the
    /// non-dominated front, that is for fitness equal to the best.
    pub fn rank_of(&self, index: usize) -> (r: usize)
        requires
            self.wf(),
            index < self.individuals@.len(),
        ensures
            (r == 0) == (self.individuals@[index as int].fitness@
                == self.individuals@[0].fitness@),
    {
        let c = lex_cmp(&self.individuals[index].fitness, &self.individuals[0].fitness);
        proof {
            lemma_lex_cmp_total(
                self.individuals@[index as int].fitness@,
                self.individuals@[0].fitness@,
            );
        }
        if matches!(c, core::cmp::Ordering::Equal) {
            0
        } else {
            index
        }
    }
}

} // verus!
