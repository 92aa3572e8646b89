//! Observation plumbing for heuristic experiments: a population proxy that
//! records what happens to a context object instead of global state.

use vstd::prelude::*;

use crate::common::Cost;
use crate::population::{DominancePopulation, Individual, SelectionPhase};

verus! {

/// One observed solution as a point in three dimensions.
#[derive(Clone, Copy, PartialEq, Eq, Structural, Debug)]
pub struct DataPoint {
    /// First coordinate.
    pub x: Cost,
    /// Fitness of the solution.
    pub fitness: Cost,
    /// Second coordinate.
    pub z: Cost,
}

/// Everything an experiment records about a run.
#[derive(Clone, Debug)]
pub struct ExperimentData {
    /// Current generation.
    pub generation: u64,
    /// Individuals offered to the population: `(generation, point)`.
    pub on_add: Vec<(u64, DataPoint)>,
    /// Individuals handed out by selection: `(generation, point)`.
    pub on_select: Vec<(u64, DataPoint)>,
    /// Population size at each recorded generation.
    pub on_generation: Vec<(u64, u64)>,
}

impl ExperimentData {
    /// Fresh, empty experiment data.
    pub fn new() -> (r: ExperimentData)
        ensures
            r.generation == 0,
            r.on_add@.len() == 0,
            r.on_select@.len() == 0,
            r.on_generation@.len() == 0,
    {
        ExperimentData {
            generation: 0,
            on_add: Vec::new(),
            on_select: Vec::new(),
            on_generation: Vec::new(),
        }
    }

    /// Clears all recorded observations.
    pub fn clear(&mut self)
        ensures
            final(self).generation == 0,
            final(self).on_add@.len() == 0,
            final(self).on_select@.len() == 0,
            final(self).on_generation@.len() == 0,
    {
        self.generation = 0;
        self.on_add = Vec::new();
        self.on_select = Vec::new();
        self.on_generation = Vec::new();
    }
}

/// The observation point of one individual: its leading fitness values
/// and cost.
pub open spec fn spec_point_of(ind: Individual) -> DataPoint {
    DataPoint {
        x: if ind.fitness@.len() > 0 {
            ind.fitness@[0]
        } else {
            0
        },
        fitness: ind.cost,
        z: if ind.fitness@.len() > 1 {
            ind.fitness@[1]
        } else {
            0
        },
    }
}

/// Builds the observation point of one individual.
pub fn point_of(ind: &Individual) -> (r: DataPoint)
    ensures
        r == spec_point_of(*ind),
{
    let x = if ind.fitness.len() > 0 {
        ind.fitness[0]
    } else {
        0
    };
    let z = if ind.fitness.len() > 1 {
        ind.fitness[1]
    } else {
        0
    };
    DataPoint { x, fitness: ind.cost, z }
}

/// A population which records what is added to and selected from an inner
/// population, into an owned experiment record.
#[derive(Clone, Debug)]
pub struct ProxyPopulation {
    /// Current generation.
    pub generation: u64,
    /// The inner population.
    pub inner: DominancePopulation,
    /// The recorded observations.
    pub data: ExperimentData,
}

impl ProxyPopulation {
    /// A proxy over an inner population, with empty observations.
    pub fn new(inner: DominancePopulation) -> (r: ProxyPopulation)
        ensures
            r.generation == 0,
            r.inner == inner,
            r.data.on_add@.len() == 0,
            r.data.on_select@.len() == 0,
            r.data.on_generation@.len() == 0,
    {
        ProxyPopulation { generation: 0, inner, data: ExperimentData::new() }
    }

    /// Offers one individual: records its point, then delegates. The
    /// result reports whether the best individual changed, exactly as the
    /// inner population does.
    pub fn add(&mut self, individual: Individual) -> (r: bool)
        requires
            old(self).inner.wf(),
        ensures
            final(self).inner.wf(),
            final(self).generation == old(self).generation,
            final(self).data.on_add@ == old(self).data.on_add@.push(
                (old(self).generation, spec_point_of(individual)),
            ),
            final(self).data.on_select == old(self).data.on_select,
            final(self).data.on_generation == old(self).data.on_generation,
            r == (old(self).inner.individuals@.len() == 0 || crate::population::lex_less(
                individual.fitness@,
                old(self).inner.individuals@[0].fitness@,
            )),
            final(self).inner.individuals@.len() > 0,
            r ==> final(self).inner.individuals@[0].fitness@ == individual.fitness@,
            !r && old(self).inner.individuals@.len() > 0
                ==> final(self).inner.individuals@[0].fitness@
                == old(self).inner.individuals@[0].fitness@,
            old(self).inner.individuals@.len() > 0 ==> final(self).inner.individuals@.len() > 0
                && crate::population::lex_leq(
                final(self).inner.individuals@[0].fitness@,
                old(self).inner.individuals@[0].fitness@,
            ),
    {
        let point = point_of(&individual);
        self.data.on_add.push((self.generation, point));
        self.inner.add(individual)
    }

    /// Offers several individuals: records each point in order, then
    /// delegates. The result reports whether the best individual changed
    /// over the whole batch, exactly as the inner population does.
    pub fn add_all(&mut self, individuals: Vec<Individual>) -> (r: bool)
        requires
            old(self).inner.wf(),
        ensures
            final(self).inner.wf(),
            final(self).generation == old(self).generation,
            final(self).data.on_select == old(self).data.on_select,
            final(self).data.on_generation == old(self).data.on_generation,
            final(self).data.on_add@.len() == old(self).data.on_add@.len()
                + individuals@.len(),
            forall|j: int|
                0 <= j < old(self).data.on_add@.len() ==> #[trigger] final(self).data.on_add@[j]
                    == old(self).data.on_add@[j],
            forall|j: int|
                0 <= j < individuals@.len() ==> #[trigger] final(self).data.on_add@[old(
                    self,
                ).data.on_add@.len() + j] == (old(self).generation, spec_point_of(
                    individuals@[j],
                )),
            r == (final(self).inner.individuals@.len() > 0 && (old(
                self,
            ).inner.individuals@.len() == 0 || crate::population::lex_less(
                final(self).inner.individuals@[0].fitness@,
                old(self).inner.individuals@[0].fitness@,
            ))),
            old(self).inner.individuals@.len() > 0 ==> final(self).inner.individuals@.len() > 0
                && crate::population::lex_leq(
                final(self).inner.individuals@[0].fitness@,
                old(self).inner.individuals@[0].fitness@,
            ),
    {
        let ghost points0 = self.data.on_add@;
        let ghost g = self.generation;
        let mut i: usize = 0;
        let n = individuals.len();
        let mut rest = individuals;
        let ghost s0 = self.inner.individuals@;
        proof {
            if s0.len() > 0 {
                crate::population::lemma_lex_cmp_total(s0[0].fitness@, s0[0].fitness@);
            }
        }
        let mut improved = false;
        while i < n
            invariant
                self.inner.wf(),
                0 <= i <= n,
                n == i + rest@.len(),
                n == individuals@.len(),
                rest@ =~= individuals@.subrange(i as int, n as int),
                self.generation == old(self).generation,
                g == old(self).generation,
                points0 == old(self).data.on_add@,
                self.data.on_select == old(self).data.on_select,
                self.data.on_generation == old(self).data.on_generation,
                self.data.on_add@.len() == points0.len() + i,
                forall|j: int|
                    0 <= j < points0.len() ==> #[trigger] self.data.on_add@[j] == points0[j],
                forall|j: int|
                    0 <= j < i ==> #[trigger] self.data.on_add@[points0.len() + j] == (g,
                    spec_point_of(individuals@[j])),
                s0 == old(self).inner.individuals@,
                s0.len() > 0 ==> self.inner.individuals@.len() > 0
                    && crate::population::lex_leq(
                    self.inner.individuals@[0].fitness@,
                    s0[0].fitness@,
                ),
                improved ==> self.inner.individuals@.len() > 0,
                improved == (self.inner.individuals@.len() > 0 && (s0.len() == 0
                    || crate::population::lex_less(
                    self.inner.individuals@[0].fitness@,
                    s0[0].fitness@,
                ))),
            decreases n - i,
        {
            let ghost mid = self.inner.individuals@;
            let ind = rest.remove(0);
            proof {
                assert(rest@ =~= individuals@.subrange(i + 1, n as int));
            }
            let one = self.add(ind);
            proof {
                let new0 = self.inner.individuals@[0].fitness@;
                if s0.len() > 0 {
                    let mid0 = mid[0].fitness@;
                    let s00 = s0[0].fitness@;
                    crate::population::lemma_lex_cmp_total(new0, mid0);
                    crate::population::lemma_lex_cmp_total(mid0, s00);
                    crate::population::lemma_lex_cmp_total(new0, s00);
                    crate::population::lemma_lex_trans(new0, mid0, s00);
                }
            }
            if one {
                improved = true;
            }
            i = i + 1;
        }
        improved
    }

    /// Advances to a new generation and records the population size.
    pub fn on_generation(&mut self, generation: u64)
        ensures
            final(self).generation == generation,
            final(self).data.generation == generation,
            final(self).data.on_generation@ == old(self).data.on_generation@.push(
                (generation, old(self).inner.individuals@.len() as u64),
            ),
            final(self).inner == old(self).inner,
            final(self).data.on_add == old(self).data.on_add,
            final(self).data.on_select == old(self).data.on_select,
    {
        self.generation = generation;
        self.data.generation = generation;
        let size = self.inner.size() as u64;
        self.data.on_generation.push((generation, size));
    }

    /// Dominance comparison of the inner population.
    pub fn cmp(&self, a: &Individual, b: &Individual) -> (r: core::cmp::Ordering)
        ensures
            r == crate::population::spec_lex_cmp(a.fitness@, b.fitness@),
    {
        self.inner.cmp(a, b)
    }

    /// Hands out the parent indices of one selection and records the
    /// selected points.
    pub fn select(&mut self) -> (r: Vec<usize>)
        ensures
            final(self).inner == old(self).inner,
            final(self).generation == old(self).generation,
            r@.len() == if old(self).inner.selection_size <= old(
                self,
            ).inner.individuals@.len() {
                old(self).inner.selection_size as int
            } else {
                old(self).inner.individuals@.len() as int
            },
            final(self).data.on_select@.len() == old(self).data.on_select@.len() + r@.len(),
    {
        let picks = self.inner.select();
        let mut i: usize = 0;
        while i < picks.len()
            invariant
                self.inner == old(self).inner,
                self.generation == old(self).generation,
                0 <= i <= picks@.len(),
                forall|j: int| 0 <= j < picks@.len() ==> #[trigger] picks@[j] == j,
                picks@.len() <= self.inner.individuals@.len(),
                self.data.on_select@.len() == old(self).data.on_select@.len() + i,
            decreases picks@.len() - i,
        {
            let idx = picks[i];
            let point = point_of(&self.inner.individuals[idx]);
            self.data.on_select.push((self.generation, point));
            i = i + 1;
        }
        picks
    }

    /// All individuals of the inner population, best first.
    pub fn all(&self) -> (r: &Vec<Individual>)
        ensures
            r == &self.inner.individuals,
    {
        self.inner.all()
    }

    /// Number of individuals of the inner population.
    pub fn size(&self) -> (r: usize)
        ensures
            r == self.inner.individuals@.len(),
    {
        self.inner.size()
    }

    /// The inner population's selection phase.
    pub fn selection_phase(&self) -> (r: SelectionPhase)
        ensures
            r == if self.inner.individuals@.len() == 0 {
                SelectionPhase::Initial
            } else if self.inner.individuals@.len() < self.inner.max_size {
                SelectionPhase::Exploration
            } else {
                SelectionPhase::Exploitation
            },
    {
        self.inner.selection_phase()
    }
}

} // verus!
