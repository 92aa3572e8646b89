//! Evolution strategies: the single-threaded straight loop, the decision
//! logic of the parallel island model, and the telemetry both report to.

use vstd::prelude::*;

use crate::common::Cost;
use crate::format::{Generation, Metrics};
use crate::population::{
    lemma_lex_cmp_total, lemma_lex_trans, lex_cmp, lex_leq, DominancePopulation, Individual,
};
use crate::termination::{spec_terminated, CompositeTermination, Termination, TerminationInput};

verus! {

/// Statistics of the refinement process.
#[derive(Clone, Copy, PartialEq, Eq, Structural, Debug)]
pub struct Statistics {
    /// Current generation number.
    pub generation: u64,
}

/// A snapshot of the refinement process one strategy works on.
#[derive(Clone, Debug)]
pub struct RefinementContext {
    /// The population of candidate solutions.
    pub population: DominancePopulation,
    /// Refinement statistics.
    pub statistics: Statistics,
    /// Whether the shared quota fired at the last poll.
    pub quota_reached: bool,
}

/// A selection operator: picks the parents of one generation.
pub trait Selection {
    /// Selects parents from the population, possibly with duplicates.
    fn select_parents(&self, ctx: &RefinementContext) -> Vec<Individual>;
}

/// A mutation operator: produces offspring from parents.
pub trait Mutation {
    /// Mutates all parents into offspring.
    fn mutate_all(&self, ctx: &RefinementContext, parents: Vec<Individual>) -> Vec<Individual>;
}

/// A shared cancellation signal consulted cooperatively.
pub trait Quota {
    /// Whether the quota is exhausted.
    fn is_reached(&self) -> bool;
}

/// The evolution operators of one run.
pub struct OperatorConfig<S: Selection, M: Mutation> {
    /// Parent selection.
    pub selection: S,
    /// Offspring mutation.
    pub mutation: M,
    /// When the run stops.
    pub termination: CompositeTermination,
}

/// Contains population-specific configuration.
#[derive(Clone, Copy, PartialEq, Eq, Structural, Debug)]
pub struct PopulationConfig {
    /// Largest number of individuals kept.
    pub max_size: usize,
    /// Initial population configuration.
    pub initial: InitialConfig,
}

/// Initial solution configuration.
#[derive(Clone, Copy, PartialEq, Eq, Structural, Debug)]
pub struct InitialConfig {
    /// Number of initial individuals to produce.
    pub size: usize,
}

/// A configuration which controls the evolution's execution.
pub struct EvolutionConfig<S: Selection, M: Mutation> {
    /// The operators of the run.
    pub operators: OperatorConfig<S, M>,
    /// Population configuration.
    pub population: PopulationConfig,
}

impl<S: Selection, M: Mutation> EvolutionConfig<S, M> {
    /// A configuration with the default termination (three hundred
    /// seconds, three thousand generations) and a small bounded
    /// population.
    pub fn new(selection: S, mutation: M) -> (r: EvolutionConfig<S, M>)
        ensures
            r.operators.termination.terminations@.len() == 2,
            r.operators.termination.terminations@[0] == Termination::MaxTime(300),
            r.operators.termination.terminations@[1] == Termination::MaxGeneration(3000),
            r.population == (PopulationConfig { max_size: 4, initial: InitialConfig { size: 1 } }),
    {
        let mut terminations: Vec<Termination> = Vec::new();
        terminations.push(Termination::MaxTime(300));
        terminations.push(Termination::MaxGeneration(3000));
        EvolutionConfig {
            operators: OperatorConfig {
                selection,
                mutation,
                termination: CompositeTermination::new(terminations),
            },
            population: PopulationConfig { max_size: 4, initial: InitialConfig { size: 1 } },
        }
    }
}

/// Whether offspring may still be added: they may until the quota fires.
pub fn should_add_solution(ctx: &RefinementContext) -> (r: bool)
    ensures
        r == !ctx.quota_reached,
{
    !ctx.quota_reached
}

/// All composite children keep state small enough to tick.
pub open spec fn composite_state_ok(c: CompositeTermination) -> bool {
    forall|i: int| 0 <= i < c.terminations@.len() ==> (#[trigger] c.terminations@[i]).state_ok()
}

/// Whether the run must stop now: the quota fired, or some termination
/// criterion is met. Setting the quota stops every island at its next
/// poll, within one generation.
pub fn should_stop(
    termination: &mut CompositeTermination,
    input: &TerminationInput,
    quota_reached: bool,
) -> (r: bool)
    requires
        composite_state_ok(*old(termination)),
        -16777216 <= input.best_fitness <= 16777216,
        match input.keyed_value {
            Some(v) => -16777216 <= v <= 16777216,
            None => true,
        },
    ensures
        composite_state_ok(*final(termination)),
        final(termination).terminations@.len() == old(termination).terminations@.len(),
        forall|i: int|
            0 <= i < old(termination).terminations@.len()
                ==> crate::termination::spec_child_ticked(
                old(termination).terminations@[i],
                #[trigger] final(termination).terminations@[i],
                *input,
            ),
        r == (quota_reached || exists|i: int|
            0 <= i < old(termination).terminations@.len()
                && crate::termination::spec_terminated(
                #[trigger] old(termination).terminations@[i],
                *input,
            )),
        quota_reached ==> r,
{
    let terminated = termination.is_termination(input);
    quota_reached || terminated
}

/// The best fitness a termination criterion observes: the best
/// individual's cost clamped into the exactly evaluable range, or zero
/// for an empty population.
pub open spec fn spec_observed_best(population: DominancePopulation) -> Cost {
    if population.individuals@.len() == 0 {
        0
    } else {
        let c = population.individuals@[0].cost;
        if c > 16777216 {
            16777216i64
        } else if c < -16777216 {
            -16777216i64
        } else {
            c
        }
    }
}

/// The best fitness of a population, clamped so termination criteria can
/// observe it exactly; zero when the population is empty.
pub fn observed_best(population: &DominancePopulation) -> (r: Cost)
    ensures
        r == spec_observed_best(*population),
        -16777216 <= r <= 16777216,
{
    if population.size() > 0 {
        let c = population.all()[0].cost;
        if c > 16777216 {
            16777216
        } else if c < -16777216 {
            -16777216
        } else {
            c
        }
    } else {
        0
    }
}

/// One recorded generation of the telemetry.
#[derive(Clone, Copy, PartialEq, Eq, Structural, Debug)]
pub struct GenerationRecord {
    /// Generation number.
    pub number: u64,
    /// Seconds since the run started.
    pub timestamp_secs: u64,
    /// Whether the best individual improved.
    pub improved: bool,
    /// Best cost seen at this generation.
    pub best_cost: Cost,
    /// Population size at this generation.
    pub population_size: u64,
}

/// Receives per-generation statistics; it feeds nothing back into the
/// control flow.
#[derive(Clone, Debug)]
pub struct Telemetry {
    /// Whether records are kept at all.
    pub enabled: bool,
    /// The records, one per generation.
    pub evolution: Vec<GenerationRecord>,
}

impl Telemetry {
    /// A telemetry; a disabled one keeps nothing.
    pub fn new(enabled: bool) -> (r: Telemetry)
        ensures
            r.enabled == enabled,
            r.evolution@.len() == 0,
    {
        Telemetry { enabled, evolution: Vec::new() }
    }

    /// Records one generation.
    pub fn on_generation(&mut self, record: GenerationRecord)
        ensures
            final(self).enabled == old(self).enabled,
            old(self).enabled ==> final(self).evolution@ == old(self).evolution@.push(record),
            !old(self).enabled ==> final(self).evolution@ == old(self).evolution@,
    {
        if self.enabled {
            self.evolution.push(record);
        }
    }

    /// Reports the result: the number of generations recorded.
    pub fn on_result(&self) -> (r: usize)
        ensures
            r == self.evolution@.len(),
    {
        self.evolution.len()
    }

    /// Renders the collected metrics. A record keeps per-generation
    /// counts (best cost, population size), not the individuals, so each
    /// rendered generation carries an empty population list.
    pub fn get_metrics(&self, duration_secs: u64) -> (r: Metrics)
        ensures
            r.duration == duration_secs,
            r.generations == self.evolution@.len(),
            r.evolution@.len() == self.evolution@.len(),
    {
        let mut evolution: Vec<Generation> = Vec::new();
        let mut i: usize = 0;
        while i < self.evolution.len()
            invariant
                0 <= i <= self.evolution@.len(),
                evolution@.len() == i,
            decreases self.evolution@.len() - i,
        {
            let rec = &self.evolution[i];
            evolution.push(
                Generation {
                    number: rec.number,
                    timestamp_secs: rec.timestamp_secs,
                    population: Vec::new(),
                },
            );
            i = i + 1;
        }
        let speed_milli: i64 = if duration_secs > 0 && duration_secs <= 0x7FFFFFFFFFFFFFFF
            && self.evolution.len() < 1000000 {
            ((self.evolution.len() as i64) * 1000) / (duration_secs as i64)
        } else {
            0
        };
        Metrics {
            duration: duration_secs,
            generations: self.evolution.len() as u64,
            speed_milli,
            evolution,
        }
    }
}

/// A started wall clock.
pub struct Timer {
    started: std::time::Instant,
}

#[verifier::external_type_specification]
#[verifier::external_body]
pub struct ExInstant(std::time::Instant);

impl Timer {
    /// Relies on `std::time::Instant::now` for the wall clock; nothing is
    /// promised of the instant it returns.
    #[verifier::external_body]
    pub fn start() -> (r: Timer) {
        Timer { started: std::time::Instant::now() }
    }

    /// Relies on `std::time::Instant::elapsed`; the value depends on the
    /// wall clock, so nothing is promised of it.
    #[verifier::external_body]
    pub fn elapsed_secs(&self) -> (r: u64) {
        let secs = self.started.elapsed().as_secs();
        secs
    }
}

/// A simple evolution algorithm which maintains a single population.
pub struct RunStraight {}

impl Default for RunStraight {
    /// The straight strategy carries no configuration.
    fn default() -> (r: RunStraight) {
        RunStraight {  }
    }
}

/// An evolution algorithm which runs multiple branches (islands) on each
/// generation; its coordination loop performs the channel and task work,
/// and consumes the decision logic below.
pub struct RunBranches {}

impl Default for RunBranches {
    /// The branches strategy carries no configuration.
    fn default() -> (r: RunBranches) {
        RunBranches {  }
    }
}

/// Runs one generation of the straight loop: select parents, mutate
/// them, and offer the offspring to the population unless the quota
/// fired; the generation counter advances by one. Returns whether the
/// best individual improved, exactly as the population reports it.
pub fn run_generation<S: Selection, M: Mutation>(
    ctx: &mut RefinementContext,
    selection: &S,
    mutation: &M,
) -> (improved: bool)
    requires
        old(ctx).population.wf(),
        old(ctx).statistics.generation < u64::MAX,
    ensures
        final(ctx).population.wf(),
        final(ctx).statistics.generation == old(ctx).statistics.generation + 1,
        final(ctx).quota_reached == old(ctx).quota_reached,
        old(ctx).population.individuals@.len() > 0 ==> final(ctx).population.individuals@.len()
            > 0 && lex_leq(
            final(ctx).population.individuals@[0].fitness@,
            old(ctx).population.individuals@[0].fitness@,
        ),
        old(ctx).quota_reached ==> final(ctx).population == old(ctx).population && !improved,
        !old(ctx).quota_reached ==> improved == (final(ctx).population.individuals@.len() > 0 && (
        old(ctx).population.individuals@.len() == 0 || crate::population::lex_less(
            final(ctx).population.individuals@[0].fitness@,
            old(ctx).population.individuals@[0].fitness@,
        ))),
{
    let parents = selection.select_parents(ctx);
    let offspring = mutation.mutate_all(ctx, parents);
    let improved = if should_add_solution(ctx) {
        ctx.population.add_all(offspring)
    } else {
        false
    };
    ctx.statistics.generation = ctx.statistics.generation + 1;
    improved
}

/// The exit-tick children descend from the configured criteria: same
/// kind and same parameters child by child; only a variation criterion's
/// collected observation window is left free.
pub open spec fn termination_lineage(init: Seq<Termination>, fin: Seq<Termination>) -> bool {
    &&& fin.len() == init.len()
    &&& forall|i: int|
        0 <= i < init.len() ==> match (#[trigger] init[i], #[trigger] fin[i]) {
            (Termination::MaxGeneration(a), Termination::MaxGeneration(b)) => a == b,
            (Termination::MaxTime(a), Termination::MaxTime(b)) => a == b,
            (Termination::MinVariation(v0), Termination::MinVariation(v1)) => {
                &&& v1.interval == v0.interval
                &&& v1.threshold_num == v0.threshold_num
                &&& v1.threshold_den == v0.threshold_den
                &&& v1.is_global == v0.is_global
                &&& v1.key == v0.key
            },
            _ => false,
        }
}

/// One composite tick preserves the lineage: parameters survive, so a
/// descendant of a descendant still descends from the configured
/// criteria.
proof fn lemma_lineage_step(
    init: Seq<Termination>,
    pre: Seq<Termination>,
    post: Seq<Termination>,
    input: TerminationInput,
)
    requires
        termination_lineage(init, pre),
        post.len() == pre.len(),
        forall|i: int|
            0 <= i < pre.len() ==> crate::termination::spec_child_ticked(
                pre[i],
                #[trigger] post[i],
                input,
            ),
    ensures
        termination_lineage(init, post),
{
    assert forall|i: int| 0 <= i < init.len() implies match (#[trigger] init[i], #[trigger] post[i]) {
        (Termination::MaxGeneration(a), Termination::MaxGeneration(b)) => a == b,
        (Termination::MaxTime(a), Termination::MaxTime(b)) => a == b,
        (Termination::MinVariation(v0), Termination::MinVariation(v1)) => {
            &&& v1.interval == v0.interval
            &&& v1.threshold_num == v0.threshold_num
            &&& v1.threshold_den == v0.threshold_den
            &&& v1.is_global == v0.is_global
            &&& v1.key == v0.key
        },
        _ => false,
    } by {
        assert(crate::termination::spec_child_ticked(pre[i], post[i], input));
    }
}

/// The run stopped for cause: the quota had fired at the last poll, or
/// some exit-tick descendant of a configured criterion terminated on the
/// recorded exit tick, or the generation counter is saturated.
pub open spec fn run_exit_evidence(
    init: Seq<Termination>,
    ctx: RefinementContext,
    children: Seq<Termination>,
    input: TerminationInput,
) -> bool {
    &&& termination_lineage(init, children)
    &&& input.generation == ctx.statistics.generation
    &&& input.elapsed_secs == input.now_secs
    &&& input.best_fitness == spec_observed_best(ctx.population)
    &&& input.keyed_value is None
    &&& (ctx.quota_reached || ctx.statistics.generation == u64::MAX || exists|i: int|
        0 <= i < children.len() && spec_terminated(#[trigger] children[i], input))
}

impl RunStraight {
    /// Runs generations until a termination criterion or the quota stops
    /// the loop: select parents, mutate them, offer the offspring to the
    /// population, and notify the telemetry. The best individual never
    /// regresses, and the run stops only for cause: the returned evidence
    /// names the exit tick and the criteria it was judged against, so on
    /// return the quota had fired at the last poll, or some configured
    /// criterion (same kind and parameters) terminated on that tick, or
    /// the generation counter is saturated.
    pub fn run<S: Selection, M: Mutation, Q: Quota>(
        &self,
        refinement_ctx: RefinementContext,
        operators: OperatorConfig<S, M>,
        telemetry: Telemetry,
        quota: Option<&Q>,
        timer: &Timer,
    ) -> (r: (RefinementContext, Telemetry, Ghost<(Seq<Termination>, TerminationInput)>))
        requires
            refinement_ctx.population.wf(),
            composite_state_ok(operators.termination),
        ensures
            r.0.population.wf(),
            refinement_ctx.population.individuals@.len() > 0 ==> r.0.population.individuals@.len()
                > 0 && lex_leq(
                r.0.population.individuals@[0].fitness@,
                refinement_ctx.population.individuals@[0].fitness@,
            ),
            r.0.statistics.generation >= refinement_ctx.statistics.generation,
            r.1.enabled == telemetry.enabled,
            telemetry.enabled ==> r.1.evolution@.len() == telemetry.evolution@.len() + (
            r.0.statistics.generation - refinement_ctx.statistics.generation),
            !telemetry.enabled ==> r.1.evolution@ == telemetry.evolution@,
            quota is None ==> !r.0.quota_reached,
            run_exit_evidence(operators.termination.terminations@, r.0, r.2@.0, r.2@.1),
    {
        let mut ctx = refinement_ctx;
        let mut telemetry = telemetry;
        let mut termination = operators.termination;
        let ghost init_children = operators.termination.terminations@;
        let ghost start_pop = refinement_ctx.population.individuals@;
        let ghost start_gen = refinement_ctx.statistics.generation;
        let ghost tel0 = telemetry;
        let ghost mut exit_children: Seq<Termination> = init_children;
        let ghost mut exit_input: TerminationInput = TerminationInput {
            generation: 0,
            elapsed_secs: 0,
            now_secs: 0,
            best_fitness: 0,
            keyed_value: None,
        };
        loop
            invariant
                ctx.population.wf(),
                composite_state_ok(termination),
                termination_lineage(init_children, termination.terminations@),
                start_pop.len() > 0 ==> ctx.population.individuals@.len() > 0 && lex_leq(
                    ctx.population.individuals@[0].fitness@,
                    start_pop[0].fitness@,
                ),
                ctx.statistics.generation >= start_gen,
                telemetry.enabled == tel0.enabled,
                tel0.enabled ==> telemetry.evolution@.len() == tel0.evolution@.len() + (
                ctx.statistics.generation - start_gen),
                !tel0.enabled ==> telemetry.evolution@ == tel0.evolution@,
            ensures
                ctx.population.wf(),
                start_pop.len() > 0 ==> ctx.population.individuals@.len() > 0 && lex_leq(
                    ctx.population.individuals@[0].fitness@,
                    start_pop[0].fitness@,
                ),
                ctx.statistics.generation >= start_gen,
                telemetry.enabled == tel0.enabled,
                tel0.enabled ==> telemetry.evolution@.len() == tel0.evolution@.len() + (
                ctx.statistics.generation - start_gen),
                !tel0.enabled ==> telemetry.evolution@ == tel0.evolution@,
                quota is None ==> !ctx.quota_reached,
                run_exit_evidence(init_children, ctx, exit_children, exit_input),
            decreases u64::MAX - ctx.statistics.generation,
        {
            let elapsed = timer.elapsed_secs();
            ctx.quota_reached = match quota {
                Some(q) => q.is_reached(),
                None => false,
            };
            let input = TerminationInput {
                generation: ctx.statistics.generation,
                elapsed_secs: elapsed,
                now_secs: elapsed,
                best_fitness: observed_best(&ctx.population),
                keyed_value: None,
            };
            let ghost pre_children = termination.terminations@;
            let stopped = should_stop(&mut termination, &input, ctx.quota_reached);
            proof {
                lemma_lineage_step(init_children, pre_children, termination.terminations@, input);
            }
            if stopped {
                proof {
                    exit_children = pre_children;
                    exit_input = input;
                }
                break;
            }
            if ctx.statistics.generation == u64::MAX {
                proof {
                    exit_children = termination.terminations@;
                    exit_input = input;
                }
                break;
            }
            let ghost mid = ctx.population.individuals@;
            let improved = run_generation(&mut ctx, &operators.selection, &operators.mutation);
            proof {
                if start_pop.len() > 0 {
                    lemma_lex_trans(
                        ctx.population.individuals@[0].fitness@,
                        mid[0].fitness@,
                        start_pop[0].fitness@,
                    );
                }
            }
            telemetry.on_generation(
                GenerationRecord {
                    number: ctx.statistics.generation - 1,
                    timestamp_secs: elapsed,
                    improved,
                    best_cost: observed_best(&ctx.population),
                    population_size: ctx.population.size() as u64,
                },
            );
        }
        (ctx, telemetry, Ghost((exit_children, exit_input)))
    }
}

/// Runs the evolution with the straight strategy.
pub fn run_evolution<S: Selection, M: Mutation, Q: Quota>(
    refinement_ctx: RefinementContext,
    operators: OperatorConfig<S, M>,
    telemetry: Telemetry,
    quota: Option<&Q>,
    timer: &Timer,
) -> (r: (RefinementContext, Telemetry, Ghost<(Seq<Termination>, TerminationInput)>))
    requires
        refinement_ctx.population.wf(),
        composite_state_ok(operators.termination),
    ensures
        r.0.population.wf(),
        refinement_ctx.population.individuals@.len() > 0 ==> r.0.population.individuals@.len() > 0
            && lex_leq(
            r.0.population.individuals@[0].fitness@,
            refinement_ctx.population.individuals@[0].fitness@,
        ),
        r.0.statistics.generation >= refinement_ctx.statistics.generation,
        r.1.enabled == telemetry.enabled,
        telemetry.enabled ==> r.1.evolution@.len() == telemetry.evolution@.len() + (
        r.0.statistics.generation - refinement_ctx.statistics.generation),
        quota is None ==> !r.0.quota_reached,
        run_exit_evidence(operators.termination.terminations@, r.0, r.2@.0, r.2@.1),
{
    let strategy = RunStraight {  };
    strategy.run(refinement_ctx, operators, telemetry, quota, timer)
}

/// The atomic quota of the island model: reached when the outer quota is
/// reached or the collector has terminated the super-generation.
pub fn atomic_quota_is_reached(original_reached: bool, is_terminated: bool) -> (r: bool)
    ensures
        r == (original_reached || is_terminated),
{
    original_reached || is_terminated
}

/// An exact copy of an individual.
pub fn copy_individual(ind: &Individual) -> (r: Individual)
    ensures
        r.fitness@ == ind.fitness@,
        r.tours == ind.tours,
        r.unassigned == ind.unassigned,
        r.cost == ind.cost,
{
    let mut fitness: Vec<Cost> = Vec::new();
    let mut i: usize = 0;
    while i < ind.fitness.len()
        invariant
            0 <= i <= ind.fitness@.len(),
            fitness@ =~= ind.fitness@.subrange(0, i as int),
        decreases ind.fitness@.len() - i,
    {
        fitness.push(ind.fitness[i]);
        proof {
            assert(fitness@ =~= ind.fitness@.subrange(0, i + 1));
        }
        i = i + 1;
    }
    proof {
        assert(fitness@ =~= ind.fitness@);
    }
    Individual { fitness, tours: ind.tours, unassigned: ind.unassigned, cost: ind.cost }
}

/// A copy carries the same fitness view and the same plain fields.
pub open spec fn individual_like(a: Individual, b: Individual) -> bool {
    &&& a.fitness@ == b.fitness@
    &&& a.tours == b.tours
    &&& a.unassigned == b.unassigned
    &&& a.cost == b.cost
}

/// The length of the leading run of individuals whose fitness equals the
/// best individual's, scanned from index `i`.
pub open spec fn spec_best_prefix_upto(s: Seq<Individual>, i: int) -> int
    decreases s.len() - i,
{
    if i < 0 || i >= s.len() || s[i].fitness@ != s[0].fitness@ {
        i
    } else {
        spec_best_prefix_upto(s, i + 1)
    }
}

/// The scan result is pinned by any witness position: a fully equal
/// prefix followed by a mismatch (or the end) is the leading run.
proof fn lemma_best_prefix_char(s: Seq<Individual>, t: int, i: int)
    requires
        0 <= t <= i <= s.len(),
        forall|j: int| 0 <= j < i ==> (#[trigger] s[j]).fitness@ == s[0].fitness@,
        i == s.len() || s[i].fitness@ != s[0].fitness@,
    ensures
        spec_best_prefix_upto(s, t) == i,
    decreases i - t,
{
    if t < i {
        lemma_best_prefix_char(s, t + 1, i);
    }
}

/// Copies of the non-dominated (rank zero) individuals: in a sorted
/// population these are exactly the leading run of best-fitness members,
/// and each appears exactly once, in order, with every field copied.
pub fn get_best_individuals(population: &DominancePopulation) -> (r: Vec<Individual>)
    requires
        population.wf(),
    ensures
        r@.len() == spec_best_prefix_upto(population.individuals@, 0),
        population.individuals@.len() > 0 ==> r@.len() > 0,
        forall|j: int|
            0 <= j < r@.len() ==> individual_like(
                #[trigger] r@[j],
                population.individuals@[j],
            ),
        forall|j: int|
            0 <= j < r@.len() ==> (#[trigger] r@[j]).fitness@
                == population.individuals@[0].fitness@,
{
    let ghost s = population.individuals@;
    let mut r: Vec<Individual> = Vec::new();
    let mut i: usize = 0;
    while i < population.individuals.len() && matches!(
        lex_cmp(&population.individuals[i].fitness, &population.individuals[0].fitness),
        core::cmp::Ordering::Equal,
    )
        invariant
            population.wf(),
            s == population.individuals@,
            0 <= i <= s.len(),
            r@.len() == i,
            forall|j: int| 0 <= j < i ==> (#[trigger] s[j]).fitness@ == s[0].fitness@,
            forall|j: int| 0 <= j < i ==> individual_like(#[trigger] r@[j], s[j]),
        decreases s.len() - i,
    {
        proof {
            lemma_lex_cmp_total(s[i as int].fitness@, s[0].fitness@);
        }
        r.push(copy_individual(&population.individuals[i]));
        i = i + 1;
    }
    proof {
        if i < s.len() {
            lemma_lex_cmp_total(s[i as int].fitness@, s[0].fitness@);
        }
        lemma_best_prefix_char(s, 0, i as int);
    }
    r
}

/// A local island population seeded with copies of the given seeds: its
/// best individual is at least as good as every seed.
pub fn create_branch_population(seeds: &Vec<Individual>, max_size: usize) -> (r:
    DominancePopulation)
    requires
        max_size >= 1,
    ensures
        r.wf(),
        r.max_size == max_size,
        r.individuals@.len() == if seeds@.len() < max_size {
            seeds@.len() as int
        } else {
            max_size as int
        },
        seeds@.len() > 0 ==> r.individuals@.len() > 0,
        forall|j: int|
            0 <= j < seeds@.len() ==> r.individuals@.len() > 0 && lex_leq(
                r.individuals@[0].fitness@,
                (#[trigger] seeds@[j]).fitness@,
            ),
{
    let mut population = DominancePopulation::new(max_size, 4);
    let mut i: usize = 0;
    while i < seeds.len()
        invariant
            population.wf(),
            population.max_size == max_size,
            0 <= i <= seeds@.len(),
            population.individuals@.len() == if (i as int) < max_size {
                i as int
            } else {
                max_size as int
            },
            i > 0 ==> population.individuals@.len() > 0,
            forall|j: int|
                0 <= j < i ==> population.individuals@.len() > 0 && lex_leq(
                    population.individuals@[0].fitness@,
                    (#[trigger] seeds@[j]).fitness@,
                ),
        decreases seeds@.len() - i,
    {
        let ghost mid = population.individuals@;
        let ind = copy_individual(&seeds[i]);
        let ghost indf = ind.fitness@;
        let added = population.add(ind);
        proof {
            let new0 = population.individuals@[0].fitness@;
            if mid.len() > 0 {
                lemma_lex_cmp_total(indf, mid[0].fitness@);
                lemma_lex_cmp_total(new0, mid[0].fitness@);
                if !added {
                    lemma_lex_trans(new0, mid[0].fitness@, indf);
                }
                assert forall|j: int| 0 <= j < i implies lex_leq(
                    new0,
                    (#[trigger] seeds@[j]).fitness@,
                ) by {
                    lemma_lex_trans(new0, mid[0].fitness@, seeds@[j].fitness@);
                }
            } else {
                lemma_lex_cmp_total(new0, new0);
            }
        }
        i = i + 1;
    }
    population
}

/// The island model never regresses relative to its seed: a branch starts
/// no worse than the seed and only improves, so it ends no worse than the
/// seed.
pub proof fn lemma_island_never_regresses(
    seed_best: Seq<Cost>,
    branch_start: Seq<Cost>,
    branch_end: Seq<Cost>,
)
    requires
        lex_leq(branch_start, seed_best),
        lex_leq(branch_end, branch_start),
    ensures
        lex_leq(branch_end, seed_best),
{
    lemma_lex_trans(branch_end, branch_start, seed_best);
}

/// The collector of the island model: it counts the chunks the islands
/// send and remembers whether any reported an improvement; the
/// super-generation ends when the message budget is reached.
#[derive(Clone, Copy, PartialEq, Eq, Structural, Debug)]
pub struct Collector {
    /// Number of messages after which collection stops.
    pub budget: usize,
    /// Messages received so far.
    pub chunks: usize,
    /// Whether any received batch improved the best.
    pub improved: bool,
}

impl Collector {
    /// A fresh collector with the given message budget.
    pub fn new(budget: usize) -> (r: Collector)
        ensures
            r.budget == budget,
            r.chunks == 0,
            !r.improved,
    {
        Collector { budget, chunks: 0, improved: false }
    }

    /// Consumes one message; returns whether the collector keeps
    /// receiving.
    pub fn on_message(&mut self, batch_improved: bool) -> (r: bool)
        ensures
            final(self).budget == old(self).budget,
            final(self).chunks == if old(self).chunks < old(self).budget {
                old(self).chunks + 1
            } else {
                old(self).chunks as int
            },
            final(self).improved == (old(self).improved || batch_improved),
            r == (final(self).chunks < final(self).budget),
    {
        if self.chunks < self.budget {
            self.chunks = self.chunks + 1;
        }
        if batch_improved {
            self.improved = true;
        }
        self.chunks < self.budget
    }
}

} // verus!
