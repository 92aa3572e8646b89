//! Termination, population dominance, the straight evolution loop, the
//! island decision logic and the configuration builder.

use vrp_core::evolution::{
    atomic_quota_is_reached, create_branch_population, get_best_individuals, observed_best,
    run_evolution, should_add_solution, should_stop, Collector, Mutation, OperatorConfig, Quota,
    RefinementContext, RunStraight, Selection, Statistics, Telemetry, Timer,
};
use vrp_core::heuristics::{Builder, MinCvRequest};
use vrp_core::population::{DominancePopulation, Individual};
use vrp_core::research::ProxyPopulation;
use vrp_core::termination::{
    CompositeTermination, MinVariation, Termination, TerminationInput,
};

fn individual(fitness: Vec<i64>, cost: i64) -> Individual {
    Individual {
        fitness,
        tours: 1,
        unassigned: 0,
        cost,
    }
}

fn input(generation: u64, elapsed: u64, best: i64) -> TerminationInput {
    TerminationInput {
        generation,
        elapsed_secs: elapsed,
        now_secs: elapsed,
        best_fitness: best,
        keyed_value: None,
    }
}

#[test]
fn composite_terminates_exactly_when_some_child_does() {
    let mut composite = CompositeTermination::new(vec![
        Termination::MaxGeneration(5),
        Termination::MaxTime(10),
    ]);

    assert!(!composite.is_termination(&input(4, 10, 0)));
    assert!(composite.is_termination(&input(5, 0, 0)));
    assert!(composite.is_termination(&input(0, 11, 0)));
    assert!(composite.is_termination(&input(5, 11, 0)));
}

#[test]
fn variation_terminates_on_flat_sample() {
    let variation = MinVariation::new_with_sample(3, 1, 10, true, 0);
    let mut term = Termination::MinVariation(variation);

    // Not enough observations yet.
    assert!(!term.is_termination(&input(0, 0, 100)));
    assert!(!term.is_termination(&input(1, 1, 100)));
    // Three identical observations: the variation is zero.
    assert!(term.is_termination(&input(2, 2, 100)));

    let variation = MinVariation::new_with_sample(3, 1, 10, true, 0);
    let mut term = Termination::MinVariation(variation);
    assert!(!term.is_termination(&input(0, 0, 100)));
    assert!(!term.is_termination(&input(1, 1, 500)));
    // Widely spread observations keep the search going.
    assert!(!term.is_termination(&input(2, 2, 100)));
}

#[test]
fn population_keeps_best_first_and_bounded() {
    let mut population = DominancePopulation::new(2, 2);
    assert!(population.add(individual(vec![5], 5)));
    assert!(!population.add(individual(vec![7], 7)));
    assert!(population.add(individual(vec![3], 3)));
    // Bounded at two: the dominated-furthest member was evicted.
    assert_eq!(population.size(), 2);
    assert_eq!(population.all()[0].fitness, vec![3]);
    assert_eq!(population.all()[1].fitness, vec![5]);
    assert_eq!(population.rank_of(0), 0);
    assert!(population.rank_of(1) != 0);
}

struct BestSelection;

impl Selection for BestSelection {
    fn select_parents(&self, ctx: &RefinementContext) -> Vec<Individual> {
        ctx.population
            .all()
            .iter()
            .map(|i| Individual {
                fitness: i.fitness.clone(),
                tours: i.tours,
                unassigned: i.unassigned,
                cost: i.cost,
            })
            .collect()
    }
}

struct ImproveByOne;

impl Mutation for ImproveByOne {
    fn mutate_all(&self, _ctx: &RefinementContext, parents: Vec<Individual>) -> Vec<Individual> {
        parents
            .into_iter()
            .map(|mut i| {
                if i.fitness[0] > 0 {
                    i.fitness[0] -= 1;
                    i.cost -= 1;
                }
                i
            })
            .collect()
    }
}

struct NeverReached;

impl Quota for NeverReached {
    fn is_reached(&self) -> bool {
        false
    }
}

struct AlwaysReached;

impl Quota for AlwaysReached {
    fn is_reached(&self) -> bool {
        true
    }
}

fn seeded_context(best: i64) -> RefinementContext {
    let mut population = DominancePopulation::new(4, 2);
    population.add(individual(vec![best], best));
    RefinementContext {
        population,
        statistics: Statistics { generation: 0 },
        quota_reached: false,
    }
}

#[test]
fn straight_run_stops_and_never_regresses() {
    let mut terminations = Vec::new();
    terminations.push(Termination::MaxGeneration(50));
    let operators = OperatorConfig {
        selection: BestSelection,
        mutation: ImproveByOne,
        termination: CompositeTermination::new(terminations),
    };
    let timer = Timer::start();
    let (ctx, telemetry, _evidence) = run_evolution(
        seeded_context(40),
        operators,
        Telemetry::new(true),
        Option::<&NeverReached>::None,
        &timer,
    );

    assert_eq!(ctx.statistics.generation, 50);
    assert_eq!(telemetry.evolution.len(), 50);
    // The best individual never regresses relative to the seed.
    assert!(ctx.population.all()[0].fitness[0] <= 40);
    assert_eq!(ctx.population.all()[0].fitness[0], 0);
}

#[test]
fn quota_cancellation_stops_within_one_generation() {
    let mut terminations = Vec::new();
    terminations.push(Termination::MaxGeneration(1000));
    let operators = OperatorConfig {
        selection: BestSelection,
        mutation: ImproveByOne,
        termination: CompositeTermination::new(terminations),
    };
    let timer = Timer::start();
    let strategy = RunStraight::default();
    let (ctx, _telemetry, _evidence) = strategy.run(
        seeded_context(40),
        operators,
        Telemetry::new(false),
        Some(&AlwaysReached),
        &timer,
    );

    // The pre-cancellation best is returned untouched.
    assert_eq!(ctx.statistics.generation, 0);
    assert_eq!(ctx.population.all()[0].fitness[0], 40);
}

#[test]
fn should_stop_honours_quota_and_termination() {
    let mut composite = CompositeTermination::new(vec![Termination::MaxGeneration(5)]);
    assert!(should_stop(&mut composite, &input(1, 0, 0), true));
    assert!(!should_stop(&mut composite, &input(1, 0, 0), false));
    assert!(should_stop(&mut composite, &input(5, 0, 0), false));

    let ctx = seeded_context(1);
    assert!(should_add_solution(&ctx));
    assert!(atomic_quota_is_reached(false, true));
    assert!(atomic_quota_is_reached(true, false));
    assert!(!atomic_quota_is_reached(false, false));
}

#[test]
fn islands_never_regress_relative_to_seed() {
    let mut root = DominancePopulation::new(4, 2);
    root.add(individual(vec![9], 9));
    root.add(individual(vec![9], 9));
    root.add(individual(vec![12], 12));

    let seeds = get_best_individuals(&root);
    assert!(seeds.len() >= 1);
    assert!(seeds.iter().all(|s| s.fitness == vec![9]));

    let local = create_branch_population(&seeds, 4);
    assert_eq!(local.all()[0].fitness, vec![9]);

    let mut terminations = Vec::new();
    terminations.push(Termination::MaxGeneration(12));
    let operators = OperatorConfig {
        selection: BestSelection,
        mutation: ImproveByOne,
        termination: CompositeTermination::new(terminations),
    };
    let timer = Timer::start();
    let (branch_ctx, _telemetry, _evidence) = run_evolution(
        RefinementContext {
            population: local,
            statistics: Statistics { generation: 0 },
            quota_reached: false,
        },
        operators,
        Telemetry::new(false),
        Option::<&NeverReached>::None,
        &timer,
    );

    // Fifty generations split over four islands: each island alone already
    // ends at least as good as its seed.
    assert!(branch_ctx.population.all()[0].fitness[0] <= 9);
}

#[test]
fn collector_stops_at_message_budget() {
    let mut collector = Collector::new(3);
    assert!(collector.on_message(false));
    assert!(collector.on_message(true));
    assert!(!collector.on_message(false));
    assert_eq!(collector.chunks, 3);
    assert!(collector.improved);
}

#[test]
fn builder_defaults_and_config_error() {
    let config = Builder::new().build().unwrap();
    assert_eq!(config.termination.terminations.len(), 2);
    assert!(matches!(
        config.termination.terminations[0],
        Termination::MaxGeneration(3000)
    ));
    assert!(matches!(
        config.termination.terminations[1],
        Termination::MaxTime(300)
    ));

    let config = Builder::new()
        .with_max_generations(Some(42))
        .with_min_cv(
            Some(MinCvRequest {
                interval_type: "sample".to_string(),
                value: 10,
                threshold_num: 1,
                threshold_den: 100,
                is_global: true,
            }),
            0,
        )
        .build()
        .unwrap();
    assert_eq!(config.termination.terminations.len(), 2);
    assert!(matches!(
        config.termination.terminations[0],
        Termination::MaxGeneration(42)
    ));

    let config = Builder::new()
        .with_max_generations(Some(42))
        .with_max_time(Some(60))
        .build()
        .unwrap();
    assert_eq!(config.termination.terminations.len(), 2);
    assert!(matches!(
        config.termination.terminations[0],
        Termination::MaxGeneration(42)
    ));
    assert!(matches!(
        config.termination.terminations[1],
        Termination::MaxTime(60)
    ));

    let config = Builder::new().with_max_time(Some(60)).build().unwrap();
    assert_eq!(config.termination.terminations.len(), 1);
    assert!(matches!(
        config.termination.terminations[0],
        Termination::MaxTime(60)
    ));

    let error = Builder::new()
        .with_min_cv(
            Some(MinCvRequest {
                interval_type: "epoch".to_string(),
                value: 10,
                threshold_num: 1,
                threshold_den: 100,
                is_global: true,
            }),
            0,
        )
        .build();
    match error {
        Err(message) => assert_eq!(message, "unknown variation interval type: epoch"),
        Ok(_) => unreachable!(),
    }
}

#[test]
fn proxy_population_records_observations() {
    let inner = DominancePopulation::new(4, 2);
    let mut proxy = ProxyPopulation::new(inner);
    // The result reports whether the best changed, as the inner
    // population does.
    assert!(proxy.add(individual(vec![5, 6], 5)));
    assert!(!proxy.add(individual(vec![7, 7], 7)));
    let inner = DominancePopulation::new(4, 2);
    let mut proxy = ProxyPopulation::new(inner);
    proxy.add(individual(vec![5, 6], 5));
    proxy.add_all(vec![individual(vec![4, 4], 4), individual(vec![6, 6], 6)]);
    proxy.on_generation(1);
    let picks = proxy.select();

    assert_eq!(proxy.data.on_add.len(), 3);
    assert_eq!(proxy.data.on_add[0].1.x, 5);
    assert_eq!(proxy.data.on_add[0].1.z, 6);
    assert_eq!(proxy.data.on_generation, vec![(1, 3)]);
    assert_eq!(picks.len(), 2);
    assert_eq!(proxy.data.on_select.len(), 2);
    assert_eq!(proxy.size(), 3);

    proxy.data.clear();
    assert_eq!(proxy.data.on_add.len(), 0);
}

#[test]
fn observed_best_is_clamped() {
    let mut population = DominancePopulation::new(2, 2);
    assert_eq!(observed_best(&population), 0);
    population.add(Individual {
        fitness: vec![1],
        tours: 0,
        unassigned: 0,
        cost: i64::MAX,
    });
    assert_eq!(observed_best(&population), 16777216);
}

#[test]
fn generic_value_tracks_route_and_solution_values() {
    let (constraint, objective) = vrp_core::objectives::WorkBalance::new_activity_balanced(Some(1));
    assert!(matches!(
        constraint.source,
        vrp_core::objectives::ValueSource::ActivityCount
    ));

    let mut solution = vrp_core::contexts::SolutionContext::empty();
    constraint.accept_solution_state(&mut solution);
    assert_eq!(objective.fitness(&solution), 0);

    let better = solution.clone();
    let mut worse = vrp_core::contexts::SolutionContext::empty();
    worse.state.insert(vrp_core::state::BALANCE_ACTIVITY_KEY, 9);
    assert!(matches!(
        objective.total_order(&better, &worse),
        core::cmp::Ordering::Less
    ));
    assert!(matches!(
        objective.total_order(&worse, &worse),
        core::cmp::Ordering::Equal
    ));
}

#[test]
fn single_generation_step_reports_improvement() {
    let mut ctx = seeded_context(10);
    let improved = vrp_core::evolution::run_generation(&mut ctx, &BestSelection, &ImproveByOne);
    assert!(improved);
    assert_eq!(ctx.statistics.generation, 1);
    assert_eq!(ctx.population.all()[0].fitness, vec![9]);

    ctx.quota_reached = true;
    let improved = vrp_core::evolution::run_generation(&mut ctx, &BestSelection, &ImproveByOne);
    assert!(!improved);
    assert_eq!(ctx.population.all()[0].fitness, vec![9]);
}
