//! Configuration of a heuristic evolution run, built in fluent style.

use vstd::prelude::*;

use crate::evolution::Telemetry;
use crate::population::Individual;
use vstd::string::StringExecFns;

use crate::termination::{CompositeTermination, MinVariation, Termination, VariationInterval};

verus! {

/// An initial-solutions configuration.
pub struct InitialConfig {
    /// Initial size of the population to be generated.
    pub max_size: usize,
    /// Share of the run budget spent on initial solutions, in parts per
    /// thousand.
    pub quota_permille: u64,
    /// Initial individuals in the population.
    pub individuals: Vec<Individual>,
}

/// A configuration which controls the evolution's execution.
pub struct EvolutionConfig {
    /// The initial solution configuration.
    pub initial: InitialConfig,
    /// When the evolution stops.
    pub termination: CompositeTermination,
    /// The telemetry to be used.
    pub telemetry: Telemetry,
}

/// A coefficient-of-variation request: interval type, value, threshold
/// numerator and denominator, and whether the population-wide fitness is
/// observed.
pub struct MinCvRequest {
    /// `sample` or `period`.
    pub interval_type: String,
    /// Number of observations, or seconds.
    pub value: u64,
    /// Threshold numerator.
    pub threshold_num: i64,
    /// Threshold denominator.
    pub threshold_den: i64,
    /// Whether the population-wide fitness is observed.
    pub is_global: bool,
}

/// A built variation criterion matches the request: same thresholds,
/// scope and key, a fresh window, and the requested interval (a sample
/// size is kept within the exactly evaluable range).
pub open spec fn built_variation_matches(t: Termination, request: MinCvRequest, key: i32) -> bool {
    &&& t matches Termination::MinVariation(v) && {
        &&& v.threshold_num == request.threshold_num
        &&& v.threshold_den == request.threshold_den
        &&& v.is_global == request.is_global
        &&& v.key == key
        &&& v.observations@.len() == 0
        &&& if request.interval_type@ == "sample"@ {
            v.interval == VariationInterval::Sample(
                if request.value > 1024 {
                    1024usize
                } else if request.value == 0 {
                    1usize
                } else {
                    request.value as usize
                },
            )
        } else {
            v.interval == VariationInterval::Period(request.value)
        }
    }
}

/// Builds an evolution configuration in fluent style.
pub struct Builder {
    /// Largest number of generations, when limited.
    pub max_generations: Option<u64>,
    /// Largest number of seconds, when limited.
    pub max_time: Option<u64>,
    /// A variation criterion request, when one was made, with its state
    /// key.
    pub min_cv: Option<(MinCvRequest, i32)>,
    /// The configuration under construction.
    pub config: EvolutionConfig,
}

impl Builder {
    /// A builder with no limits set and a small initial population.
    pub fn new() -> (r: Builder)
        ensures
            r.max_generations is None,
            r.max_time is None,
            r.min_cv is None,
            r.config.initial.max_size == 4,
            r.config.initial.quota_permille == 50,
            r.config.initial.individuals@.len() == 0,
            r.config.termination.terminations@.len() == 0,
            !r.config.telemetry.enabled,
    {
        Builder {
            max_generations: None,
            max_time: None,
            min_cv: None,
            config: EvolutionConfig {
                initial: InitialConfig {
                    max_size: 4,
                    quota_permille: 50,
                    individuals: Vec::new(),
                },
                termination: CompositeTermination::new(Vec::new()),
                telemetry: Telemetry::new(false),
            },
        }
    }

    /// Sets the telemetry. The default telemetry records nothing.
    pub fn with_telemetry(self, telemetry: Telemetry) -> (r: Builder)
        ensures
            r.config.telemetry == telemetry,
            r.max_generations == self.max_generations,
            r.max_time == self.max_time,
            r.min_cv == self.min_cv,
            r.config.initial == self.config.initial,
            r.config.termination == self.config.termination,
    {
        Builder { config: EvolutionConfig { telemetry, ..self.config }, ..self }
    }

    /// Sets the largest number of generations the evolution runs.
    pub fn with_max_generations(self, limit: Option<u64>) -> (r: Builder)
        ensures
            r.max_generations == limit,
            r.max_time == self.max_time,
            r.min_cv == self.min_cv,
            r.config == self.config,
    {
        Builder { max_generations: limit, ..self }
    }

    /// Sets the variation-coefficient termination criterion.
    pub fn with_min_cv(self, min_cv: Option<MinCvRequest>, key: i32) -> (r: Builder)
        ensures
            match (r.min_cv, min_cv) {
                (Some(rc), Some(c)) => rc.0 == c && rc.1 == key,
                (None, None) => true,
                _ => false,
            },
            r.max_generations == self.max_generations,
            r.max_time == self.max_time,
            r.config == self.config,
    {
        Builder {
            min_cv: match min_cv {
                Some(c) => Some((c, key)),
                None => None,
            },
            ..self
        }
    }

    /// Sets the largest running time of the evolution, in seconds.
    pub fn with_max_time(self, limit: Option<u64>) -> (r: Builder)
        ensures
            r.max_time == limit,
            r.max_generations == self.max_generations,
            r.min_cv == self.min_cv,
            r.config == self.config,
    {
        Builder { max_time: limit, ..self }
    }

    /// Sets the parameters used to construct the initial population.
    pub fn with_initial(self, max_size: usize, quota_permille: u64) -> (r: Builder)
        ensures
            r.config.initial.max_size == max_size,
            r.config.initial.quota_permille == quota_permille,
            r.config.initial.individuals == self.config.initial.individuals,
            r.max_generations == self.max_generations,
            r.max_time == self.max_time,
            r.min_cv == self.min_cv,
            r.config.termination == self.config.termination,
            r.config.telemetry == self.config.telemetry,
    {
        Builder {
            config: EvolutionConfig {
                initial: InitialConfig {
                    max_size,
                    quota_permille,
                    individuals: self.config.initial.individuals,
                },
                ..self.config
            },
            ..self
        }
    }

    /// Sets the initial solutions of the population. The default is none.
    pub fn with_init_solutions(
        self,
        solutions: Vec<Individual>,
        max_init_size: Option<usize>,
    ) -> (r: Builder)
        ensures
            r.config.initial.individuals == solutions,
            r.config.initial.max_size == match max_init_size {
                Some(s) => s,
                None => self.config.initial.max_size,
            },
            r.config.initial.quota_permille == self.config.initial.quota_permille,
            r.max_generations == self.max_generations,
            r.max_time == self.max_time,
            r.min_cv == self.min_cv,
            r.config.termination == self.config.termination,
            r.config.telemetry == self.config.telemetry,
    {
        let max_size = match max_init_size {
            Some(s) => s,
            None => self.config.initial.max_size,
        };
        Builder {
            config: EvolutionConfig {
                initial: InitialConfig {
                    max_size,
                    quota_permille: self.config.initial.quota_permille,
                    individuals: solutions,
                },
                ..self.config
            },
            ..self
        }
    }

    /// Sets the termination outright, replacing the limit-derived one.
    pub fn with_termination(self, termination: CompositeTermination) -> (r: Builder)
        ensures
            r.config.termination == termination,
            r.max_generations is None,
            r.max_time is None,
            r.min_cv is None,
            r.config.initial == self.config.initial,
            r.config.telemetry == self.config.telemetry,
    {
        Builder {
            max_generations: None,
            max_time: None,
            min_cv: None,
            config: EvolutionConfig { termination, ..self.config },
        }
    }

    /// Builds the configuration. With no limit set, the default criteria
    /// are three thousand generations and three hundred seconds. With any
    /// limit set, the composite holds exactly the configured criteria, in
    /// the order generation limit, time limit, variation criterion; an
    /// unknown variation interval type is a configuration error and never
    /// reaches the solver loop.
    pub fn build(self) -> (r: Result<EvolutionConfig, String>)
        ensures
            match r {
                Ok(config) => {
                    &&& config.initial == self.config.initial
                    &&& config.telemetry == self.config.telemetry
                    &&& match (self.max_generations, self.max_time, self.min_cv) {
                        (None, None, None) => {
                            &&& config.termination.terminations@.len() == 2
                            &&& config.termination.terminations@[0] == Termination::MaxGeneration(
                                3000,
                            )
                            &&& config.termination.terminations@[1] == Termination::MaxTime(300)
                        },
                        _ => {
                            let gens = match self.max_generations {
                                Some(_) => 1int,
                                None => 0int,
                            };
                            let times = match self.max_time {
                                Some(_) => 1int,
                                None => 0int,
                            };
                            let cvs = match self.min_cv {
                                Some(_) => 1int,
                                None => 0int,
                            };
                            &&& (self.min_cv matches Some(cv) ==> (cv.0.interval_type@
                                == "sample"@ || cv.0.interval_type@ == "period"@))
                            &&& config.termination.terminations@.len() == gens + times + cvs
                            &&& (self.max_generations matches Some(limit)
                                ==> config.termination.terminations@[0]
                                == Termination::MaxGeneration(limit))
                            &&& (self.max_time matches Some(limit)
                                ==> config.termination.terminations@[gens]
                                == Termination::MaxTime(limit))
                            &&& (self.min_cv matches Some(cv) ==> built_variation_matches(
                                config.termination.terminations@[gens + times],
                                cv.0,
                                cv.1,
                            ))
                        },
                    }
                },
                Err(e) => {
                    &&& self.min_cv matches Some(cv) && cv.0.interval_type@ != "sample"@
                        && cv.0.interval_type@ != "period"@ && e@
                        == "unknown variation interval type: "@ + cv.0.interval_type@
                },
            },
    {
        let has_limits = self.max_generations.is_some() || self.max_time.is_some()
            || self.min_cv.is_some();
        let mut terminations: Vec<Termination> = Vec::new();
        if !has_limits {
            terminations.push(Termination::MaxGeneration(3000));
            terminations.push(Termination::MaxTime(300));
        } else {
            if let Some(limit) = self.max_generations {
                terminations.push(Termination::MaxGeneration(limit));
            }
            if let Some(limit) = self.max_time {
                terminations.push(Termination::MaxTime(limit));
            }
            if let Some((request, key)) = self.min_cv {
                let variation: Termination = if request.interval_type.eq(
                    &("sample".to_owned()),
                ) {
                    let sample: usize = if request.value > 1024 {
                        1024
                    } else if request.value == 0 {
                        1
                    } else {
                        request.value as usize
                    };
                    Termination::MinVariation(
                        MinVariation::new_with_sample(
                            sample,
                            request.threshold_num,
                            request.threshold_den,
                            request.is_global,
                            key,
                        ),
                    )
                } else if request.interval_type.eq(&("period".to_owned())) {
                    Termination::MinVariation(
                        MinVariation::new_with_period(
                            request.value,
                            request.threshold_num,
                            request.threshold_den,
                            request.is_global,
                            key,
                        ),
                    )
                } else {
                    return Err(
                        "unknown variation interval type: ".to_owned().concat(
                            request.interval_type.as_str(),
                        ),
                    );
                };
                terminations.push(variation);
            }
        }
        let config = self.config;
        Ok(
            EvolutionConfig {
                initial: config.initial,
                termination: CompositeTermination::new(terminations),
                telemetry: config.telemetry,
            },
        )
    }
}

} // verus!
