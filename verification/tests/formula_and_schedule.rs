use wave_trainer::agent::{Agent, FunctionCoefficients, WaveFunction};
use wave_trainer::engine::Trainer;
use wave_trainer::params::HyperParameters;
use wave_trainer::schedule::sort_schedule;

fn term(kind: WaveFunction, scale: i64, shift: i64) -> FunctionCoefficients {
    FunctionCoefficients {
        function_type: kind,
        scale,
        x_translation: shift,
    }
}

#[test]
fn formula_of_one_sine_term() {
    let a = Agent {
        functions: vec![term(WaveFunction::Sine, 65536, 0)],
        fitness: 0,
    };
    assert_eq!(a.render_formula(), "65536/65536*sin(x + 0/65536)");
}

#[test]
fn formula_joins_terms_and_prints_negatives() {
    let a = Agent {
        functions: vec![
            term(WaveFunction::Sine, -32768, 123),
            term(WaveFunction::SawTooth, 70000, -1),
        ],
        fitness: 0,
    };
    assert_eq!(
        a.render_formula(),
        "-32768/65536*sin(x + 123/65536) + 70000/65536*frac(x + -1/65536)"
    );
}

#[test]
fn formula_of_zero_term_agent_is_empty() {
    let a = Agent::default();
    assert_eq!(a.render_formula(), "");
}

#[test]
fn best_formula_matches_best_agent() {
    let mut t = Trainer::new(16, 4, 1 << 30).expect("allocation");
    let goal = vec![0i64, 100, -100, 7];
    t.init(HyperParameters::default(), 11, &goal).expect("init");
    let formula = t.best_formula();
    let best = t.best();
    assert_eq!(formula, best.render_formula());
}

#[test]
fn bitonic_schedule_for_eight_lanes() {
    let s = sort_schedule(8);
    assert_eq!(s, vec![(1, 2), (2, 4), (1, 4), (4, 8), (2, 8), (1, 8)]);
}

#[test]
fn bitonic_schedule_for_one_lane_is_empty() {
    let s = sort_schedule(1);
    assert!(s.is_empty());
}

#[test]
fn bitonic_schedule_passes_within_bounds() {
    let n = 64;
    let s = sort_schedule(n);
    // Stages 2, 4, .., 64: lengths 1 + 2 + .. + 6 passes.
    assert_eq!(s.len(), 21);
    for (j, k) in s {
        assert!(1 <= j && j < k && k <= n);
    }
}
