use wave_trainer::agent::Agent;
use wave_trainer::engine::{is_power_of_two, Trainer};
use wave_trainer::fixed::{fp_add, fp_mul, FP_MAX, FP_SCALE};
use wave_trainer::params::{top_count, HyperParameters};
use wave_trainer::wave::{render_samples, sine_wave};
use wave_trainer::TrainError;

fn small_trainer() -> Trainer {
    Trainer::new(16, 4, 1 << 30).expect("allocation within budget")
}

#[test]
fn allocation_exact_boundary() {
    // 16 agents at 208 bytes each plus two 4-sample buffers at 8 bytes a sample.
    let need: u64 = 16 * 208 + 4 * 16;
    assert!(Trainer::new(16, 4, need).is_ok());
    assert_eq!(
        Trainer::new(16, 4, need - 1).err(),
        Some(TrainError::AllocationError)
    );
}

#[test]
fn power_of_two_check() {
    assert!(is_power_of_two(1));
    assert!(is_power_of_two(16));
    assert!(is_power_of_two(1 << 26));
    assert!(!is_power_of_two(0));
    assert!(!is_power_of_two(12));
}

#[test]
fn elite_count_is_floor_of_fraction() {
    let params = HyperParameters::default();
    // 16 * 13107 / 65536 = 3.19.. so three elites.
    assert_eq!(top_count(16, &params), 3);
    assert_eq!(top_count(1, &params), 0);
}

#[test]
fn init_wrong_goal_length_is_size_mismatch_and_changes_nothing() {
    let mut t = Trainer::new(512, 512, 1 << 30).expect("allocation");
    let goal = vec![0i64; 3];
    let r = t.init(HyperParameters::default(), 7, &goal);
    assert_eq!(r.err(), Some(TrainError::SizeMismatch));
    assert!(!t.initialized);
    for a in &t.agents {
        assert_eq!(a.fitness, 0);
        assert_eq!(a.functions.len(), 0);
    }
}

#[test]
fn render_out_of_range_is_index_out_of_range() {
    let mut t = small_trainer();
    let goal = vec![0i64; 4];
    t.init(HyperParameters::default(), 1, &goal).expect("init");
    let r = t.output(17);
    assert_eq!(r.err(), Some(TrainError::IndexOutOfRange));
}

#[test]
fn population_sorted_after_init_and_step() {
    let mut t = small_trainer();
    let goal = vec![0i64, 0, 0, 0];
    t.init(HyperParameters::default(), 1, &goal).expect("init");
    for i in 1..16 {
        assert!(t.agents[i - 1].fitness <= t.agents[i].fitness);
    }
    t.step(3).expect("step");
    for i in 1..16 {
        assert!(t.agents[i - 1].fitness <= t.agents[i].fitness);
    }
}

#[test]
fn zero_goal_scenario_fitness_nonnegative_and_best_never_degrades() {
    let mut t = small_trainer();
    let goal = vec![0i64, 0, 0, 0];
    t.init(HyperParameters::default(), 1, &goal).expect("init");
    for a in &t.agents {
        assert!(a.fitness >= 0);
    }
    let before = t.best_fitness();
    t.step(5).expect("step");
    let after = t.best_fitness();
    assert!(after <= before);
}

#[test]
fn best_matches_slot_zero_and_is_cached() {
    let mut t = small_trainer();
    let goal = vec![100i64, -100, 50, 0];
    t.init(HyperParameters::default(), 9, &goal).expect("init");
    let b1 = t.best();
    assert_eq!(b1.fitness, t.agents[0].fitness);
    let b2 = t.best();
    assert_eq!(b1.fitness, b2.fitness);
    assert_eq!(b1.functions.len(), b2.functions.len());
}

#[test]
fn init_is_deterministic() {
    let goal = vec![32768i64, -32768, 16384, 0];
    let mut t1 = small_trainer();
    let mut t2 = small_trainer();
    t1.init(HyperParameters::default(), 42, &goal).expect("init");
    t2.init(HyperParameters::default(), 42, &goal).expect("init");
    for i in 0..16 {
        assert_eq!(t1.agents[i].fitness, t2.agents[i].fitness);
        assert_eq!(t1.agents[i].functions, t2.agents[i].functions);
        assert_eq!(t1.rngs[i], t2.rngs[i]);
    }
    let mut t3 = small_trainer();
    t3.init(HyperParameters::default(), 43, &goal).expect("init");
    let same = (0..16).all(|i| t1.agents[i].functions == t3.agents[i].functions);
    assert!(!same);
}

#[test]
fn output_zero_renders_best_agent() {
    let mut t = small_trainer();
    let goal = vec![1000i64, 2000, -1000, 0];
    t.init(HyperParameters::default(), 5, &goal).expect("init");
    t.step(2).expect("step");
    let rendered = t.output(0).expect("render");
    let best = t.best();
    let direct = render_samples(&best.functions, 4);
    assert_eq!(rendered, direct);
}

#[test]
fn zero_term_agent_renders_all_zeros() {
    let a = Agent::default();
    assert_eq!(a.functions_len(), 0);
    let out = render_samples(&a.functions, 8);
    assert_eq!(out, vec![0i64; 8]);
}

#[test]
fn term_count_stays_within_capacity() {
    // Addition forced on every mutation draw: never exceeds the capacity.
    let mut params = HyperParameters::default();
    params.starting_functions = 8;
    params.function_addition_probability = FP_SCALE;
    params.function_subtraction_probability = 0;
    let mut t = small_trainer();
    let goal = vec![0i64, 0, 0, 0];
    t.init(params, 3, &goal).expect("init");
    t.step(4).expect("step");
    for a in &t.agents {
        assert!(a.functions.len() <= 8);
    }
}

#[test]
fn removing_last_term_is_a_no_op() {
    // Removal forced on every mutation draw: never drops below one term.
    let mut params = HyperParameters::default();
    params.starting_functions = 1;
    params.mutation_probability = 0;
    params.function_addition_probability = 0;
    params.function_subtraction_probability = FP_SCALE;
    let mut t = small_trainer();
    let goal = vec![0i64, 0, 0, 0];
    t.init(params, 3, &goal).expect("init");
    t.step(4).expect("step");
    for a in &t.agents {
        assert_eq!(a.functions.len(), 1);
    }
}

#[test]
fn fixed_point_arithmetic_exact_values() {
    assert_eq!(fp_add(3 * FP_SCALE, 4 * FP_SCALE), 7 * FP_SCALE);
    assert_eq!(fp_add(FP_MAX, FP_MAX), FP_MAX);
    assert_eq!(fp_add(-FP_MAX, -FP_MAX), -FP_MAX);
    assert_eq!(fp_mul(2 * FP_SCALE, 3 * FP_SCALE), 6 * FP_SCALE);
    assert_eq!(fp_mul(-2 * FP_SCALE, 3 * FP_SCALE), -6 * FP_SCALE);
    assert_eq!(fp_mul(FP_SCALE / 2, FP_SCALE / 2), FP_SCALE / 4);
}

#[test]
fn sine_basis_quarter_points() {
    assert_eq!(sine_wave(0), 0);
    assert_eq!(sine_wave(FP_SCALE / 4), FP_SCALE);
    assert_eq!(sine_wave(FP_SCALE / 2), 0);
    assert_eq!(sine_wave(3 * (FP_SCALE / 4)), -FP_SCALE);
}

#[test]
fn elites_survive_one_generation() {
    let mut t = small_trainer();
    let goal = vec![500i64, -500, 250, 0];
    t.init(HyperParameters::default(), 21, &goal).expect("init");
    let top = top_count(16, &HyperParameters::default());
    let elites: Vec<_> = t.agents[..top]
        .iter()
        .map(|a| (a.functions.clone(), a.fitness))
        .collect();
    t.step(1).expect("step");
    for (functions, fitness) in &elites {
        let survived = t
            .agents
            .iter()
            .any(|a| a.fitness == *fitness && a.functions == *functions);
        assert!(survived);
    }
}
