//! End-to-end tick scenarios driven against the kernel coordinator.

use pressure_kernel::config::{
    ActivationConfig, ConfigError, DecayConfig, KernelConfig, PressureAxisConfig, SelectionConfig,
};
use pressure_kernel::fixed::SCALE;
use pressure_kernel::kernel::{Kernel, RegionInit};
use pressure_kernel::messages::{MeasurementResult, PatchProposal, ScoredPatch};
use pressure_kernel::region::{Patch, PatchOp, RejectReason};
use pressure_kernel::signals::Signals;

fn one_axis_config(inhibit_ms: u64, max_patches: usize) -> KernelConfig {
    KernelConfig {
        tick_interval_ms: 1000,
        pressure_axes: vec![PressureAxisConfig {
            name: "warnings".to_string(),
            weight: 2 * SCALE,
            expr: "warning_count".to_string(),
            kind_weights: Vec::new(),
        }],
        decay: DecayConfig {
            fitness_half_life_ms: 0,
            confidence_half_life_ms: 0,
            ema_alpha: SCALE,
        },
        activation: ActivationConfig {
            min_total_pressure: 2 * SCALE,
            inhibit_ms,
        },
        selection: SelectionConfig {
            max_patches_per_tick: max_patches,
            min_expected_improvement: 0,
        },
    }
}

fn signals_with(name: &str, value: i64) -> Signals {
    let mut s = Signals::new();
    s.set(name.to_string(), value);
    s
}

fn region(id: u128) -> RegionInit {
    RegionInit {
        id,
        kind: "function".to_string(),
    }
}

fn warning_patch(region_id: u128, delta: i64) -> Patch {
    Patch {
        region: region_id,
        op: PatchOp::Replace(b"fixed() { :; }".to_vec()),
        rationale: "reduce warnings".to_string(),
        expected_delta: signals_with("warning_count", delta),
    }
}

/// Run one full tick: measure, select, propose, apply, complete.
fn run_tick(
    kernel: &mut Kernel,
    now_ms: u64,
    measurement: Option<i64>,
    proposal: Option<(i64, Option<i64>)>,
) -> pressure_kernel::messages::TickComplete {
    let sensors = vec!["shellcheck".to_string()];
    let reqs = kernel.begin_tick(now_ms, &sensors);
    if let Some(warnings) = measurement {
        for req in &reqs {
            let ok = kernel.ingest_measurement(
                &MeasurementResult {
                    correlation_id: req.correlation_id,
                    region_id: req.region_id,
                    sensor_name: req.sensor_name.clone(),
                    signals: signals_with("warning_count", warnings),
                },
                now_ms,
            );
            assert!(ok.is_some());
        }
    }
    kernel.end_measurement_phase();
    let props = kernel.query_and_select(now_ms);
    if let Some((delta, _)) = proposal {
        for p in &props {
            let accepted = kernel.ingest_proposal(PatchProposal {
                correlation_id: p.correlation_id,
                actor_name: "proposer".to_string(),
                patches: vec![ScoredPatch {
                    score: SCALE,
                    patch: warning_patch(p.region_id, delta),
                }],
            });
            assert!(accepted);
        }
    }
    let dispatches = kernel.dispatch_patches();
    for d in &dispatches {
        let post = proposal.and_then(|(_, p)| p).map(|w| signals_with("warning_count", w));
        kernel.apply_dispatch(d, true, post, now_ms);
    }
    kernel.complete_tick()
}

#[test]
fn single_region_reduction() {
    let config = one_axis_config(0, 1);
    let mut kernel = Kernel::new(config, &vec![region(7)], 1).unwrap();
    // Initial signals: three warnings (pressure six); the patch promises
    // a reduction of two and the re-measurement shows one warning left.
    let tc = run_tick(&mut kernel, 0, Some(3 * SCALE), Some((-2 * SCALE, Some(SCALE))));
    assert_eq!(tc.applied.len(), 1);
    assert_eq!(tc.rejected.len(), 0);
    assert_eq!(tc.applied[0].old_pressure, 6 * SCALE);
    assert_eq!(tc.applied[0].new_pressure, 2 * SCALE);
    assert_eq!(tc.total_pressure, 2 * SCALE);
    assert_eq!(kernel.regions[0].state.version, 1);
    assert_eq!(kernel.regions[0].state.fitness, 4 * SCALE);
    assert_eq!(kernel.regions[0].state.confidence, SCALE);
}

#[test]
fn inhibition_blocks_reselection() {
    let config = one_axis_config(60_000, 1);
    let mut kernel = Kernel::new(config, &vec![region(7)], 1).unwrap();
    let tc0 = run_tick(&mut kernel, 0, Some(3 * SCALE), Some((-2 * SCALE, Some(SCALE))));
    assert_eq!(tc0.applied.len(), 1);
    assert_eq!(kernel.regions[0].state.inhibited_until_ms, 60_000);
    // At one second the region is still inhibited: no proposal request
    // is issued, nothing is applied, the total pressure is unchanged.
    let tc1 = run_tick(&mut kernel, 1000, None, Some((-2 * SCALE, Some(0))));
    assert_eq!(tc1.applied.len(), 0);
    assert_eq!(tc1.total_pressure, tc0.total_pressure);
    assert_eq!(kernel.regions[0].state.version, 1);
}

#[test]
fn decay_restores_fitness_weight() {
    // Fitness half-life of one second, inhibition off: two applies at
    // t = 0 and t = 2000 leave fitness delta0 / 4 + delta1.
    let mut config = one_axis_config(0, 1);
    config.decay.fitness_half_life_ms = 1000;
    let mut kernel = Kernel::new(config, &vec![region(7)], 1).unwrap();
    let tc0 = run_tick(&mut kernel, 0, Some(3 * SCALE), Some((-2 * SCALE, Some(SCALE))));
    assert_eq!(tc0.applied.len(), 1);
    let delta0 = tc0.applied[0].old_pressure - tc0.applied[0].new_pressure;
    assert_eq!(kernel.regions[0].state.fitness, delta0);
    let tc1 = run_tick(&mut kernel, 2000, Some(SCALE), Some((-SCALE, Some(0))));
    assert_eq!(tc1.applied.len(), 1);
    let delta1 = tc1.applied[0].old_pressure - tc1.applied[0].new_pressure;
    assert_eq!(kernel.regions[0].state.fitness, delta0 / 4 + delta1);
}

#[test]
fn tie_break_is_deterministic() {
    // Two regions at identical pressure; the lexicographically smaller
    // id must win on every repetition.
    for _ in 0..3 {
        let config = one_axis_config(0, 1);
        let mut kernel = Kernel::new(config, &vec![region(9), region(4)], 1).unwrap();
        let sensors = vec!["shellcheck".to_string()];
        let reqs = kernel.begin_tick(0, &sensors);
        for req in &reqs {
            kernel.ingest_measurement(
                &MeasurementResult {
                    correlation_id: req.correlation_id,
                    region_id: req.region_id,
                    sensor_name: req.sensor_name.clone(),
                    signals: signals_with("warning_count", 2 * SCALE),
                },
                0,
            );
        }
        kernel.end_measurement_phase();
        let props = kernel.query_and_select(0);
        assert_eq!(props.len(), 1);
        assert_eq!(props[0].region_id, 4);
    }
}

#[test]
fn rejection_on_no_improvement() {
    let config = one_axis_config(60_000, 1);
    let mut kernel = Kernel::new(config, &vec![region(7)], 1).unwrap();
    // The re-measurement reports the same pressure: the patch must be
    // rejected, version and inhibition untouched.
    let tc = run_tick(&mut kernel, 0, Some(3 * SCALE), Some((-2 * SCALE, Some(3 * SCALE))));
    assert_eq!(tc.applied.len(), 0);
    assert_eq!(tc.rejected.len(), 1);
    assert_eq!(tc.rejected[0].reason, RejectReason::DidNotReduce);
    assert_eq!(kernel.regions[0].state.version, 0);
    assert_eq!(kernel.regions[0].state.inhibited_until_ms, 0);
}

#[test]
fn deadline_leaves_no_live_correlation() {
    // The sensor never replies: the phase deadline fires, the remaining
    // phases proceed on stale signals, and the in-flight tables are
    // empty at tick end.
    let config = one_axis_config(0, 1);
    let mut kernel = Kernel::new(config, &vec![region(7)], 1).unwrap();
    let tc = run_tick(&mut kernel, 0, None, None);
    assert_eq!(tc.applied.len(), 0);
    assert_eq!(kernel.measurements.len(), 0);
    assert_eq!(kernel.proposals.len(), 0);
    assert_eq!(kernel.regions[0].state.version, 0);
}

#[test]
fn two_ticks_without_change_are_a_no_op() {
    // With no measurement results and no patch slots, two consecutive
    // ticks leave region state untouched apart from timestamps.
    let config = one_axis_config(0, 0);
    let mut kernel = Kernel::new(config, &vec![region(7)], 1).unwrap();
    run_tick(&mut kernel, 0, Some(3 * SCALE), None);
    let version = kernel.regions[0].state.version;
    let fitness = kernel.regions[0].state.fitness;
    let confidence = kernel.regions[0].state.confidence;
    let pressure = kernel.regions[0].state.pressure;
    let inhibited = kernel.regions[0].state.inhibited_until_ms;
    let tc1 = run_tick(&mut kernel, 1000, None, None);
    let tc2 = run_tick(&mut kernel, 2000, None, None);
    assert_eq!(tc1.applied.len(), 0);
    assert_eq!(tc2.applied.len(), 0);
    assert_eq!(kernel.regions[0].state.version, version);
    assert_eq!(kernel.regions[0].state.fitness, fitness);
    assert_eq!(kernel.regions[0].state.confidence, confidence);
    assert_eq!(kernel.regions[0].state.pressure, pressure);
    assert_eq!(kernel.regions[0].state.inhibited_until_ms, inhibited);
}

#[test]
fn version_is_monotone_across_ticks() {
    let config = one_axis_config(0, 1);
    let mut kernel = Kernel::new(config, &vec![region(7)], 1).unwrap();
    let mut last = 0;
    for t in 0..4u64 {
        run_tick(
            &mut kernel,
            t * 1000,
            Some(3 * SCALE),
            Some((-2 * SCALE, Some(SCALE))),
        );
        let v = kernel.regions[0].state.version;
        assert!(v >= last);
        last = v;
    }
}

#[test]
fn total_pressure_sums_regions() {
    let config = one_axis_config(0, 0);
    let mut kernel = Kernel::new(config, &vec![region(1), region(2)], 1).unwrap();
    let tc = run_tick(&mut kernel, 0, Some(2 * SCALE), None);
    // Each region carries pressure four (two warnings at weight two).
    assert_eq!(tc.total_pressure, 8 * SCALE);
    assert_eq!(
        tc.total_pressure,
        kernel.regions[0].state.pressure + kernel.regions[1].state.pressure
    );
}

#[test]
fn stale_version_is_rejected() {
    let config = one_axis_config(0, 1);
    let mut kernel = Kernel::new(config, &vec![region(7)], 1).unwrap();
    let sensors = vec!["shellcheck".to_string()];
    let reqs = kernel.begin_tick(0, &sensors);
    for req in &reqs {
        kernel.ingest_measurement(
            &MeasurementResult {
                correlation_id: req.correlation_id,
                region_id: req.region_id,
                sensor_name: req.sensor_name.clone(),
                signals: signals_with("warning_count", 3 * SCALE),
            },
            0,
        );
    }
    kernel.end_measurement_phase();
    let props = kernel.query_and_select(0);
    assert_eq!(props.len(), 1);
    kernel.ingest_proposal(PatchProposal {
        correlation_id: props[0].correlation_id,
        actor_name: "proposer".to_string(),
        patches: vec![ScoredPatch {
            score: SCALE,
            patch: warning_patch(7, -2 * SCALE),
        }],
    });
    let dispatches = kernel.dispatch_patches();
    assert_eq!(dispatches.len(), 1);
    let mut stale = pressure_kernel::messages::RegionApplyPatch {
        region_id: dispatches[0].region_id,
        base_version: dispatches[0].base_version + 1,
        patch: warning_patch(7, -2 * SCALE),
        tick_id: dispatches[0].tick_id,
    };
    let res = kernel.apply_dispatch(&stale, true, Some(signals_with("warning_count", SCALE)), 0);
    assert!(!res.applied);
    assert_eq!(res.reason, Some(RejectReason::StaleVersion));
    stale.base_version -= 1;
    let missing = pressure_kernel::messages::RegionApplyPatch {
        region_id: 999,
        base_version: 0,
        patch: warning_patch(999, -2 * SCALE),
        tick_id: 0,
    };
    let res2 = kernel.apply_dispatch(&missing, true, Some(signals_with("warning_count", SCALE)), 0);
    assert_eq!(res2.reason, Some(RejectReason::RegionMissing));
    let res3 = kernel.apply_dispatch(&stale, false, Some(signals_with("warning_count", SCALE)), 0);
    assert_eq!(res3.reason, Some(RejectReason::InvalidPatch));
}

#[test]
fn unknown_correlation_ids_are_discarded() {
    let config = one_axis_config(0, 1);
    let mut kernel = Kernel::new(config, &vec![region(7)], 1).unwrap();
    let sensors = vec!["shellcheck".to_string()];
    let _ = kernel.begin_tick(0, &sensors);
    let routed = kernel.ingest_measurement(
        &MeasurementResult {
            correlation_id: u128::MAX,
            region_id: 7,
            sensor_name: "shellcheck".to_string(),
            signals: signals_with("warning_count", SCALE),
        },
        0,
    );
    assert!(routed.is_none());
    let accepted = kernel.ingest_proposal(PatchProposal {
        correlation_id: u128::MAX,
        actor_name: "proposer".to_string(),
        patches: Vec::new(),
    });
    assert!(!accepted);
}

#[test]
fn construction_rejects_bad_configuration() {
    let mut config = one_axis_config(0, 1);
    config.pressure_axes[0].weight = -1;
    match Kernel::new(config, &vec![region(7)], 1) {
        Err(e) => assert_eq!(e, ConfigError::NegativeWeight),
        Ok(_) => panic!("negative weight accepted"),
    }
    let mut config2 = one_axis_config(0, 1);
    config2.decay.ema_alpha = 0;
    match Kernel::new(config2, &vec![region(7)], 1) {
        Err(e) => assert_eq!(e, ConfigError::EmaAlphaOutOfRange),
        Ok(_) => panic!("zero alpha accepted"),
    }
    let mut config3 = one_axis_config(0, 1);
    config3.selection.min_expected_improvement = -1;
    match Kernel::new(config3, &vec![region(7)], 1) {
        Err(e) => assert_eq!(e, ConfigError::NegativeMinImprovement),
        Ok(_) => panic!("negative gate accepted"),
    }
}

#[test]
fn ema_smoothing_blends_measurements() {
    // With alpha one fifth, a measurement of five over a previous value
    // of zero leaves one fifth of the new value.
    let mut config = one_axis_config(0, 0);
    config.decay.ema_alpha = SCALE / 5;
    let mut kernel = Kernel::new(config, &vec![region(7)], 1).unwrap();
    run_tick(&mut kernel, 0, Some(5 * SCALE), None);
    // First observation of the channel is taken unsmoothed.
    assert_eq!(kernel.regions[0].state.pressure, 10 * SCALE);
    run_tick(&mut kernel, 1000, Some(10 * SCALE), None);
    // Blend: 5 + (10 - 5) / 5 = 6 warnings, pressure twelve.
    assert_eq!(kernel.regions[0].state.pressure, 12 * SCALE);
}

#[test]
fn kind_weight_overrides_apply() {
    let mut config = one_axis_config(0, 0);
    config.pressure_axes[0].kind_weights = vec![pressure_kernel::config::KindWeight {
        kind: "function".to_string(),
        weight: 3 * SCALE,
    }];
    let mut kernel = Kernel::new(config, &vec![region(7)], 1).unwrap();
    let tc = run_tick(&mut kernel, 0, Some(2 * SCALE), None);
    // The per-kind weight of three replaces the base weight of two.
    assert_eq!(tc.total_pressure, 6 * SCALE);
}

#[test]
fn selection_gate_filters_weak_patches() {
    let mut config = one_axis_config(0, 1);
    // Demand at least three units of expected improvement.
    config.selection.min_expected_improvement = 3 * SCALE;
    let mut kernel = Kernel::new(config, &vec![region(7)], 1).unwrap();
    let sensors = vec!["shellcheck".to_string()];
    let reqs = kernel.begin_tick(0, &sensors);
    for req in &reqs {
        kernel.ingest_measurement(
            &MeasurementResult {
                correlation_id: req.correlation_id,
                region_id: req.region_id,
                sensor_name: req.sensor_name.clone(),
                signals: signals_with("warning_count", 3 * SCALE),
            },
            0,
        );
    }
    kernel.end_measurement_phase();
    let props = kernel.query_and_select(0);
    assert_eq!(props.len(), 1);
    // A promised reduction of one warning is worth two units: below the
    // gate, so nothing is dispatched.
    kernel.ingest_proposal(PatchProposal {
        correlation_id: props[0].correlation_id,
        actor_name: "proposer".to_string(),
        patches: vec![ScoredPatch {
            score: SCALE,
            patch: warning_patch(7, -SCALE),
        }],
    });
    let dispatches = kernel.dispatch_patches();
    assert_eq!(dispatches.len(), 0);
}

#[test]
fn highest_scoring_qualifying_patch_wins() {
    let config = one_axis_config(0, 1);
    let mut kernel = Kernel::new(config, &vec![region(7)], 1).unwrap();
    let sensors = vec!["shellcheck".to_string()];
    let reqs = kernel.begin_tick(0, &sensors);
    for req in &reqs {
        kernel.ingest_measurement(
            &MeasurementResult {
                correlation_id: req.correlation_id,
                region_id: req.region_id,
                sensor_name: req.sensor_name.clone(),
                signals: signals_with("warning_count", 3 * SCALE),
            },
            0,
        );
    }
    kernel.end_measurement_phase();
    let props = kernel.query_and_select(0);
    let mut best = warning_patch(7, -2 * SCALE);
    best.rationale = "better".to_string();
    kernel.ingest_proposal(PatchProposal {
        correlation_id: props[0].correlation_id,
        actor_name: "proposer".to_string(),
        patches: vec![
            ScoredPatch { score: SCALE, patch: warning_patch(7, -SCALE) },
            ScoredPatch { score: 2 * SCALE, patch: best },
        ],
    });
    let dispatches = kernel.dispatch_patches();
    assert_eq!(dispatches.len(), 1);
    assert_eq!(dispatches[0].patch.rationale, "better");
}
