//! Strategies, pressure weights, sensors, corpus and configuration.

use pressure_kernel::baselines::{
    CoordinationStrategy, HierarchicalStrategy, RandomStrategy, RankedAssignment,
    SequentialStrategy,
};
use pressure_kernel::corpus::{CorpusConfig, CorpusGenerator, IssueType};
use pressure_kernel::experiment::ExperimentConfig;
use pressure_kernel::fixed::{decay_factor, ema_blend, mul_scaled, SCALE};
use pressure_kernel::region::RejectReason;
use pressure_kernel::pressure::ShellcheckPressure;
use pressure_kernel::sensors::{ShellcheckIssue, ShellcheckSensor};
use pressure_kernel::signals::Signals;

fn signal_map(entries: &[(&str, i64)]) -> Signals {
    let mut s = Signals::new();
    for (name, value) in entries {
        s.set(name.to_string(), *value);
    }
    s
}

#[test]
fn test_sequential_round_robin() {
    let mut strategy = SequentialStrategy::new(2);
    let regions: Vec<u128> = vec![11, 22, 33, 44, 55];

    let first = strategy.select_next(&regions);
    assert_eq!(first.len(), 2);
    assert_eq!(first[0].1, regions[0]);
    assert_eq!(first[1].1, regions[1]);

    let second = strategy.select_next(&regions);
    assert_eq!(second.len(), 2);
    assert_eq!(second[0].1, regions[2]);
    assert_eq!(second[1].1, regions[3]);
}

#[test]
fn sequential_wraps_and_resets() {
    let mut strategy = SequentialStrategy::new(3);
    let regions: Vec<u128> = vec![1, 2, 3, 4];
    let first = strategy.select_next(&regions);
    assert_eq!(first.len(), 3);
    let second = strategy.select_next(&regions);
    assert_eq!(second.len(), 1);
    assert_eq!(second[0].1, 4);
    // Past the end the sequence starts over.
    let third = strategy.select_next(&regions);
    assert_eq!(third[0].1, 1);
    strategy.reset();
    let fourth = strategy.select_next(&regions);
    assert_eq!(fourth[0].1, 1);
    assert_eq!(strategy.agent_count(), 3);
}

#[test]
fn test_random_selection() {
    let mut strategy = RandomStrategy::new(2, 42);
    let regions: Vec<u128> = vec![10, 20, 30, 40, 50];
    let selections = strategy.select_random(&regions);
    assert_eq!(selections.len(), 2);
    for (agent, id) in &selections {
        assert!(*agent < 2);
        assert!(regions.contains(id));
    }
}

#[test]
fn test_unique_selection() {
    let mut strategy = RandomStrategy::new(3, 42);
    let regions: Vec<u128> = vec![10, 20, 30, 40, 50];
    let selections = strategy.select_unique(&regions);
    assert_eq!(selections.len(), 3);
    for i in 0..selections.len() {
        for j in (i + 1)..selections.len() {
            assert_ne!(selections[i].1, selections[j].1);
        }
    }
}

#[test]
fn test_hierarchical_creation() {
    let strategy = HierarchicalStrategy::new(4);
    assert_eq!(strategy.agent_count(), 4);
}

#[test]
fn hierarchical_deals_by_pressure() {
    let strategy = HierarchicalStrategy::new(2);
    let measured = vec![
        RankedAssignment { agent: 0, id: 1, pressure: SCALE },
        RankedAssignment { agent: 0, id: 2, pressure: 5 * SCALE },
        RankedAssignment { agent: 0, id: 3, pressure: 3 * SCALE },
    ];
    let dealt = strategy.assign_by_pressure(&measured);
    assert_eq!(dealt.len(), 3);
    assert_eq!(dealt[0].id, 2);
    assert_eq!(dealt[1].id, 3);
    assert_eq!(dealt[2].id, 1);
    assert_eq!(dealt[0].agent, 0);
    assert_eq!(dealt[1].agent, 1);
    assert_eq!(dealt[2].agent, 0);
}

#[test]
fn strategy_names_round_trip() {
    for (name, expect) in [
        ("pressure-field", CoordinationStrategy::PressureField),
        ("Pressure", CoordinationStrategy::PressureField),
        ("PF", CoordinationStrategy::PressureField),
        ("hierarchical", CoordinationStrategy::Hierarchical),
        ("HIER", CoordinationStrategy::Hierarchical),
        ("h", CoordinationStrategy::Hierarchical),
        ("sequential", CoordinationStrategy::Sequential),
        ("Seq", CoordinationStrategy::Sequential),
        ("s", CoordinationStrategy::Sequential),
        ("random", CoordinationStrategy::Random),
        ("rand", CoordinationStrategy::Random),
        ("R", CoordinationStrategy::Random),
    ] {
        assert_eq!(CoordinationStrategy::parse_name(name), Some(expect));
    }
    assert_eq!(CoordinationStrategy::parse_name("simulated-annealing"), None);
    assert_eq!(
        CoordinationStrategy::parse_name("pressure-field").unwrap().label(),
        "pressure-field"
    );
}

#[test]
fn test_pressure_calculation() {
    let pressure = ShellcheckPressure::new();
    let signals = signal_map(&[
        ("error_count", SCALE),
        ("warning_count", 2 * SCALE),
        ("info_count", SCALE),
        ("style_count", 2 * SCALE),
    ]);
    // 1*4 + 2*2 + 1*1 + 2*0.5 = 10
    assert_eq!(pressure.calculate(&signals), 10 * SCALE);
}

#[test]
fn test_activation_threshold() {
    let pressure = ShellcheckPressure::new().with_threshold(5 * SCALE);
    let low_signals = signal_map(&[("warning_count", SCALE)]);
    let high_signals = signal_map(&[("error_count", 2 * SCALE)]);
    assert!(!pressure.is_active(&low_signals));
    assert!(pressure.is_active(&high_signals));
}

#[test]
fn test_shellcheck_sensor_creation() {
    let sensor = ShellcheckSensor::new();
    assert_eq!(sensor.name(), "shellcheck");
}

fn issue(level: &str) -> ShellcheckIssue {
    ShellcheckIssue {
        line: 1,
        column: 1,
        end_line: 1,
        end_column: 2,
        level: level.to_string(),
        code: 2086,
        message: "finding".to_string(),
    }
}

#[test]
fn sensor_maps_issues_to_signals() {
    let sensor = ShellcheckSensor::new();
    let issues = vec![issue("error"), issue("warning"), issue("warning"), issue("style")];
    let signals = sensor.signals_from_issues(&issues, 4);
    assert_eq!(signals.get(&"error_count".to_string()), Some(SCALE));
    assert_eq!(signals.get(&"warning_count".to_string()), Some(2 * SCALE));
    assert_eq!(signals.get(&"info_count".to_string()), Some(0));
    assert_eq!(signals.get(&"style_count".to_string()), Some(SCALE));
    assert_eq!(signals.get(&"total_issues".to_string()), Some(4 * SCALE));
    assert_eq!(signals.get(&"issue_density".to_string()), Some(SCALE));
    // An empty snapshot counts as one line.
    let empty = sensor.signals_from_issues(&Vec::new(), 0);
    assert_eq!(empty.get(&"issue_density".to_string()), Some(0));
}

#[test]
fn test_corpus_generator() {
    let config = CorpusConfig {
        script_count: 2,
        min_functions: 2,
        max_functions: 3,
        min_issues: 1,
        max_issues: 2,
        seed: 42,
    };
    let mut generator = CorpusGenerator::new(config);
    let script = String::from_utf8(generator.generate_script(0)).unwrap();
    assert!(script.starts_with("#!/bin/bash"));
    assert!(script.contains("func_0()"));
}

#[test]
fn corpus_issue_lines_match_their_kind() {
    assert_eq!(IssueType::UnquotedVariable.shellcheck_code(), 2086);
    assert_eq!(IssueType::BacktickSubstitution.shellcheck_code(), 2006);
    assert_eq!(IssueType::UselessCat.severity(), "style");
    assert_eq!(IssueType::DoubleQuotedSingleQuotes.severity(), "info");
    assert_eq!(IssueType::all().len(), 6);
    let config = CorpusConfig::new_default();
    assert_eq!(config.script_count, 10);
    let mut generator = CorpusGenerator::new(config);
    let line = String::from_utf8(generator.generate_issue_line(IssueType::UselessCat)).unwrap();
    assert_eq!(line, "cat /etc/passwd | grep root");
}

#[test]
fn test_experiment_config_default() {
    let config = ExperimentConfig::new_default();
    assert_eq!(config.agent_count, 1);
    assert!(config.decay_enabled);
    assert!(config.inhibition_enabled);
}

#[test]
fn experiment_metrics_ratios() {
    let mut metrics = pressure_kernel::experiment::ExperimentMetrics::new_empty();
    metrics.initial_pressure = 10 * SCALE;
    metrics.final_pressure = 4 * SCALE;
    metrics.llm_calls = 3;
    metrics.finalize();
    // Reduction: 6 / 10 = 0.6; efficiency: six units over three calls.
    assert_eq!(metrics.pressure_reduction, 6 * SCALE / 10);
    assert_eq!(metrics.llm_efficiency, 2 * SCALE);
}

#[test]
fn decay_factor_and_blend_are_exact() {
    assert_eq!(decay_factor(0, 1000), SCALE);
    assert_eq!(decay_factor(1000, 1000), SCALE / 2);
    assert_eq!(decay_factor(2000, 1000), SCALE / 4);
    assert_eq!(decay_factor(500, 1000), SCALE - SCALE / 4);
    assert_eq!(decay_factor(12345, 0), SCALE);
    assert_eq!(mul_scaled(4 * SCALE, SCALE / 4), SCALE);
    assert_eq!(ema_blend(SCALE / 5, 5 * SCALE, 10 * SCALE), 6 * SCALE);
    assert_eq!(ema_blend(SCALE / 5, 7 * SCALE, 7 * SCALE), 7 * SCALE);
}

#[test]
fn results_writer_remembers_destination() {
    let writer = pressure_kernel::results::ResultsWriter::new("results".to_string());
    assert_eq!(writer.output_dir().as_str(), "results");
}

#[test]
fn reject_reasons_have_stable_labels() {
    assert_eq!(RejectReason::DidNotReduce.label(), "did_not_reduce");
    assert_eq!(RejectReason::StaleVersion.label(), "stale_version");
    assert_eq!(RejectReason::InvalidPatch.label(), "invalid_patch");
    assert_eq!(RejectReason::RegionMissing.label(), "region_missing");
}
