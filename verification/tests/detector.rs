use flight_core::detector::{
    Cycle, Detector, DetectorConfig, Phase, PhaseDetectorState, Pyro,
};

fn config() -> DetectorConfig {
    DetectorConfig { significant_change: 1000, hysteresis_count: 3, main_deploy_altitude: 150_000 }
}

fn armed(baseline: i32) -> PhaseDetectorState {
    let mut s = PhaseDetectorState::new();
    s.arm(baseline);
    s
}

fn rank(p: Phase) -> u8 {
    match p {
        Phase::Idle => 0,
        Phase::Armed => 1,
        Phase::Ascending => 2,
        Phase::Descending => 3,
        Phase::MainDeployed => 4,
        Phase::Logging => 5,
    }
}

#[test]
fn new_detector_is_idle_and_stays_idle() {
    let mut s = PhaseDetectorState::new();
    assert_eq!(s.phase, Phase::Idle);
    for avg in [0, 1_000_000, -5, i32::MAX] {
        assert_eq!(s.step(&config(), avg), None);
        assert_eq!(s, PhaseDetectorState::new());
    }
}

#[test]
fn arming_sets_the_baseline_once() {
    let mut s = PhaseDetectorState::new();
    s.arm(48_000);
    assert_eq!(
        s,
        PhaseDetectorState {
            phase: Phase::Armed,
            baseline_altitude: 48_000,
            peak_altitude: 48_000,
            above_threshold_count: 0,
        }
    );
    s.arm(1);
    assert_eq!(s.baseline_altitude, 48_000);
    assert_eq!(s.phase, Phase::Armed);
}

#[test]
fn liftoff_needs_more_than_the_count() {
    let cfg = config();
    let mut s = armed(48_000);
    // exactly at the threshold does not qualify
    assert_eq!(s.step(&cfg, 49_000), None);
    assert_eq!(s.above_threshold_count, 0);
    for n in 1..=3 {
        assert_eq!(s.step(&cfg, 49_001), None);
        assert_eq!(s.phase, Phase::Armed);
        assert_eq!(s.above_threshold_count, n);
    }
    assert_eq!(s.step(&cfg, 49_500), None);
    assert_eq!(s.phase, Phase::Ascending);
    assert_eq!(s.above_threshold_count, 0);
    assert_eq!(s.peak_altitude, 49_500);
}

#[test]
fn whole_flight_fires_drogue_then_main() {
    let cfg = config();
    let mut s = armed(48_000);
    let mut trace: Vec<i32> = vec![];
    // on the pad
    trace.extend([48_000, 48_010, 47_990, 48_005]);
    // the climb
    trace.extend((1..=60).map(|i| 48_000 + i * 10_000));
    // over the top and down to the ground
    trace.extend((1..=70).map(|i| 648_000 - i * 9_000));
    trace.extend([48_000; 10]);

    let mut fired = vec![];
    let mut phases = vec![s.phase];
    for avg in trace {
        if let Some(p) = s.step(&cfg, avg) {
            fired.push(p);
        }
        assert!(rank(s.phase) >= rank(*phases.last().unwrap()));
        assert!(rank(s.phase) <= rank(*phases.last().unwrap()) + 1);
        if s.phase != *phases.last().unwrap() {
            phases.push(s.phase);
        }
    }
    assert_eq!(fired, vec![Pyro::Drogue, Pyro::Main]);
    assert_eq!(
        phases,
        vec![
            Phase::Armed,
            Phase::Ascending,
            Phase::Descending,
            Phase::MainDeployed,
            Phase::Logging
        ]
    );
    assert_eq!(s.peak_altitude, 648_000);
}

#[test]
fn apogee_on_the_third_sample_below_the_peak() {
    let cfg = config();
    let mut s = PhaseDetectorState {
        phase: Phase::Ascending,
        baseline_altitude: 0,
        peak_altitude: 500_000,
        above_threshold_count: 0,
    };
    assert_eq!(s.step(&cfg, 499_001), None);
    assert_eq!(s.above_threshold_count, 0);
    assert_eq!(s.step(&cfg, 499_000), None);
    assert_eq!(s.above_threshold_count, 1);
    assert_eq!(s.step(&cfg, 498_000), None);
    assert_eq!(s.above_threshold_count, 2);
    assert_eq!(s.step(&cfg, 497_000), Some(Pyro::Drogue));
    assert_eq!(s.phase, Phase::Descending);
    assert_eq!(s.above_threshold_count, 0);
    assert_eq!(s.peak_altitude, 500_000);
}

#[test]
fn peak_follows_the_highest_average() {
    let cfg = config();
    let mut s = PhaseDetectorState {
        phase: Phase::Ascending,
        baseline_altitude: 0,
        peak_altitude: 100,
        above_threshold_count: 0,
    };
    s.step(&cfg, 700);
    assert_eq!(s.peak_altitude, 700);
    s.step(&cfg, 600);
    assert_eq!(s.peak_altitude, 700);
    s.step(&cfg, 701);
    assert_eq!(s.peak_altitude, 701);
}

#[test]
fn main_on_the_third_sample_at_or_below_its_altitude() {
    let cfg = config();
    let mut s = PhaseDetectorState {
        phase: Phase::Descending,
        baseline_altitude: 0,
        peak_altitude: 500_000,
        above_threshold_count: 0,
    };
    assert_eq!(s.step(&cfg, 150_001), None);
    assert_eq!(s.above_threshold_count, 0);
    assert_eq!(s.step(&cfg, 150_000), None);
    assert_eq!(s.step(&cfg, 149_000), None);
    assert_eq!(s.step(&cfg, 148_000), Some(Pyro::Main));
    assert_eq!(s.phase, Phase::MainDeployed);
    assert_eq!(s.step(&cfg, 147_000), None);
    assert_eq!(s.phase, Phase::Logging);
    for avg in [0, 1_000_000, 147_000] {
        let before = s;
        assert_eq!(s.step(&cfg, avg), None);
        assert_eq!(s, before);
    }
}

#[test]
fn lone_spike_changes_no_phase() {
    let cfg = config();

    let mut s = armed(48_000);
    assert_eq!(s.step(&cfg, 900_000), None);
    assert_eq!(s.step(&cfg, 48_000), None);
    assert_eq!(s, armed(48_000));

    let ascending = PhaseDetectorState {
        phase: Phase::Ascending,
        baseline_altitude: 0,
        peak_altitude: 500_000,
        above_threshold_count: 0,
    };
    let mut s = ascending;
    assert_eq!(s.step(&cfg, 100_000), None);
    assert_eq!(s.step(&cfg, 500_000), None);
    assert_eq!(s, ascending);

    let descending = PhaseDetectorState {
        phase: Phase::Descending,
        baseline_altitude: 0,
        peak_altitude: 500_000,
        above_threshold_count: 0,
    };
    let mut s = descending;
    assert_eq!(s.step(&cfg, 0), None);
    assert_eq!(s.step(&cfg, 300_000), None);
    assert_eq!(s, descending);
}

#[test]
fn interrupted_run_starts_over() {
    let cfg = config();
    let mut s = PhaseDetectorState {
        phase: Phase::Descending,
        baseline_altitude: 0,
        peak_altitude: 500_000,
        above_threshold_count: 0,
    };
    assert_eq!(s.step(&cfg, 100), None);
    assert_eq!(s.step(&cfg, 100), None);
    assert_eq!(s.step(&cfg, 200_000), None);
    assert_eq!(s.above_threshold_count, 0);
    assert_eq!(s.step(&cfg, 100), None);
    assert_eq!(s.step(&cfg, 100), None);
    assert_eq!(s.phase, Phase::Descending);
    assert_eq!(s.step(&cfg, 100), Some(Pyro::Main));
}

#[test]
fn widest_hysteresis_and_threshold() {
    let cfg = DetectorConfig {
        significant_change: u32::MAX,
        hysteresis_count: 255,
        main_deploy_altitude: i32::MIN,
    };
    let mut s = armed(i32::MIN);
    for _ in 0..1000 {
        assert_eq!(s.step(&cfg, i32::MAX), None);
    }
    // the widest climb there is equals the threshold and does not exceed it
    assert_eq!(s.phase, Phase::Armed);
    assert_eq!(s.above_threshold_count, 0);

    let cfg =
        DetectorConfig { significant_change: 0, hysteresis_count: 255, main_deploy_altitude: 0 };
    let mut s = armed(0);
    for n in 1..=255u32 {
        assert_eq!(s.step(&cfg, 1), None);
        assert_eq!(s.phase, Phase::Armed);
        assert_eq!(s.above_threshold_count as u32, n);
    }
    assert_eq!(s.step(&cfg, 1), None);
    assert_eq!(s.phase, Phase::Ascending);
    for _ in 1..=254 {
        assert_eq!(s.step(&cfg, 1), None);
        assert_eq!(s.phase, Phase::Ascending);
    }
    assert_eq!(s.step(&cfg, 1), Some(Pyro::Drogue));
}

#[test]
fn hysteresis_of_zero_still_asks_for_one_sample() {
    let cfg =
        DetectorConfig { significant_change: 10, hysteresis_count: 0, main_deploy_altitude: 5 };
    let mut s = armed(0);
    assert_eq!(s.step(&cfg, 10), None);
    assert_eq!(s.phase, Phase::Armed);
    assert_eq!(s.step(&cfg, 11), None);
    assert_eq!(s.phase, Phase::Ascending);
    assert_eq!(s.step(&cfg, 11), None);
    assert_eq!(s.phase, Phase::Ascending);
    assert_eq!(s.step(&cfg, 1), Some(Pyro::Drogue));
    assert_eq!(s.step(&cfg, 6), None);
    assert_eq!(s.step(&cfg, 5), Some(Pyro::Main));
}

#[test]
fn detector_decides_nothing_while_its_window_fills() {
    let mut d = Detector::new(config(), 4);
    d.arm(0);
    for _ in 0..3 {
        assert_eq!(d.sample(900_000), Cycle { average: None, fire: None });
        assert_eq!(d.state.phase, Phase::Armed);
        assert_eq!(d.state.above_threshold_count, 0);
    }
    assert_eq!(d.sample(900_000), Cycle { average: Some(900_000), fire: None });
    assert_eq!(d.state.above_threshold_count, 1);
}

#[test]
fn detector_smooths_before_it_decides() {
    let mut d = Detector::new(config(), 4);
    d.arm(0);
    for _ in 0..4 {
        d.sample(0);
    }
    // one wild sample moves the average to 1000, which does not exceed the threshold
    assert_eq!(d.sample(4000), Cycle { average: Some(1000), fire: None });
    assert_eq!(d.state.above_threshold_count, 0);
    assert_eq!(d.sample(4), Cycle { average: Some(1001), fire: None });
    assert_eq!(d.state.above_threshold_count, 1);
}

#[test]
fn every_phase_fills_a_window_of_its_own() {
    let cfg =
        DetectorConfig { significant_change: 10, hysteresis_count: 1, main_deploy_altitude: 50 };
    let mut d = Detector::new(cfg, 2);
    assert_eq!(d.sample(5), Cycle { average: None, fire: None });
    d.arm(0);
    assert_eq!(d.window.len(), 0);
    assert_eq!(d.sample(100), Cycle { average: None, fire: None });
    assert_eq!(d.sample(100), Cycle { average: Some(100), fire: None });
    assert_eq!(d.state.phase, Phase::Armed);
    assert_eq!(d.sample(100), Cycle { average: Some(100), fire: None });
    assert_eq!(d.state.phase, Phase::Ascending);
    assert_eq!(d.window.len(), 0);

    assert_eq!(d.sample(1000), Cycle { average: None, fire: None });
    assert_eq!(d.sample(1000), Cycle { average: Some(1000), fire: None });
    assert_eq!(d.sample(900), Cycle { average: Some(950), fire: Some(Pyro::Drogue) });
    assert_eq!(d.state.phase, Phase::Descending);
    assert_eq!(d.window.len(), 0);

    assert_eq!(d.sample(10), Cycle { average: None, fire: None });
    assert_eq!(d.sample(10), Cycle { average: Some(10), fire: Some(Pyro::Main) });
    assert_eq!(d.state.phase, Phase::MainDeployed);
    assert_eq!(d.sample(10), Cycle { average: None, fire: None });
    assert_eq!(d.sample(10), Cycle { average: Some(10), fire: None });
    assert_eq!(d.state.phase, Phase::Logging);
    assert_eq!(d.sample(0), Cycle { average: None, fire: None });
    assert_eq!(d.sample(0), Cycle { average: Some(0), fire: None });
    assert_eq!(d.sample(0), Cycle { average: Some(0), fire: None });
    assert_eq!(d.state.phase, Phase::Logging);
}

#[test]
fn detector_with_no_window_never_decides() {
    let mut d = Detector::new(config(), 0);
    d.arm(0);
    for _ in 0..10 {
        assert_eq!(d.sample(900_000), Cycle { average: None, fire: None });
    }
    assert_eq!(d.state.phase, Phase::Armed);
}

#[test]
fn baseline_is_the_mean_at_rest() {
    let mut d = Detector::new(config(), 4);
    assert!(!d.arm_at_rest(&vec![]));
    assert_eq!(d.state.phase, Phase::Idle);
    d.sample(1);
    assert!(d.arm_at_rest(&vec![48_000, 48_010, 47_995]));
    assert_eq!(d.state.phase, Phase::Armed);
    assert_eq!(d.state.baseline_altitude, 48_001);
    assert_eq!(d.state.peak_altitude, 48_001);
    assert_eq!(d.window.len(), 0);
    // armed once: a second command changes nothing
    d.sample(1);
    assert!(d.arm_at_rest(&vec![0]));
    assert_eq!(d.state.baseline_altitude, 48_001);
    assert_eq!(d.window.len(), 1);
    assert!(d.arm_at_rest(&vec![]));
}
