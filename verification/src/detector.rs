//! The flight-phase detector: liftoff, apogee and main-deploy altitude,
//! each decided on a run of consecutive averaged samples so that noise
//! cannot trip it, and each pyro channel fired once.

use crate::stats::mean;
use crate::stats::mean_of;
use crate::window::average_of;
use crate::window::pushed;
use crate::window::RollingWindow;
use vstd::prelude::*;

verus! {

/// The phases of a flight, in the order they are passed through.
#[derive(Debug, Clone, Copy, PartialEq, Eq, Structural)]
pub enum Phase {
    Idle,
    Armed,
    Ascending,
    Descending,
    MainDeployed,
    Logging,
}

/// A pyro channel.
#[derive(Debug, Clone, Copy, PartialEq, Eq, Structural)]
pub enum Pyro {
    /// The drogue charge, fired at apogee.
    Drogue,
    /// The main charge, fired at the main-deploy altitude.
    Main,
}

/// The thresholds of a flight, fixed before it starts. Altitudes are in
/// millimetres.
#[derive(Debug, Clone, Copy, PartialEq, Eq, Structural)]
pub struct DetectorConfig {
    /// Change of altitude that counts as a change of phase.
    pub significant_change: u32,
    /// Consecutive qualifying samples that a transition asks for.
    pub hysteresis_count: u8,
    /// Altitude at or below which the main parachute is deployed.
    pub main_deploy_altitude: i32,
}

/// Where the detector stands.
#[derive(Debug, Clone, Copy, PartialEq, Eq, Structural)]
pub struct PhaseDetectorState {
    pub phase: Phase,
    /// Altitude of the pad, fixed at arming.
    pub baseline_altitude: i32,
    /// Highest average seen while ascending.
    pub peak_altitude: i32,
    /// Qualifying samples seen in a row in the current phase.
    pub above_threshold_count: u8,
}

impl Phase {
    /// Position of the phase in the order of a flight.
    pub open spec fn rank(self) -> nat {
        match self {
            Phase::Idle => 0,
            Phase::Armed => 1,
            Phase::Ascending => 2,
            Phase::Descending => 3,
            Phase::MainDeployed => 4,
            Phase::Logging => 5,
        }
    }
}

/// The greater of two altitudes.
pub open spec fn higher(a: i32, b: i32) -> i32 {
    if a >= b {
        a
    } else {
        b
    }
}

impl PhaseDetectorState {
    /// Whether the averaged sample `avg` speaks for leaving the current
    /// phase: above the pad by more than the threshold while armed, below
    /// the peak by at least the threshold while ascending, at or below the
    /// main-deploy altitude while descending.
    pub open spec fn qualifies(self, cfg: DetectorConfig, avg: i32) -> bool {
        match self.phase {
            Phase::Armed => avg > self.baseline_altitude + cfg.significant_change,
            Phase::Ascending => higher(self.peak_altitude, avg) - avg >= cfg.significant_change,
            Phase::Descending => avg <= cfg.main_deploy_altitude,
            _ => false,
        }
    }

    /// Whether a qualifying sample completes the run that the current
    /// phase asks for: while armed, more than the hysteresis count of
    /// samples in a row; later, the hysteresis count of them.
    pub open spec fn run_complete(self, cfg: DetectorConfig) -> bool {
        match self.phase {
            Phase::Armed => self.above_threshold_count >= cfg.hysteresis_count,
            _ => self.above_threshold_count + 1 >= cfg.hysteresis_count,
        }
    }

    /// Whether the averaged sample `avg` ends the current phase.
    pub open spec fn leaves(self, cfg: DetectorConfig, avg: i32) -> bool {
        match self.phase {
            Phase::Idle | Phase::Logging => false,
            Phase::MainDeployed => true,
            _ => self.qualifies(cfg, avg) && self.run_complete(cfg),
        }
    }

    /// The phase that follows the current one.
    pub open spec fn next_phase(self) -> Phase {
        match self.phase {
            Phase::Idle => Phase::Armed,
            Phase::Armed => Phase::Ascending,
            Phase::Ascending => Phase::Descending,
            Phase::Descending => Phase::MainDeployed,
            Phase::MainDeployed => Phase::Logging,
            Phase::Logging => Phase::Logging,
        }
    }

    /// The state after the averaged sample `avg`. An idle detector waits
    /// to be armed and a logging one has nothing left to decide: neither
    /// changes. In between, a sample that ends the phase starts the next
    /// one with a count of zero; any other sample adds to the count if it
    /// qualifies and resets it to zero if it does not.
    pub open spec fn stepped(self, cfg: DetectorConfig, avg: i32) -> PhaseDetectorState {
        let peak = match self.phase {
            Phase::Armed => if self.leaves(cfg, avg) {
                avg
            } else {
                self.peak_altitude
            },
            Phase::Ascending => higher(self.peak_altitude, avg),
            _ => self.peak_altitude,
        };
        if self.phase == Phase::Idle || self.phase == Phase::Logging {
            self
        } else if self.leaves(cfg, avg) {
            PhaseDetectorState {
                phase: self.next_phase(),
                baseline_altitude: self.baseline_altitude,
                peak_altitude: peak,
                above_threshold_count: 0,
            }
        } else {
            PhaseDetectorState {
                phase: self.phase,
                baseline_altitude: self.baseline_altitude,
                peak_altitude: peak,
                above_threshold_count: if self.qualifies(cfg, avg) {
                    (self.above_threshold_count + 1) as u8
                } else {
                    0
                },
            }
        }
    }

    /// The pyro channel that the averaged sample `avg` fires: the drogue
    /// on the step that ends the ascent, the main on the step that ends
    /// the descent, none on any other.
    pub open spec fn fired(self, cfg: DetectorConfig, avg: i32) -> Option<Pyro> {
        if self.leaves(cfg, avg) {
            match self.phase {
                Phase::Ascending => Some(Pyro::Drogue),
                Phase::Descending => Some(Pyro::Main),
                _ => None,
            }
        } else {
            None
        }
    }

    /// The state after the operator's arm command: an idle detector is
    /// armed on the pad altitude `baseline`; any other is unchanged.
    pub open spec fn armed(self, baseline: i32) -> PhaseDetectorState {
        if self.phase == Phase::Idle {
            PhaseDetectorState {
                phase: Phase::Armed,
                baseline_altitude: baseline,
                peak_altitude: baseline,
                above_threshold_count: 0,
            }
        } else {
            self
        }
    }

    /// An idle detector.
    pub fn new() -> (s: PhaseDetectorState)
        ensures
            s == (PhaseDetectorState {
                phase: Phase::Idle,
                baseline_altitude: 0,
                peak_altitude: 0,
                above_threshold_count: 0,
            }),
    {
        PhaseDetectorState {
            phase: Phase::Idle,
            baseline_altitude: 0,
            peak_altitude: 0,
            above_threshold_count: 0,
        }
    }

    /// Takes the operator's arm command, with the pad altitude.
    pub fn arm(&mut self, baseline: i32)
        ensures
            *final(self) == old(self).armed(baseline),
    {
        if self.phase == Phase::Idle {
            self.phase = Phase::Armed;
            self.baseline_altitude = baseline;
            self.peak_altitude = baseline;
            self.above_threshold_count = 0;
        }
    }

    /// Takes one averaged sample and returns the pyro channel to fire now,
    /// if any.
    pub fn step(&mut self, cfg: &DetectorConfig, avg: i32) -> (fire: Option<Pyro>)
        ensures
            *final(self) == old(self).stepped(*cfg, avg),
            fire == old(self).fired(*cfg, avg),
    {
        let count: u16 = self.above_threshold_count as u16;
        let needed: u16 = cfg.hysteresis_count as u16;
        match self.phase {
            Phase::Idle | Phase::Logging => None,
            Phase::MainDeployed => {
                self.phase = Phase::Logging;
                self.above_threshold_count = 0;
                None
            },
            Phase::Armed => {
                if avg as i64 > self.baseline_altitude as i64 + cfg.significant_change as i64 {
                    if count >= needed {
                        self.phase = Phase::Ascending;
                        self.peak_altitude = avg;
                        self.above_threshold_count = 0;
                    } else {
                        self.above_threshold_count += 1;
                    }
                } else {
                    self.above_threshold_count = 0;
                }
                None
            },
            Phase::Ascending => {
                if avg > self.peak_altitude {
                    self.peak_altitude = avg;
                }
                if self.peak_altitude as i64 - avg as i64 >= cfg.significant_change as i64 {
                    if count + 1 >= needed {
                        self.phase = Phase::Descending;
                        self.above_threshold_count = 0;
                        return Some(Pyro::Drogue);
                    }
                    self.above_threshold_count += 1;
                } else {
                    self.above_threshold_count = 0;
                }
                None
            },
            Phase::Descending => {
                if avg <= cfg.main_deploy_altitude {
                    if count + 1 >= needed {
                        self.phase = Phase::MainDeployed;
                        self.above_threshold_count = 0;
                        return Some(Pyro::Main);
                    }
                    self.above_threshold_count += 1;
                } else {
                    self.above_threshold_count = 0;
                }
                None
            },
        }
    }
}

/// What one cycle of the detector gave.
#[derive(Debug, Clone, Copy, PartialEq, Eq, Structural)]
pub struct Cycle {
    /// The averaged altitude, once the window of the phase is full.
    pub average: Option<i32>,
    /// The pyro channel to fire now, if any.
    pub fire: Option<Pyro>,
}

/// The detector with the window that smooths its input. Every phase
/// averages over a window of its own, which starts empty when the phase
/// begins.
pub struct Detector {
    pub state: PhaseDetectorState,
    pub config: DetectorConfig,
    pub window: RollingWindow<i32>,
}

/// The detector as plain values.
pub struct DetectorView {
    pub state: PhaseDetectorState,
    pub config: DetectorConfig,
    /// The samples in the window, oldest first.
    pub samples: Seq<i32>,
    /// The number of samples that make the window full.
    pub window: nat,
}

impl DetectorView {
    /// The samples in the window once `alt` has arrived.
    pub open spec fn taken(self, alt: i32) -> Seq<i32> {
        pushed(self.samples, self.window, alt)
    }

    /// What the cycle on the raw sample `alt` gives. While the window is
    /// filling there is no average and nothing is decided.
    pub open spec fn cycle(self, alt: i32) -> Cycle {
        match average_of(self.taken(alt), self.window) {
            None => Cycle { average: None, fire: None },
            Some(avg) => Cycle { average: Some(avg), fire: self.state.fired(self.config, avg) },
        }
    }

    /// The detector after the raw sample `alt`.
    pub open spec fn sampled(self, alt: i32) -> DetectorView {
        match average_of(self.taken(alt), self.window) {
            None => DetectorView { samples: self.taken(alt), ..self },
            Some(avg) => {
                let state = self.state.stepped(self.config, avg);
                DetectorView {
                    state,
                    samples: if state.phase == self.state.phase {
                        self.taken(alt)
                    } else {
                        Seq::empty()
                    },
                    ..self
                }
            },
        }
    }

    /// The detector after the operator's arm command.
    pub open spec fn armed(self, baseline: i32) -> DetectorView {
        if self.state.phase == Phase::Idle {
            DetectorView { state: self.state.armed(baseline), samples: Seq::empty(), ..self }
        } else {
            self
        }
    }
}

impl View for Detector {
    type V = DetectorView;

    /// The detector with its window as the samples in it.
    open spec fn view(&self) -> DetectorView {
        DetectorView {
            state: self.state,
            config: self.config,
            samples: self.window@,
            window: self.window.limit(),
        }
    }
}

impl Detector {
    /// An idle detector that averages over `window` samples.
    pub fn new(config: DetectorConfig, window: usize) -> (d: Detector)
        ensures
            d@ == (DetectorView {
                state: PhaseDetectorState {
                    phase: Phase::Idle,
                    baseline_altitude: 0,
                    peak_altitude: 0,
                    above_threshold_count: 0,
                },
                config,
                samples: Seq::empty(),
                window: window as nat,
            }),
    {
        Detector { state: PhaseDetectorState::new(), config, window: RollingWindow::new(window) }
    }

    /// Takes the operator's arm command, with the pad altitude.
    pub fn arm(&mut self, baseline: i32)
        ensures
            final(self)@ == old(self)@.armed(baseline),
    {
        if self.state.phase == Phase::Idle {
            self.state.arm(baseline);
            self.window.clear();
        }
    }

    /// Takes the operator's arm command with the samples taken at rest on
    /// the pad: their mean becomes the pad altitude. Without a sample there
    /// is no pad altitude and the detector is not armed. Returns whether
    /// the detector is armed now.
    pub fn arm_at_rest(&mut self, at_rest: &Vec<i32>) -> (armed: bool)
        ensures
            final(self)@ == if at_rest@.len() > 0 {
                old(self)@.armed(mean_of(at_rest@) as i32)
            } else {
                old(self)@
            },
            armed == (final(self)@.state.phase != Phase::Idle),
    {
        match mean(at_rest) {
            Some(baseline) => {
                self.arm(baseline);
            },
            None => {},
        }
        self.state.phase != Phase::Idle
    }

    /// Takes one raw altitude sample: smooths it, decides on the average
    /// once there is one, and tells what to log and what to fire.
    pub fn sample(&mut self, alt: i32) -> (c: Cycle)
        ensures
            c == old(self)@.cycle(alt),
            final(self)@ == old(self)@.sampled(alt),
    {
        self.window.push(alt);
        let avg: i32 = match self.window.average() {
            Some(avg) => avg,
            None => {
                return Cycle { average: None, fire: None };
            },
        };
        let before = self.state.phase;
        let fire = self.state.step(&self.config, avg);
        if self.state.phase != before {
            self.window.clear();
        }
        Cycle { average: Some(avg), fire }
    }
}

/// No step leads back to an earlier phase, and none skips a phase.
pub proof fn lemma_phase_monotone(s: PhaseDetectorState, cfg: DetectorConfig, avg: i32)
    ensures
        s.phase.rank() <= s.stepped(cfg, avg).phase.rank() <= s.phase.rank() + 1,
{
}

/// Arming leads back to no earlier phase either.
pub proof fn lemma_arm_monotone(s: PhaseDetectorState, baseline: i32)
    ensures
        s.phase.rank() <= s.armed(baseline).phase.rank(),
{
}

/// A channel fires on the step that ends its phase and on no other: the
/// drogue exactly when the ascent ends, the main exactly when the descent
/// ends.
pub proof fn lemma_fire_on_transition(s: PhaseDetectorState, cfg: DetectorConfig, avg: i32)
    ensures
        s.fired(cfg, avg) == Some(Pyro::Drogue) <==> s.phase == Phase::Ascending && s.stepped(
            cfg,
            avg,
        ).phase == Phase::Descending,
        s.fired(cfg, avg) == Some(Pyro::Main) <==> s.phase == Phase::Descending && s.stepped(
            cfg,
            avg,
        ).phase == Phase::MainDeployed,
{
}

/// The state after a run of averaged samples, taken in order.
pub open spec fn run(s: PhaseDetectorState, cfg: DetectorConfig, samples: Seq<i32>)
    -> PhaseDetectorState
    decreases samples.len(),
{
    if samples.len() == 0 {
        s
    } else {
        run(s, cfg, samples.drop_last()).stepped(cfg, samples.last())
    }
}

/// No phase is visited again: over any run of averaged samples the phase
/// reached after the first `k` of them is at or before the phase reached
/// at the end.
pub proof fn lemma_run_monotone(
    s: PhaseDetectorState,
    cfg: DetectorConfig,
    samples: Seq<i32>,
    k: int,
)
    requires
        0 <= k <= samples.len(),
    ensures
        s.phase.rank() <= run(s, cfg, samples.take(k)).phase.rank() <= run(
            s,
            cfg,
            samples,
        ).phase.rank(),
    decreases samples.len(),
{
    if samples.len() == 0 {
        assert(samples.take(k) == samples);
    } else if k == samples.len() {
        assert(samples.take(k) == samples);
        lemma_run_monotone(s, cfg, samples.drop_last(), k - 1);
        lemma_phase_monotone(run(s, cfg, samples.drop_last()), cfg, samples.last());
    } else {
        assert(samples.drop_last().take(k) == samples.take(k));
        lemma_run_monotone(s, cfg, samples.drop_last(), k);
        lemma_phase_monotone(run(s, cfg, samples.drop_last()), cfg, samples.last());
    }
}

/// The pyro channels fired over a run of averaged samples, in order.
pub open spec fn events(s: PhaseDetectorState, cfg: DetectorConfig, samples: Seq<i32>) -> Seq<Pyro>
    decreases samples.len(),
{
    if samples.len() == 0 {
        Seq::empty()
    } else {
        let before = events(s, cfg, samples.drop_last());
        match run(s, cfg, samples.drop_last()).fired(cfg, samples.last()) {
            Some(p) => before.push(p),
            None => before,
        }
    }
}

/// Whatever the samples, the channels fire in the order drogue, main, and
/// none fires twice: over any run that starts before the descent, nothing
/// has fired while the flight has not passed apogee, the drogue alone
/// while it descends, and drogue then main once the main is deployed.
pub proof fn lemma_fired_in_order(s: PhaseDetectorState, cfg: DetectorConfig, samples: Seq<i32>)
    requires
        s.phase.rank() <= Phase::Ascending.rank(),
    ensures
        ({
            let end = run(s, cfg, samples).phase;
            let fired = events(s, cfg, samples);
            if end.rank() <= Phase::Ascending.rank() {
                fired == Seq::<Pyro>::empty()
            } else if end == Phase::Descending {
                fired == seq![Pyro::Drogue]
            } else {
                fired == seq![Pyro::Drogue, Pyro::Main]
            }
        }),
    decreases samples.len(),
{
    if samples.len() > 0 {
        lemma_fired_in_order(s, cfg, samples.drop_last());
        let before = run(s, cfg, samples.drop_last());
        lemma_phase_monotone(before, cfg, samples.last());
        lemma_fire_on_transition(before, cfg, samples.last());
        let fired = events(s, cfg, samples);
        let end = run(s, cfg, samples).phase;
        if end.rank() <= Phase::Ascending.rank() {
            assert(fired =~= Seq::<Pyro>::empty());
        } else if end == Phase::Descending {
            assert(fired =~= seq![Pyro::Drogue]);
        } else {
            assert(fired =~= seq![Pyro::Drogue, Pyro::Main]);
        }
    }
}

/// A sample that does not qualify ends no phase and resets the count, so
/// a run has to start over after it.
pub proof fn lemma_failing_sample_resets(s: PhaseDetectorState, cfg: DetectorConfig, avg: i32)
    requires
        s.phase == Phase::Armed || s.phase == Phase::Ascending || s.phase == Phase::Descending,
        !s.qualifies(cfg, avg),
    ensures
        s.stepped(cfg, avg).phase == s.phase,
        s.stepped(cfg, avg).above_threshold_count == 0,
        s.fired(cfg, avg) is None,
{
}

/// A phase under decision ends only on a qualifying sample that completes
/// a run of the asked length.
pub proof fn lemma_transition_needs_run(s: PhaseDetectorState, cfg: DetectorConfig, avg: i32)
    requires
        s.phase == Phase::Armed || s.phase == Phase::Ascending || s.phase == Phase::Descending,
        s.stepped(cfg, avg).phase != s.phase,
    ensures
        s.qualifies(cfg, avg),
        s.above_threshold_count + 1 >= cfg.hysteresis_count,
        s.phase == Phase::Armed ==> s.above_threshold_count >= cfg.hysteresis_count,
{
}

/// The number of qualifying samples in a row that end the phase of `s`:
/// one more than the hysteresis count while armed, the hysteresis count
/// later, and never less than one.
pub open spec fn run_length(s: PhaseDetectorState, cfg: DetectorConfig) -> nat {
    if s.phase == Phase::Armed {
        (cfg.hysteresis_count + 1) as nat
    } else if cfg.hysteresis_count == 0 {
        1
    } else {
        cfg.hysteresis_count as nat
    }
}

/// A run of qualifying samples that is shorter than the phase asks for
/// ends no phase: the detector counts them and waits.
pub proof fn lemma_short_run_waits(s: PhaseDetectorState, cfg: DetectorConfig, samples: Seq<i32>)
    requires
        s.phase == Phase::Armed || s.phase == Phase::Ascending || s.phase == Phase::Descending,
        s.above_threshold_count == 0,
        samples.len() < run_length(s, cfg),
        forall|k: int|
            0 <= k < samples.len() ==> #[trigger] run(s, cfg, samples.take(k)).qualifies(
                cfg,
                samples[k],
            ),
    ensures
        run(s, cfg, samples).phase == s.phase,
        run(s, cfg, samples).above_threshold_count == samples.len(),
        events(s, cfg, samples) == Seq::<Pyro>::empty(),
    decreases samples.len(),
{
    if samples.len() > 0 {
        let before = samples.drop_last();
        assert forall|k: int| 0 <= k < before.len() implies #[trigger] run(
            s,
            cfg,
            before.take(k),
        ).qualifies(cfg, before[k]) by {
            assert(before.take(k) == samples.take(k));
            assert(run(s, cfg, samples.take(k)).qualifies(cfg, samples[k]));
        }
        lemma_short_run_waits(s, cfg, before);
        assert(samples.take(samples.len() - 1) == before);
        assert(run(s, cfg, samples.take(samples.len() - 1)).qualifies(cfg, samples.last()));
    }
}

/// A run of qualifying samples of exactly the length the phase asks for
/// ends the phase on its last sample, and fires the channel of the phase
/// then and not before.
pub proof fn lemma_full_run_transitions(
    s: PhaseDetectorState,
    cfg: DetectorConfig,
    samples: Seq<i32>,
)
    requires
        s.phase == Phase::Armed || s.phase == Phase::Ascending || s.phase == Phase::Descending,
        s.above_threshold_count == 0,
        samples.len() == run_length(s, cfg),
        forall|k: int|
            0 <= k < samples.len() ==> #[trigger] run(s, cfg, samples.take(k)).qualifies(
                cfg,
                samples[k],
            ),
    ensures
        run(s, cfg, samples.drop_last()).phase == s.phase,
        run(s, cfg, samples).phase == s.next_phase(),
        events(s, cfg, samples.drop_last()) == Seq::<Pyro>::empty(),
        events(s, cfg, samples) == match s.phase {
            Phase::Ascending => seq![Pyro::Drogue],
            Phase::Descending => seq![Pyro::Main],
            _ => Seq::<Pyro>::empty(),
        },
{
    let before = samples.drop_last();
    assert forall|k: int| 0 <= k < before.len() implies #[trigger] run(
        s,
        cfg,
        before.take(k),
    ).qualifies(cfg, before[k]) by {
        assert(before.take(k) == samples.take(k));
        assert(run(s, cfg, samples.take(k)).qualifies(cfg, samples[k]));
    }
    lemma_short_run_waits(s, cfg, before);
    assert(samples.take(samples.len() - 1) == before);
    assert(run(s, cfg, samples.take(samples.len() - 1)).qualifies(cfg, samples.last()));
    let last = run(s, cfg, before);
    assert(last.leaves(cfg, samples.last()));
    assert(events(s, cfg, samples) =~= match s.phase {
        Phase::Ascending => seq![Pyro::Drogue],
        Phase::Descending => seq![Pyro::Main],
        _ => Seq::<Pyro>::empty(),
    });
}

/// A lone spike changes no phase: with a hysteresis count of two or more,
/// a sample that follows a failing one and is itself followed by a
/// failing one leaves the phase as it was and the count at zero, however
/// far the spike went.
pub proof fn lemma_spike_rejected(
    s: PhaseDetectorState,
    cfg: DetectorConfig,
    spike: i32,
    calm: i32,
)
    requires
        cfg.hysteresis_count >= 2,
        s.above_threshold_count == 0,
        !s.stepped(cfg, spike).qualifies(cfg, calm),
    ensures
        s.phase == Phase::Armed || s.phase == Phase::Ascending || s.phase == Phase::Descending
            ==> {
            &&& s.stepped(cfg, spike).phase == s.phase
            &&& s.stepped(cfg, spike).fired(cfg, calm) is None
            &&& s.stepped(cfg, spike).stepped(cfg, calm).phase == s.phase
            &&& s.stepped(cfg, spike).stepped(cfg, calm).above_threshold_count == 0
        },
        s.fired(cfg, spike) is None,
{
}

/// While the window of a phase is filling, the detector decides nothing:
/// no average is offered, nothing fires and the state stands.
pub proof fn lemma_cold_start(d: DetectorView, alt: i32)
    requires
        d.window == 0 || d.taken(alt).len() < d.window,
    ensures
        d.cycle(alt) == (Cycle { average: None, fire: None }),
        d.sampled(alt).state == d.state,
{
}

} // verus!
