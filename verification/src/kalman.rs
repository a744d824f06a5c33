//! The altitude and velocity estimator.
//!
//! Every tick predicts altitude and vertical velocity from the measured
//! acceleration, then corrects both from whatever other measurement the
//! tick brought: the smoothed barometric altitude, at the slower rate of
//! the barometer, and a satellite fix.

use crate::filter::Filter;
use crate::fixed::clamp_i64;
use crate::fixed::clamp_u64;
use crate::fixed::floor_div;
use crate::fixed::saturate_i64;
use crate::fixed::saturate_u64;
use crate::fixed::scale;
use crate::gps::GpsData;
use crate::window::average_of;
use crate::window::pushed;
use crate::window::RollingWindow;
use vstd::arithmetic::div_mod::lemma_fundamental_div_mod;
use vstd::arithmetic::div_mod::lemma_mod_bound;
use vstd::prelude::*;

verus! {

/// Usual number of barometric samples that are averaged into one
/// measurement.
pub const BARO_ROLLING_AVERAGE: usize = 100;

/// Usual number of ticks that pass between two readings of the barometer.
pub const I2C_FREQ_RATIO: usize = 11;

/// Share of the accelerometer's noise that enters the prediction.
pub const ACCEL_WEIGHT: u64 = 1;

/// Variance of the smoothed barometric altitude per unit of noise.
pub const BARO_WEIGHT: u64 = 60;

/// Variance of the barometric rate of climb per unit of squared noise.
pub const BARO_VEL_WEIGHT: u64 = 200;

/// Metres in one degree of latitude or longitude.
pub const METRES_PER_DEGREE: i64 = 111_119;

/// Everything that tunes the estimator, fixed before the flight.
#[derive(Debug, Clone, Copy, PartialEq, Eq, Structural)]
pub struct EstimatorConfig {
    /// Variance that the accelerometer adds per second.
    pub accel_weight: u64,
    /// Variance per second of the smoothed barometric altitude.
    pub baro_weight: u64,
    /// Variance per second of the barometric rate of climb.
    pub baro_vel_weight: u64,
    /// Weight on the error that a fix reports, in thousandths.
    pub gps_weight: u64,
    /// Number of barometric samples that are averaged into one measurement.
    pub window: usize,
    /// Ticks that pass between two readings of the barometer.
    pub ratio: usize,
}

impl EstimatorConfig {
    /// The noise weights that follow from the noise each sensor showed at
    /// rest: the accelerometer's noise as it is, sixty times the
    /// barometer's for its altitude, two hundred times its square for its
    /// rate of climb, and a weight of one on the error that a fix reports.
    pub open spec fn from_noise(accel_noise: u32, baro_noise: u32) -> EstimatorConfig {
        EstimatorConfig {
            accel_weight: (accel_noise * ACCEL_WEIGHT) as u64,
            baro_weight: (baro_noise * BARO_WEIGHT) as u64,
            baro_vel_weight: clamp_u64(
                BARO_VEL_WEIGHT * weighted(baro_noise as int, baro_noise as int),
            ),
            gps_weight: 1000,
            window: BARO_ROLLING_AVERAGE,
            ratio: I2C_FREQ_RATIO,
        }
    }

    /// The configuration for sensors of the given noise, with the usual
    /// window and barometer rate.
    pub fn characterised(accel_noise: u32, baro_noise: u32) -> (c: EstimatorConfig)
        ensures
            c == EstimatorConfig::from_noise(accel_noise, baro_noise),
    {
        let noise: u128 = baro_noise as u128;
        assert(0 <= noise * noise <= 0xffff_ffff * 0xffff_ffff) by (nonlinear_arith)
            requires
                0 <= noise <= 0xffff_ffff,
        ;
        EstimatorConfig {
            accel_weight: accel_noise as u64 * ACCEL_WEIGHT,
            baro_weight: baro_noise as u64 * BARO_WEIGHT,
            baro_vel_weight: saturate_u64((BARO_VEL_WEIGHT as u128) * (noise * noise / 1000)),
            gps_weight: 1000,
            window: BARO_ROLLING_AVERAGE,
            ratio: I2C_FREQ_RATIO,
        }
    }
}

/// The estimator: a belief about altitude, one about vertical velocity,
/// and what it has to remember between ticks.
pub struct KalmanFilter {
    pub velocity: Filter,
    pub altitude: Filter,
    /// Ticks left until the barometer is read again.
    pub baro_iter: usize,
    /// Ticks that pass between two readings of the barometer.
    pub ratio: usize,
    /// Latitude, longitude and altitude of the last fix.
    pub last_gps: (i64, i64, i64),
    /// Whether a fix has been seen.
    pub complete: bool,
    /// The last smoothed barometric altitude.
    pub last_baro_alt: i64,
    /// The newest barometric samples.
    pub baros: RollingWindow<i32>,
    /// Variance that the accelerometer adds per second.
    pub accel_weight: u64,
    /// Variance per second of the smoothed barometric altitude.
    pub baro_weight: u64,
    /// Variance per second of the barometric rate of climb.
    pub baro_vel_weight: u64,
    /// Weight on the error that a fix reports, in thousandths.
    pub gps_weight: u64,
}

/// The estimator as plain values.
pub struct KalmanView {
    pub velocity: Filter,
    pub altitude: Filter,
    pub baro_iter: usize,
    pub ratio: usize,
    pub last_gps: (i64, i64, i64),
    pub complete: bool,
    pub last_baro_alt: i64,
    pub baros: Seq<i32>,
    pub window: nat,
    pub accel_weight: u64,
    pub baro_weight: u64,
    pub baro_vel_weight: u64,
    pub gps_weight: u64,
}

/// A quantity times a weight, both in thousandths.
pub open spec fn weighted(x: int, w: int) -> int {
    x * w / 1000
}

/// What a rate of `w` per second amounts to over `dt` milliseconds.
pub open spec fn over(w: int, dt: int) -> int {
    w * dt / 1000
}

/// Distance covered in `dt` milliseconds at the speed `vel` under the
/// constant acceleration `acc`.
pub open spec fn travel(vel: int, acc: int, dt: int) -> int {
    (2000 * vel * dt + acc * dt * dt) / 2_000_000
}

/// The rate of change that takes `from` to `to` in `dt` milliseconds.
pub open spec fn rate(from: int, to: int, dt: int) -> int {
    (to - from) * 1000 / dt
}

/// Millimetres that a step of `d` ten-millionths of a degree spans.
pub open spec fn span(d: int) -> int {
    d * METRES_PER_DEGREE / 10_000
}

/// Distance from zero.
pub open spec fn abs(x: int) -> int {
    if x < 0 {
        -x
    } else {
        x
    }
}

/// The part of the ground speed `speed` that is vertical, for a move by
/// `(x, y, z)`: the share of `z` in the sum of the three distances. No
/// move gives no vertical speed.
pub open spec fn vertical_share(speed: int, x: int, y: int, z: int) -> int {
    let norm = abs(x) + abs(y) + abs(z);
    if norm == 0 {
        0
    } else {
        speed * z / norm
    }
}

/// The vertical axis of an acceleration sample, zero where it is absent.
pub open spec fn vertical(accel: Option<(i32, i32, i32)>) -> i32 {
    match accel {
        Some((_, _, z)) => z,
        None => 0,
    }
}

impl KalmanView {
    /// The state after the kinematic prediction over `dt` milliseconds
    /// under the acceleration `acc`. Uncertainty grows with time.
    pub open spec fn predicted(self, dt: u32, acc: i32) -> KalmanView {
        KalmanView {
            altitude: self.altitude.predicted(
                clamp_i64(travel(self.velocity.val as int, acc as int, dt as int)) as int,
                clamp_u64(over(self.accel_weight + self.velocity.var, dt as int)) as int,
            ),
            velocity: self.velocity.predicted(
                clamp_i64(over(acc as int, dt as int)) as int,
                clamp_u64(over(self.accel_weight as int, dt as int)) as int,
            ),
            ..self
        }
    }

    /// The state after the barometer's turn. On a tick between two
    /// readings only the countdown moves. On a tick with a reading the
    /// countdown starts over and the sample enters the window; once the
    /// window is full, its average corrects the altitude and the rate of
    /// change of the average corrects the velocity.
    pub open spec fn baro_corrected(self, dt: u32, baro: Option<i32>) -> KalmanView {
        if self.baro_iter != 0 {
            KalmanView { baro_iter: (self.baro_iter - 1) as usize, ..self }
        } else {
            let armed = KalmanView { baro_iter: self.ratio, ..self };
            match baro {
                None => armed,
                Some(alt) => {
                    let baros = pushed(self.baros, self.window, alt);
                    match average_of(baros, self.window) {
                        None => KalmanView { baros, ..armed },
                        Some(avg) => KalmanView {
                            altitude: self.altitude.fused(
                                avg as int,
                                clamp_u64(over(self.baro_weight as int, dt as int)) as int,
                            ),
                            velocity: if dt == 0 {
                                self.velocity
                            } else {
                                self.velocity.fused(
                                    clamp_i64(
                                        rate(self.last_baro_alt as int, avg as int, dt as int),
                                    ) as int,
                                    clamp_u64(over(self.baro_vel_weight as int, dt as int)) as int,
                                )
                            },
                            last_baro_alt: avg as i64,
                            baros,
                            ..armed
                        },
                    }
                },
            }
        }
    }

    /// The state after a satellite fix. Only a fix with latitude,
    /// longitude and altitude counts. Its altitude corrects the altitude.
    /// Its speed corrects the velocity by the vertical share of the move
    /// since the fix before, so the first fix corrects no velocity. The
    /// fix then becomes the point that the next move is measured from.
    pub open spec fn gps_corrected(self, fix: Option<GpsData>) -> KalmanView {
        match fix {
            Some(
                GpsData {
                    lat: Some((lat, _)),
                    long: Some((long, _)),
                    alt: Some((alt, var)),
                    speed,
                    ..
                },
            ) => KalmanView {
                altitude: self.altitude.fused(
                    alt as int,
                    clamp_u64(weighted(var as int, self.gps_weight as int)) as int,
                ),
                velocity: match speed {
                    Some((speed, svar)) if self.complete => self.velocity.fused(
                        clamp_i64(
                            vertical_share(
                                speed as int,
                                span(lat - self.last_gps.0),
                                span(long - self.last_gps.1),
                                alt - self.last_gps.2,
                            ),
                        ) as int,
                        clamp_u64(weighted(3 * svar, self.gps_weight as int)) as int,
                    ),
                    _ => self.velocity,
                },
                last_gps: (lat, long, alt),
                complete: true,
                ..self
            },
            _ => self,
        }
    }

    /// The state after one whole tick.
    pub open spec fn ticked(
        self,
        dt: u32,
        accel: Option<(i32, i32, i32)>,
        baro: Option<i32>,
        fix: Option<GpsData>,
    ) -> KalmanView {
        self.predicted(dt, vertical(accel)).baro_corrected(dt, baro).gps_corrected(fix)
    }
}

impl View for KalmanFilter {
    type V = KalmanView;

    /// The estimator with its window as the samples in it.
    open spec fn view(&self) -> KalmanView {
        KalmanView {
            velocity: self.velocity,
            altitude: self.altitude,
            baro_iter: self.baro_iter,
            ratio: self.ratio,
            last_gps: self.last_gps,
            complete: self.complete,
            last_baro_alt: self.last_baro_alt,
            baros: self.baros@,
            window: self.baros.limit(),
            accel_weight: self.accel_weight,
            baro_weight: self.baro_weight,
            baro_vel_weight: self.baro_vel_weight,
            gps_weight: self.gps_weight,
        }
    }
}

/// Distance from zero.
fn magnitude(x: i128) -> (m: i128)
    requires
        x > i128::MIN,
    ensures
        m == abs(x as int),
{
    if x < 0 {
        -x
    } else {
        x
    }
}

/// Millimetres between two angles given in ten-millionths of a degree.
fn span_between(from: i64, to: i64) -> (d: i128)
    ensures
        d == span(to - from),
        -0x2_0000_0000_0000_0000_0000 < d < 0x2_0000_0000_0000_0000_0000,
{
    let step: i128 = to as i128 - from as i128;
    let d = floor_div(step * (METRES_PER_DEGREE as i128), 10_000);
    assert(-0x2_0000_0000_0000_0000_0000 < d < 0x2_0000_0000_0000_0000_0000) by {
        let n = step * METRES_PER_DEGREE;
        lemma_fundamental_div_mod(n as int, 10_000);
        lemma_mod_bound(n as int, 10_000);
    }
    d
}

impl KalmanFilter {
    /// The estimator at rest at the altitude `alt`, sure of both.
    pub open spec fn at_rest(alt: i64, config: EstimatorConfig) -> KalmanView {
        KalmanView {
            velocity: Filter { val: 0, var: 0 },
            altitude: Filter { val: alt, var: 0 },
            baro_iter: config.ratio,
            ratio: config.ratio,
            last_gps: (0, 0, 0),
            complete: false,
            last_baro_alt: alt,
            baros: Seq::empty(),
            window: config.window as nat,
            accel_weight: config.accel_weight,
            baro_weight: config.baro_weight,
            baro_vel_weight: config.baro_vel_weight,
            gps_weight: config.gps_weight,
        }
    }

    /// An estimator at rest at the altitude `alt`, sure of both, with the
    /// given noise weights and the usual window and barometer rate.
    pub fn new(
        alt: i64,
        accel_weight: u64,
        baro_weight: u64,
        baro_vel_weight: u64,
        gps_weight: u64,
    ) -> (k: KalmanFilter)
        ensures
            k@ == KalmanFilter::at_rest(
                alt,
                EstimatorConfig {
                    accel_weight,
                    baro_weight,
                    baro_vel_weight,
                    gps_weight,
                    window: BARO_ROLLING_AVERAGE,
                    ratio: I2C_FREQ_RATIO,
                },
            ),
    {
        KalmanFilter::configured(
            alt,
            EstimatorConfig {
                accel_weight,
                baro_weight,
                baro_vel_weight,
                gps_weight,
                window: BARO_ROLLING_AVERAGE,
                ratio: I2C_FREQ_RATIO,
            },
        )
    }

    /// An estimator at rest at the altitude `alt`, sure of both, tuned by
    /// `config`.
    pub fn configured(alt: i64, config: EstimatorConfig) -> (k: KalmanFilter)
        ensures
            k@ == KalmanFilter::at_rest(alt, config),
    {
        KalmanFilter {
            velocity: Filter { val: 0, var: 0 },
            altitude: Filter { val: alt, var: 0 },
            baro_iter: config.ratio,
            ratio: config.ratio,
            last_gps: (0, 0, 0),
            complete: false,
            last_baro_alt: alt,
            baros: RollingWindow::new(config.window),
            accel_weight: config.accel_weight,
            baro_weight: config.baro_weight,
            baro_vel_weight: config.baro_vel_weight,
            gps_weight: config.gps_weight,
        }
    }

    /// Whether the coming tick is one on which the barometer is read.
    pub fn baro_due(&self) -> (due: bool)
        ensures
            due == (self@.baro_iter == 0),
    {
        self.baro_iter == 0
    }

    /// The vertical axis of an acceleration sample, zero where the sample
    /// is missing.
    pub fn tick_accel(accel: Option<(i32, i32, i32)>) -> (z: i32)
        ensures
            z == vertical(accel),
    {
        match accel {
            Some((_, _, z)) => z,
            None => 0,
        }
    }

    /// Takes a barometric sample into the window and gives the average of
    /// the window once it is full. A missing sample changes nothing and
    /// gives no average.
    pub fn tick_baro(&mut self, baro: Option<i32>) -> (avg: Option<i32>)
        ensures
            match baro {
                None => avg is None && final(self)@ == old(self)@,
                Some(alt) => {
                    let baros = pushed(old(self)@.baros, old(self)@.window, alt);
                    &&& avg == average_of(baros, old(self)@.window)
                    &&& final(self)@ == (KalmanView { baros, ..old(self)@ })
                },
            },
    {
        match baro {
            Some(alt) => {
                self.baros.push(alt);
                self.baros.average()
            },
            None => None,
        }
    }

    /// The kinematic prediction over `dt` milliseconds.
    fn predict_step(&mut self, dt: u32, acc: i32)
        ensures
            final(self)@ == old(self)@.predicted(dt, acc),
    {
        let vel: i128 = self.velocity.val as i128;
        let t: i128 = dt as i128;
        let a: i128 = acc as i128;
        assert(-0x8000_0000_0000_0000_0000_0000 <= vel * t <= 0x8000_0000_0000_0000_0000_0000)
            by (nonlinear_arith)
            requires
                -0x8000_0000_0000_0000 <= vel <= 0x8000_0000_0000_0000,
                0 <= t <= 0x1_0000_0000,
        ;
        assert(0 <= t * t <= 0x1_0000_0000_0000_0000) by (nonlinear_arith)
            requires
                0 <= t <= 0x1_0000_0000,
        ;
        assert(-0x8000_0000_0000_0000_0000_0000 <= a * (t * t) <= 0x8000_0000_0000_0000_0000_0000)
            by (nonlinear_arith)
            requires
                -0x8000_0000 <= a <= 0x8000_0000,
                0 <= t * t <= 0x1_0000_0000_0000_0000,
        ;
        assert(a * t * t == a * (t * t)) by (nonlinear_arith);
        assert(2000 * vel * t == 2000 * (vel * t)) by (nonlinear_arith);
        let moved = floor_div(2000 * (vel * t) + a * (t * t), 2_000_000);

        assert(-0x8000_0000_0000_0000 <= a * t <= 0x8000_0000_0000_0000) by (nonlinear_arith)
            requires
                -0x8000_0000 <= a <= 0x8000_0000,
                0 <= t <= 0x1_0000_0000,
        ;
        let gained = floor_div(a * t, 1000);

        let w: u128 = self.accel_weight as u128 + self.velocity.var as u128;
        assert(0 <= w * dt <= 0x2_0000_0000_0000_0000 * 0x1_0000_0000) by (nonlinear_arith)
            requires
                0 <= w <= 0x2_0000_0000_0000_0000,
                0 <= dt <= 0x1_0000_0000,
        ;
        let drift: u128 = w * (dt as u128) / 1000;

        assert(0 <= self.accel_weight * dt <= 0x1_0000_0000_0000_0000 * 0x1_0000_0000)
            by (nonlinear_arith)
            requires
                0 <= self.accel_weight <= 0x1_0000_0000_0000_0000,
                0 <= dt <= 0x1_0000_0000,
        ;
        let shake: u128 = (self.accel_weight as u128) * (dt as u128) / 1000;

        self.altitude.predict(saturate_i64(moved), saturate_u64(drift));
        self.velocity.predict(saturate_i64(gained), saturate_u64(shake));
    }

    /// The barometer's turn in a tick.
    fn correct_baro(&mut self, dt: u32, baro: Option<i32>)
        ensures
            final(self)@ == old(self)@.baro_corrected(dt, baro),
    {
        if self.baro_iter != 0 {
            self.baro_iter -= 1;
            return;
        }
        self.baro_iter = self.ratio;

        let avg: i32 = match self.tick_baro(baro) {
            Some(avg) => avg,
            None => {
                return;
            },
        };

        assert(0 <= self.baro_weight * dt <= 0x1_0000_0000_0000_0000 * 0x1_0000_0000)
            by (nonlinear_arith)
            requires
                0 <= self.baro_weight <= 0x1_0000_0000_0000_0000,
                0 <= dt <= 0x1_0000_0000,
        ;
        let trust: u128 = (self.baro_weight as u128) * (dt as u128) / 1000;
        self.altitude.update(avg as i64, saturate_u64(trust));

        if dt != 0 {
            let climbed: i128 = avg as i128 - self.last_baro_alt as i128;
            let climb = floor_div(climbed * 1000, dt as i128);
            assert(0 <= self.baro_vel_weight * dt <= 0x1_0000_0000_0000_0000 * 0x1_0000_0000)
                by (nonlinear_arith)
                requires
                    0 <= self.baro_vel_weight <= 0x1_0000_0000_0000_0000,
                    0 <= dt <= 0x1_0000_0000,
            ;
            let trust: u128 = (self.baro_vel_weight as u128) * (dt as u128) / 1000;
            self.velocity.update(saturate_i64(climb), saturate_u64(trust));
        }
        self.last_baro_alt = avg as i64;
    }

    /// The satellite receiver's turn in a tick.
    fn correct_gps(&mut self, fix: Option<GpsData>)
        ensures
            final(self)@ == old(self)@.gps_corrected(fix),
    {
        let data = match fix {
            Some(data) => data,
            None => {
                return;
            },
        };
        let (lat, long, alt, var) = match (data.lat, data.long, data.alt) {
            (Some((lat, _)), Some((long, _)), Some((alt, var))) => (lat, long, alt, var),
            _ => {
                return;
            },
        };

        assert(0 <= var * self.gps_weight <= 0xffff_ffff_ffff_ffff * 0xffff_ffff_ffff_ffff)
            by (nonlinear_arith)
            requires
                0 <= var <= 0xffff_ffff_ffff_ffff,
                0 <= self.gps_weight <= 0xffff_ffff_ffff_ffff,
        ;
        let trust: u128 = (var as u128) * (self.gps_weight as u128) / 1000;
        self.altitude.update(alt, saturate_u64(trust));

        if self.complete {
            match data.speed {
                Some((speed, svar)) => {
                    let x = span_between(self.last_gps.0, lat);
                    let y = span_between(self.last_gps.1, long);
                    let z: i128 = alt as i128 - self.last_gps.2 as i128;
                    let rise: i128 = magnitude(z);
                    let norm: i128 = magnitude(x) + magnitude(y) + rise;
                    let speed_z: i128 = if norm != 0 {
                        let toward: i128 = if z < 0 { -(speed as i128) } else { speed as i128 };
                        assert(toward * rise == speed * z) by (nonlinear_arith)
                            requires
                                z < 0 ==> toward == -speed && rise == -z,
                                z >= 0 ==> toward == speed && rise == z,
                        ;
                        scale(toward, rise as u64, norm as u128)
                    } else {
                        0
                    };
                    assert(0 <= svar * self.gps_weight <= 0xffff_ffff_ffff_ffff
                        * 0xffff_ffff_ffff_ffff) by (nonlinear_arith)
                        requires
                            0 <= svar <= 0xffff_ffff_ffff_ffff,
                            0 <= self.gps_weight <= 0xffff_ffff_ffff_ffff,
                    ;
                    let once: u128 = (svar as u128) * (self.gps_weight as u128);
                    assert((3 * svar) * self.gps_weight == 3 * (svar * self.gps_weight))
                        by (nonlinear_arith);
                    let trust: u64 = if once > u128::MAX / 3 {
                        u64::MAX
                    } else {
                        saturate_u64(3 * once / 1000)
                    };
                    self.velocity.update(saturate_i64(speed_z), trust);
                },
                None => {},
            }
        }
        self.last_gps = (lat, long, alt);
        self.complete = true;
    }

    /// One tick of the estimator, `dt` milliseconds after the one before.
    ///
    /// `accel` is the acceleration sample of this tick. `baro` is the
    /// barometric altitude, looked at only on a tick on which the
    /// barometer is due. `fix` is the satellite fix, if one is ready. A
    /// measurement that is missing skips its own correction and nothing
    /// else: the prediction always runs.
    pub fn tick(
        &mut self,
        dt: u32,
        accel: Option<(i32, i32, i32)>,
        baro: Option<i32>,
        fix: Option<GpsData>,
    )
        ensures
            final(self)@ == old(self)@.ticked(dt, accel, baro, fix),
    {
        let acc = KalmanFilter::tick_accel(accel);

        self.predict_step(dt, acc);
        self.correct_baro(dt, baro);
        self.correct_gps(fix);
    }
}

} // verus!
