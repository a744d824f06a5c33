use flight_core::filter::Filter;
use flight_core::gps::GpsData;
use flight_core::kalman::{EstimatorConfig, KalmanFilter, BARO_ROLLING_AVERAGE, I2C_FREQ_RATIO};

fn fix(lat: i64, long: Option<i64>, alt: i64, speed: Option<(i64, u64)>) -> GpsData {
    GpsData {
        lat: Some((lat, 180_000)),
        long: long.map(|l| (l, 180_000)),
        speed,
        heading: None,
        alt: Some((alt, 4_500)),
    }
}

#[test]
fn new_estimator_is_at_rest_and_sure() {
    let k = KalmanFilter::new(48_000, 1, 2, 3, 4);
    assert_eq!(k.altitude, Filter { val: 48_000, var: 0 });
    assert_eq!(k.velocity, Filter { val: 0, var: 0 });
    assert_eq!(k.baro_iter, I2C_FREQ_RATIO);
    assert_eq!(k.ratio, I2C_FREQ_RATIO);
    assert_eq!(k.last_baro_alt, 48_000);
    assert_eq!(k.last_gps, (0, 0, 0));
    assert!(!k.complete);
    assert_eq!(k.baros.len(), 0);
    assert_eq!(k.baros.capacity(), BARO_ROLLING_AVERAGE);
    assert_eq!((k.accel_weight, k.baro_weight, k.baro_vel_weight, k.gps_weight), (1, 2, 3, 4));
}

#[test]
fn weights_follow_the_noise() {
    // noise of 0.05 m/s^2 and 0.3 m: 0.05, 60 * 0.3 and 200 * 0.09, in thousandths
    let c = EstimatorConfig::characterised(50, 300);
    assert_eq!(
        c,
        EstimatorConfig {
            accel_weight: 50,
            baro_weight: 18_000,
            baro_vel_weight: 18_000,
            gps_weight: 1000,
            window: BARO_ROLLING_AVERAGE,
            ratio: I2C_FREQ_RATIO,
        }
    );
    // the square of a noise rounds down before it is weighted
    assert_eq!(EstimatorConfig::characterised(0, 31).baro_vel_weight, 0);
    assert_eq!(EstimatorConfig::characterised(0, 32).baro_vel_weight, 200);
    assert_eq!((BARO_ROLLING_AVERAGE, I2C_FREQ_RATIO), (100, 11));
    let c = EstimatorConfig::characterised(u32::MAX, u32::MAX);
    assert_eq!(c.accel_weight, u32::MAX as u64);
    assert_eq!(c.baro_weight, 60 * u32::MAX as u64);
    assert_eq!(c.baro_vel_weight, 200 * ((u32::MAX as u64 * u32::MAX as u64) / 1000));
}

#[test]
fn configured_estimator_keeps_its_rates() {
    let config = EstimatorConfig {
        accel_weight: 1,
        baro_weight: 2000,
        baro_vel_weight: 3,
        gps_weight: 4,
        window: 2,
        ratio: 0,
    };
    let mut k = KalmanFilter::configured(-5, config);
    assert_eq!(k.altitude, Filter { val: -5, var: 0 });
    assert_eq!(k.last_baro_alt, -5);
    assert_eq!(k.baros.capacity(), 2);
    assert_eq!((k.baro_iter, k.ratio), (0, 0));
    // with no tick between readings the barometer is due on every tick
    assert!(k.baro_due());
    k.tick(1000, None, Some(100), None);
    assert!(k.baro_due());
    assert_eq!(k.altitude, Filter { val: -5, var: 1 });
    k.tick(1000, None, Some(300), None);
    assert!(k.baro_due());
    // the window is full at an average of 200: (-5 * 2000 + 200 * 3) / 2003, rounded down
    assert_eq!(k.altitude, Filter { val: -5, var: 2 });
    assert_eq!(k.last_baro_alt, 200);
}

#[test]
fn prediction_follows_the_acceleration() {
    let mut k = KalmanFilter::new(48_000, 1000, 60_000, 200_000, 1);
    // a tenth of a second at 9.81 m/s^2: 49.05 mm and 981 mm/s
    k.tick(100, Some((5, -5, 9810)), None, None);
    assert_eq!(k.altitude, Filter { val: 48_049, var: 100 });
    assert_eq!(k.velocity, Filter { val: 981, var: 100 });
    // a missing sample counts as no acceleration; 98.1 mm at 981 mm/s
    k.tick(100, None, None, None);
    assert_eq!(k.altitude, Filter { val: 48_147, var: 210 });
    assert_eq!(k.velocity, Filter { val: 981, var: 200 });
}

#[test]
fn prediction_rounds_down_when_falling() {
    let mut k = KalmanFilter::new(0, 0, 0, 0, 0);
    // -1 mm/s^2 for 1 ms: -0.0000005 mm and -0.001 mm/s, both rounded down
    k.tick(1, Some((0, 0, -1)), None, None);
    assert_eq!(k.altitude.val, -1);
    assert_eq!(k.velocity.val, -1);
}

#[test]
fn accel_axis_is_the_third() {
    assert_eq!(KalmanFilter::tick_accel(Some((1, 2, 3))), 3);
    assert_eq!(KalmanFilter::tick_accel(None), 0);
}

#[test]
fn barometer_is_due_every_twelfth_tick() {
    let mut k = KalmanFilter::new(0, 0, 0, 0, 0);
    let mut due = vec![];
    for i in 1..=36 {
        if k.baro_due() {
            due.push(i);
        }
        k.tick(10, None, Some(1), None);
    }
    assert_eq!(due, vec![12, 24, 36]);
    assert_eq!(k.baros.len(), 3);
}

#[test]
fn barometer_sample_is_ignored_between_turns() {
    let mut k = KalmanFilter::new(0, 0, 0, 0, 0);
    k.tick(10, None, Some(777), None);
    assert_eq!(k.baros.len(), 0);
    assert_eq!(k.baro_iter, I2C_FREQ_RATIO - 1);
}

#[test]
fn missing_barometer_sample_skips_only_the_correction() {
    let mut k = KalmanFilter::new(0, 1000, 60_000, 200_000, 1);
    for _ in 0..I2C_FREQ_RATIO {
        k.tick(10, None, None, None);
    }
    assert!(k.baro_due());
    let before = (k.altitude, k.velocity);
    k.tick(10, Some((0, 0, 1000)), None, None);
    assert_eq!(k.baros.len(), 0);
    assert_eq!(k.baro_iter, I2C_FREQ_RATIO);
    // the prediction still ran
    assert_eq!(k.velocity.val, before.1.val + 10);
    assert_eq!(k.velocity.var, before.1.var + 10);
}

#[test]
fn no_correction_before_the_window_is_full() {
    let mut k = KalmanFilter::new(0, 1000, 60_000, 200_000, 1);
    let mut readings = 0;
    for tick in 1..=1199 {
        let due = k.baro_due();
        if due {
            readings += 1;
        }
        k.tick(10, None, if due { Some(5000) } else { None }, None);
        assert_eq!(k.altitude.val, 0, "tick {}", tick);
        assert_eq!(k.velocity.val, 0, "tick {}", tick);
        assert_eq!(k.last_baro_alt, 0);
    }
    assert_eq!(readings, 99);
    assert_eq!(k.baros.len(), 99);
    assert_eq!(k.altitude, Filter { val: 0, var: 83_271 });
    assert_eq!(k.velocity, Filter { val: 0, var: 11_990 });

    // the hundredth reading fills the window
    assert!(k.baro_due());
    k.tick(10, None, Some(5000), None);
    assert_eq!(k.baros.len(), 100);
    assert_eq!(k.altitude, Filter { val: 4_964, var: 595 });
    assert_eq!(k.velocity, Filter { val: 428_571, var: 1_714 });
    assert_eq!(k.last_baro_alt, 5000);
    assert_eq!(k.baro_iter, I2C_FREQ_RATIO);

    // the next reading moves the average to 5010
    for _ in 0..12 {
        let due = k.baro_due();
        k.tick(10, Some((0, 0, 2000)), if due { Some(6000) } else { None }, None);
    }
    assert_eq!(k.altitude, Filter { val: 25_269, var: 363 });
    assert_eq!(k.velocity, Filter { val: 224_166, var: 956 });
    assert_eq!(k.last_baro_alt, 5010);
}

#[test]
fn first_fix_seeds_and_corrects_altitude_only() {
    let mut k = KalmanFilter::new(1000, 1000, 60_000, 200_000, 2000);
    let first = fix(400_000_000, Some(-740_000_000), 2000, Some((30_000, 6_000)));
    k.tick(100, Some((0, 0, 1000)), None, Some(first));
    assert_eq!(k.altitude, Filter { val: 1015, var: 98 });
    assert_eq!(k.velocity, Filter { val: 100, var: 100 });
    assert_eq!(k.last_gps, (400_000_000, -740_000_000, 2000));
    assert!(k.complete);
}

#[test]
fn later_fixes_correct_velocity_by_the_vertical_share() {
    let mut k = KalmanFilter::new(1000, 1000, 60_000, 200_000, 2000);
    let first = fix(400_000_000, Some(-740_000_000), 2000, Some((30_000, 6_000)));
    k.tick(100, Some((0, 0, 1000)), None, Some(first));
    // 90 steps north are 1000 mm, 90 steps west 1001 mm rounded down, 3000 mm up:
    // 30000 * 3000 / 5001 = 17996 mm/s upwards
    let second = fix(400_000_090, Some(-740_000_090), 5000, Some((30_000, 6_000)));
    k.tick(100, Some((0, 0, 1000)), None, Some(second));
    assert_eq!(k.altitude, Filter { val: 1119, var: 203 });
    assert_eq!(k.velocity, Filter { val: 298, var: 198 });
    assert_eq!(k.last_gps, (400_000_090, -740_000_090, 5000));

    // a fix without longitude is no fix
    k.tick(100, None, None, Some(fix(400_000_090, None, 9000, Some((30_000, 6_000)))));
    assert_eq!(k.altitude, Filter { val: 1148, var: 322 });
    assert_eq!(k.velocity, Filter { val: 298, var: 298 });
    assert_eq!(k.last_gps, (400_000_090, -740_000_090, 5000));

    // a fix without speed corrects the altitude and moves the reference
    k.tick(100, None, None, Some(fix(400_000_090, Some(-740_000_090), 4000, None)));
    assert_eq!(k.altitude, Filter { val: 1311, var: 429 });
    assert_eq!(k.velocity, Filter { val: 298, var: 398 });
    assert_eq!(k.last_gps, (400_000_090, -740_000_090, 4000));

    // straight down: the whole speed is vertical, and negative
    k.tick(0, None, None, Some(fix(400_000_090, Some(-740_000_090), 3000, Some((-10, 1)))));
    assert_eq!(k.altitude, Filter { val: 1387, var: 409 });
    assert_eq!(k.velocity, Filter { val: 14, var: 5 });
}

#[test]
fn fix_on_the_spot_has_no_vertical_speed() {
    let mut k = KalmanFilter::new(0, 0, 0, 0, 1000);
    k.velocity = Filter { val: 500, var: 30 };
    k.tick(0, None, None, Some(fix(5, Some(5), 0, Some((1000, 10)))));
    assert_eq!(k.velocity, Filter { val: 500, var: 30 });
    k.tick(0, None, None, Some(fix(5, Some(5), 0, Some((1000, 10)))));
    // measurement 0 with variance 1 * 10 * 3 = 30: halfway
    assert_eq!(k.velocity, Filter { val: 250, var: 15 });
}

#[test]
fn weight_scales_the_error_of_a_fix() {
    // a weight of one half: the reported 4500 count as 2250
    let mut k = KalmanFilter::new(0, 0, 0, 0, 500);
    k.altitude = Filter { val: 0, var: 4500 };
    k.tick(0, None, None, Some(fix(5, Some(5), 1000, None)));
    assert_eq!(k.altitude, Filter { val: 666, var: 1500 });
}

#[test]
fn estimator_survives_the_widest_inputs() {
    let mut k = KalmanFilter::new(i64::MAX, u64::MAX, u64::MAX, u64::MAX, u64::MAX);
    k.velocity = Filter { val: i64::MAX, var: u64::MAX };
    k.baro_iter = 0;
    let wide = GpsData {
        lat: Some((i64::MAX, u64::MAX)),
        long: Some((i64::MIN, u64::MAX)),
        speed: Some((i64::MIN, u64::MAX)),
        heading: None,
        alt: Some((i64::MIN, u64::MAX)),
    };
    k.tick(u32::MAX, Some((i32::MAX, i32::MAX, i32::MAX)), Some(i32::MIN), Some(wide));
    k.last_gps = (i64::MIN, i64::MAX, i64::MAX);
    k.tick(u32::MAX, Some((i32::MIN, i32::MIN, i32::MIN)), Some(i32::MAX), Some(wide));
    assert!(k.complete);
    assert_eq!(k.last_gps, (i64::MAX, i64::MIN, i64::MIN));
}
