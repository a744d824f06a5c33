use flight_core::gps::{Data, GpsData, Sentence, DEFAULT_DOP};

fn gga() -> Sentence {
    Sentence::GGA {
        utc: 43_200_000,
        lat: Some(400_000_000),
        long: Some(-740_000_000),
        hdop: Some(1_500),
        msl_alt: Some(48_000),
    }
}

fn gsa() -> Sentence {
    Sentence::GSA { pdop: Some(2_000), vdop: Some(1_200) }
}

fn vtg() -> Sentence {
    Sentence::VTG { magnetic_course: Some(90_000), speed_kph: Some(36_000) }
}

#[test]
fn new_state_is_blank_and_not_ready() {
    let d = Data::new();
    assert!(!d.ready());
    assert_eq!(d.utc, 0);
    assert_eq!(d.lat, Some(0));
    assert_eq!(d.long, Some(0));
    assert_eq!(d.alt, Some(0));
    assert_eq!(d.speed, Some(0));
    assert_eq!(d.heading, Some(0));
    assert_eq!(d.hdop, Some(0));
    assert_eq!(d.pdop, Some(0));
    assert_eq!(d.vdop, Some(0));
    assert!(!d.gga && !d.gsa && !d.vtg);
}

#[test]
fn ready_needs_all_three_sentences() {
    let orders = [[0, 1, 2], [0, 2, 1], [1, 0, 2], [1, 2, 0], [2, 0, 1], [2, 1, 0]];
    for order in orders {
        let mut d = Data::new();
        for (n, which) in order.iter().enumerate() {
            assert!(!d.ready());
            d.absorb(match which {
                0 => gga(),
                1 => gsa(),
                _ => vtg(),
            });
            assert_eq!(d.ready(), n == 2);
        }
    }
}

#[test]
fn other_sentences_change_nothing() {
    let mut d = Data::new();
    d.absorb(gga());
    let before = d;
    d.absorb(Sentence::Other);
    assert_eq!(d, before);
}

#[test]
fn speed_is_converted_to_millimetres_per_second() {
    let mut d = Data::new();
    // 36 km/h are 10 m/s
    d.absorb(vtg());
    assert_eq!(d.speed, Some(10_000));
    assert_eq!(d.heading, Some(90_000));
    // 1 m/h is 5 / 18 mm/s, rounded down
    d.absorb(Sentence::VTG { magnetic_course: None, speed_kph: Some(1) });
    assert_eq!(d.speed, Some(0));
    assert_eq!(d.heading, None);
    d.absorb(Sentence::VTG { magnetic_course: None, speed_kph: Some(-1) });
    assert_eq!(d.speed, Some(-1));
    d.absorb(Sentence::VTG { magnetic_course: None, speed_kph: Some(i64::MAX) });
    assert_eq!(d.speed, Some((i64::MAX as i128 * 5 / 18) as i64));
    d.absorb(Sentence::VTG { magnetic_course: None, speed_kph: None });
    assert_eq!(d.speed, None);
}

#[test]
fn fix_carries_errors_from_dilution() {
    let mut d = Data::new();
    d.absorb(gga());
    d.absorb(gsa());
    d.absorb(vtg());
    let g = d.toUser();
    assert_eq!(
        g,
        GpsData {
            lat: Some((400_000_000, 4_500)),
            long: Some((-740_000_000, 4_500)),
            speed: Some((10_000, 150)),
            heading: Some(90_000),
            alt: Some((48_000, 3_600)),
        }
    );
}

#[test]
fn missing_dilution_counts_as_sixty() {
    assert_eq!(DEFAULT_DOP, 60_000);
    let mut d = Data::new();
    d.absorb(Sentence::GGA {
        utc: 1,
        lat: Some(1),
        long: None,
        hdop: None,
        msl_alt: Some(2),
    });
    d.absorb(Sentence::GSA { pdop: None, vdop: None });
    let g = d.toUser();
    assert_eq!(g.lat, Some((1, 180_000)));
    assert_eq!(g.long, None);
    assert_eq!(g.alt, Some((2, 180_000)));
    assert_eq!(g.speed, Some((0, 6_000)));
}

#[test]
fn widest_dilution_fits() {
    let mut d = Data::new();
    d.absorb(Sentence::GGA {
        utc: 1,
        lat: Some(1),
        long: Some(1),
        hdop: Some(u32::MAX),
        msl_alt: Some(2),
    });
    let g = d.toUser();
    assert_eq!(g.lat, Some((1, 3 * u32::MAX as u64)));
    assert_eq!(g.speed, Some((0, (u32::MAX / 10) as u64)));
}

#[test]
fn get_data_hands_out_once() {
    let mut d = Data::new();
    d.absorb(gga());
    d.absorb(gsa());
    assert_eq!(d.get_data(), None);
    assert_eq!(d.lat, Some(400_000_000));
    d.absorb(vtg());
    let expected = d.toUser();
    assert_eq!(d.get_data(), Some(expected));
    assert_eq!(d, Data::new());
    assert_eq!(d.get_data(), None);
}
