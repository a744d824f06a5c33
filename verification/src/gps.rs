//! What the satellite receiver last said, gathered sentence by sentence
//! into fixes with an error estimate on each quantity.
//!
//! Units: latitude and longitude in ten-millionths of a degree, altitude
//! in millimetres, speed in millimetres per second, heading in
//! thousandths of a degree, dilution of precision in thousandths.

use crate::fixed::floor_div;
use vstd::prelude::*;

verus! {

/// Dilution of precision assumed where the receiver reports none.
pub const DEFAULT_DOP: u32 = 60_000;

/// The latest value of everything the receiver reports, and which kinds
/// of sentence have arrived since the last fix was handed out.
#[derive(Debug, Clone, Copy, PartialEq, Eq, Structural)]
pub struct Data {
    /// Time of day of the last position, in milliseconds.
    pub utc: u64,
    pub lat: Option<i64>,
    pub long: Option<i64>,
    /// Altitude above mean sea level.
    pub alt: Option<i64>,
    pub speed: Option<i64>,
    /// Course over ground from magnetic north.
    pub heading: Option<i64>,
    pub hdop: Option<u32>,
    pub pdop: Option<u32>,
    pub vdop: Option<u32>,
    pub gga: bool,
    pub gsa: bool,
    pub vtg: bool,
}

/// One fix as the estimator takes it: each quantity with the error it is
/// known to, or absent.
#[derive(Debug, Clone, Copy, PartialEq, Eq)]
pub struct GpsData {
    pub lat: Option<(i64, u64)>,
    pub long: Option<(i64, u64)>,
    pub speed: Option<(i64, u64)>,
    pub heading: Option<i64>,
    pub alt: Option<(i64, u64)>,
}

/// One sentence from the receiver, reduced to what is kept of it.
#[derive(Debug, Clone, Copy, PartialEq, Eq, Structural)]
pub enum Sentence {
    /// Position: time, latitude, longitude, horizontal dilution, altitude.
    GGA { utc: u64, lat: Option<i64>, long: Option<i64>, hdop: Option<u32>, msl_alt: Option<i64> },
    /// Satellites in use: position and vertical dilution.
    GSA { pdop: Option<u32>, vdop: Option<u32> },
    /// Course and speed; the speed in metres per hour.
    VTG { magnetic_course: Option<i64>, speed_kph: Option<i64> },
    /// Any other sentence.
    Other,
}

/// Error of a horizontal position: three metres times the dilution.
pub open spec fn position_error(dop: Option<u32>) -> u64 {
    (3 * dop.unwrap_or(DEFAULT_DOP)) as u64
}

/// Error of a speed: a tenth of a metre per second times the dilution.
pub open spec fn speed_error(dop: Option<u32>) -> u64 {
    (dop.unwrap_or(DEFAULT_DOP) / 10) as u64
}

/// A quantity together with its error, where the quantity is present.
pub open spec fn with_error(v: Option<i64>, err: u64) -> Option<(i64, u64)> {
    match v {
        Some(n) => Some((n, err)),
        None => None,
    }
}

/// Metres per hour as millimetres per second, rounded down.
pub open spec fn mm_per_second(metres_per_hour: i64) -> i64 {
    (metres_per_hour * 5 / 18) as i64
}

/// The dilution of precision, or the one assumed where none is reported.
fn dop_or_default(dop: Option<u32>) -> (d: u64)
    ensures
        d == dop.unwrap_or(DEFAULT_DOP),
{
    match dop {
        Some(d) => d as u64,
        None => DEFAULT_DOP as u64,
    }
}

/// Puts the error to a quantity, where the quantity is present.
fn attach(v: Option<i64>, err: u64) -> (r: Option<(i64, u64)>)
    ensures
        r == with_error(v, err),
{
    match v {
        Some(n) => Some((n, err)),
        None => None,
    }
}

impl Data {
    /// The state before any sentence has arrived: every quantity at zero.
    pub open spec fn blank() -> Data {
        Data {
            utc: 0,
            lat: Some(0),
            long: Some(0),
            alt: Some(0),
            speed: Some(0),
            heading: Some(0),
            hdop: Some(0),
            pdop: Some(0),
            vdop: Some(0),
            gga: false,
            gsa: false,
            vtg: false,
        }
    }

    /// The fix that the state amounts to.
    pub open spec fn fix(self) -> GpsData {
        GpsData {
            lat: with_error(self.lat, position_error(self.hdop)),
            long: with_error(self.long, position_error(self.hdop)),
            speed: with_error(self.speed, speed_error(self.hdop)),
            heading: self.heading,
            alt: with_error(self.alt, position_error(self.vdop)),
        }
    }

    /// The state after the sentence `s` has been taken in.
    pub open spec fn absorbed(self, s: Sentence) -> Data {
        match s {
            Sentence::GGA { utc, lat, long, hdop, msl_alt } => Data {
                utc,
                lat,
                long,
                hdop,
                alt: msl_alt,
                gga: true,
                ..self
            },
            Sentence::GSA { pdop, vdop } => Data { pdop, vdop, gsa: true, ..self },
            Sentence::VTG { magnetic_course, speed_kph } => Data {
                heading: magnetic_course,
                speed: match speed_kph {
                    Some(n) => Some(mm_per_second(n)),
                    None => None,
                },
                vtg: true,
                ..self
            },
            Sentence::Other => self,
        }
    }

    /// A sentence of each of the three kinds has arrived.
    pub open spec fn is_ready(self) -> bool {
        self.gga && self.gsa && self.vtg
    }

    /// The state before any sentence has arrived.
    pub fn new() -> (d: Data)
        ensures
            d == Data::blank(),
    {
        Data {
            utc: 0,
            lat: Some(0),
            long: Some(0),
            alt: Some(0),
            speed: Some(0),
            heading: Some(0),
            hdop: Some(0),
            pdop: Some(0),
            vdop: Some(0),
            gga: false,
            gsa: false,
            vtg: false,
        }
    }

    /// Whether a sentence of each of the three kinds has arrived.
    pub fn ready(&self) -> (r: bool)
        ensures
            r == self.is_ready(),
    {
        self.gga && self.gsa && self.vtg
    }

    /// The fix that the state amounts to: every quantity present gets the
    /// error that the matching dilution of precision gives it.
    #[allow(non_snake_case)]
    pub fn toUser(&self) -> (g: GpsData)
        ensures
            g == self.fix(),
    {
        let horizontal: u64 = 3 * dop_or_default(self.hdop);
        let vertical: u64 = 3 * dop_or_default(self.vdop);
        let rate: u64 = dop_or_default(self.hdop) / 10;

        GpsData {
            lat: attach(self.lat, horizontal),
            long: attach(self.long, horizontal),
            speed: attach(self.speed, rate),
            heading: self.heading,
            alt: attach(self.alt, vertical),
        }
    }

    /// Takes one sentence in: its quantities replace those held, present
    /// or not, and its kind is marked as arrived.
    pub fn absorb(&mut self, s: Sentence)
        ensures
            *final(self) == old(self).absorbed(s),
    {
        match s {
            Sentence::GGA { utc, lat, long, hdop, msl_alt } => {
                self.utc = utc;
                self.lat = lat;
                self.long = long;
                self.hdop = hdop;
                self.alt = msl_alt;

                self.gga = true;
            },
            Sentence::GSA { pdop, vdop } => {
                self.pdop = pdop;
                self.vdop = vdop;

                self.gsa = true;
            },
            Sentence::VTG { magnetic_course, speed_kph } => {
                self.heading = magnetic_course;
                self.speed = match speed_kph {
                    Some(n) => Some(floor_div(n as i128 * 5, 18) as i64),
                    None => None,
                };

                self.vtg = true;
            },
            Sentence::Other => {},
        }
    }

    /// Hands out the fix once a sentence of each kind has arrived, and
    /// starts over; before that, nothing is handed out or changed.
    pub fn get_data(&mut self) -> (r: Option<GpsData>)
        ensures
            r == if old(self).is_ready() {
                Some(old(self).fix())
            } else {
                None
            },
            *final(self) == if old(self).is_ready() {
                Data::blank()
            } else {
                *old(self)
            },
    {
        if !self.ready() {
            return None;
        }
        let res = self.toUser();

        *self = Data::new();

        Some(res)
    }
}

} // verus!
