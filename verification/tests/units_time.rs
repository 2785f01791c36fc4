//! Timestamp rescaling: exactness in the canonical time base and the
//! round trip through it.

use media_core::units::Rational;
use media_core::units::Seconds;
use media_core::units::Timestamp;
use media_core::units::default_timebase;

#[test]
fn canonical_timebase_is_identity() {
    let tb = default_timebase();
    assert_eq!(Timestamp(123_456_789).to_seconds(tb).micros, 123_456_789);
    assert_eq!(Timestamp::from_seconds(Seconds { micros: -42 }, tb).0, -42);
}

#[test]
fn millisecond_timebase_rescales_exactly() {
    let tb = Rational::new(1, 1000);
    // one tick is a millisecond: 12345 ticks = 12.345 s
    let s = Timestamp(12_345).to_seconds(tb);
    assert_eq!(s.micros, 12_345_000);
    assert_eq!(Timestamp::from_seconds(s, tb).0, 12_345);
}

#[test]
fn audio_rate_timebase_round_trips() {
    // a 48 kHz tick is shorter than a microsecond's worth of 1/1000000,
    // but still round trips at sample scale through nearest rounding
    let tb = Rational::new(1, 48_000);
    for &t in &[0i64, 1, 2, 3, 47_999, 48_000, 480_000, -1, -48_000] {
        let s = Timestamp(t).to_seconds(tb);
        assert_eq!(Timestamp::from_seconds(s, tb).0, t, "t = {}", t);
    }
    // one tick at 48 kHz is 20.833 microseconds, rounded to nearest
    assert_eq!(Timestamp(1).to_seconds(tb).micros, 21);
}

#[test]
fn video_rate_timebase_round_trips() {
    let tb = Rational::new(1, 30);
    let s = Timestamp(90).to_seconds(tb);
    assert_eq!(s.micros, 3_000_000);
    assert_eq!(Timestamp::from_seconds(s, tb).0, 90);
    // a frame tick of 1/30 s rounds to 33333 microseconds
    assert_eq!(Timestamp(1).to_seconds(tb).micros, 33_333);
    assert_eq!(Timestamp::from_seconds(Seconds { micros: 33_333 }, tb).0, 1);
}
