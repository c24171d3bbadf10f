use novelnote::config::admin::AdminTimeout;
use novelnote::timeout::{Span, Timeout, TimeoutError, WaitTime};

const NO_TIME: Span = Span {
    years: 0,
    months: 0,
    weeks: 0,
    days: 0,
    hours: 0,
    minutes: 0,
    seconds: 0,
    milliseconds: 0,
    microseconds: 0,
    nanoseconds: 0,
};

fn parts(time: WaitTime) -> (u64, u32) {
    (time.as_secs(), time.subsec_nanos())
}

#[test]
fn wait_time_has_less_than_a_second_of_nanoseconds() {
    let time = WaitTime::new(3, 999_999_999).expect("less than a second");
    assert_eq!(parts(time), (3, 999_999_999));
    assert!(WaitTime::new(3, 1_000_000_000).is_none());
}

#[test]
fn timeouts_are_at_most_their_maximum() {
    let time = |secs, nanos| WaitTime::new(secs, nanos).expect("less than a second");
    let timeout = Timeout::<60>::new(time(60, 0)).expect("just short enough");
    assert_eq!(parts(timeout.duration()), (60, 0));
    assert!(Timeout::<60>::new(time(0, 0)).is_ok());
    for too_long in [time(60, 1), time(61, 0), time(u64::MAX, 0)] {
        let error = Timeout::<60>::new(too_long).expect_err("too long");
        assert!(matches!(error, TimeoutError::TooLong { max: 60 }));
        assert_eq!(
            error.message().as_deref(),
            Some("timeout must be less than 60 seconds long")
        );
    }
}

#[test]
fn timeouts_are_read_from_text() {
    for (text, secs, nanos) in [
        ("5 seconds", 5, 0),
        ("59.999999999s", 59, 999_999_999),
        ("1s 500ms", 1, 500_000_000),
        ("PT2.25S", 2, 250_000_000),
        ("0s", 0, 0),
    ] {
        let timeout = Timeout::<60>::from_str(text).expect(text);
        assert_eq!(parts(timeout.duration()), (secs, nanos), "{text}");
        let timeout = AdminTimeout::from_str(text).expect(text);
        assert_eq!(parts(timeout.duration()), (secs, nanos), "{text}");
    }
}

#[test]
fn other_texts_are_no_timeouts() {
    for text in ["", "soon", "5", "-5 seconds", "1 day", "1 month"] {
        let error = Timeout::<60>::from_str(text).expect_err(text);
        assert!(matches!(error, TimeoutError::Span(_)), "{text}");
        assert_eq!(error.message(), None);
    }
    let error = Timeout::<60>::from_str("61 seconds").expect_err("too long");
    assert!(matches!(error, TimeoutError::TooLong { max: 60 }));
    let error = Timeout::<3600>::from_str("2 hours").expect_err("too long");
    assert_eq!(
        error.message().as_deref(),
        Some("timeout must be less than 3600 seconds long")
    );
}

#[test]
fn spans_are_added_up() {
    let span = Span {
        hours: 1,
        minutes: 2,
        seconds: 3,
        milliseconds: 4,
        microseconds: 5,
        nanoseconds: 6,
        ..NO_TIME
    };
    let timeout = Timeout::<10000>::try_from_span(span).expect("short enough");
    assert_eq!(parts(timeout.duration()), (3723, 4_005_006));
    let span = Span { milliseconds: 61_500, ..NO_TIME };
    assert!(Timeout::<60>::try_from_span(span).is_err());
    let timeout = Timeout::<62>::try_from_span(span).expect("short enough");
    assert_eq!(parts(timeout.duration()), (61, 500_000_000));
}

#[test]
fn spans_of_unknown_length_are_refused() {
    for span in [
        Span { days: 1, ..NO_TIME },
        Span { weeks: 1, ..NO_TIME },
        Span { months: 1, ..NO_TIME },
        Span { years: 1, ..NO_TIME },
        Span { seconds: -1, ..NO_TIME },
    ] {
        let error = Timeout::<60>::try_from_span(span).expect_err("no length");
        assert!(matches!(error, TimeoutError::Span(_)));
    }
}

#[test]
fn admin_timeout_is_less_than_a_minute() {
    for text in ["60 seconds", "1m", "60s 1ns", "61 seconds", "2 hours"] {
        let error = AdminTimeout::from_str(text).expect_err(text);
        assert!(matches!(error, TimeoutError::TooLong { max: 60 }), "{text}");
        assert_eq!(
            error.message().as_deref(),
            Some("timeout must be less than 60 seconds long")
        );
    }
    assert!(matches!(AdminTimeout::from_str("soon"), Err(TimeoutError::Span(_))));

    let minute = Span { minutes: 1, ..NO_TIME };
    assert!(Timeout::<60>::try_from_span(minute).is_ok());
    assert!(AdminTimeout::try_from_span(minute).is_err());
    let shorter = Span { milliseconds: 59_999, ..NO_TIME };
    let timeout = AdminTimeout::try_from_span(shorter).expect("less than a minute");
    assert_eq!(parts(timeout.duration()), (59, 999_000_000));

    let minute = WaitTime::new(60, 0).expect("no nanoseconds");
    let minute = Timeout::new(minute).expect("no longer than a minute");
    assert!(AdminTimeout::new(minute).is_err());
}
