use mwatch_kernel::syscall::Clock;
use mwatch_kernel::syscall::Date;
use mwatch_kernel::syscall::Error;
use mwatch_kernel::syscall::Syscall;
use mwatch_kernel::syscall::Time;

#[test]
fn syscall_date_works() {
    let actual = Date::new(1, 1, 4, 2019);

    let working = Syscall::from_str("D01/01/04/2019").unwrap();
    match working {
        Syscall::Date(d) => {
            assert_eq!(actual, d);
        },
        _ => panic!("wrong syscall type"),
    }

    let wrong = Syscall::from_str("D02/01/04/2019").unwrap();
    match wrong {
        Syscall::Date(d) => {
            assert_ne!(actual, d);
        },
        _ => panic!("wrong syscall type"),
    }
}

#[test]
fn syscall_time_works() {
    let actual = Time::new(0, 0, 0);

    let working = Syscall::from_str("T00:00:00").unwrap();
    match working {
        Syscall::Time(t) => {
            assert_eq!(actual, t);
        },
        _ => panic!("wrong syscall type"),
    }

    let working = Syscall::from_str("T01:00:00").unwrap();
    match working {
        Syscall::Time(t) => {
            assert_ne!(actual, t);
        },
        _ => panic!("wrong syscall type"),
    }
}

#[test]
fn syscall_time_fields() {
    assert_eq!(Syscall::from_str("T12:21:11"), Ok(Syscall::Time(Time::new(12, 21, 11))));
}

#[test]
fn syscall_unknown_command() {
    assert_eq!(Syscall::from_str("X1:2:3"), Err(Error::UnknownSyscall));
    assert_eq!(Syscall::from_str(""), Err(Error::UnknownSyscall));
}

#[test]
fn syscall_parse_errors() {
    // a non-decimal field
    assert_eq!(Syscall::from_str("D01/xx/04/2019"), Err(Error::ParseError));
    // an empty trailing field
    assert_eq!(Syscall::from_str("T99:"), Err(Error::ParseError));
    // one field too many
    assert_eq!(Syscall::from_str("D1/2/3/4/5"), Err(Error::ParseError));
    assert_eq!(Syscall::from_str("T1:2:3:4"), Err(Error::ParseError));
    // a field that does not fit in 32 bits
    assert_eq!(Syscall::from_str("T99999999999:0:0"), Err(Error::ParseError));
}

struct RecordingClock {
    time: Time,
    date: Date,
}

impl Clock for RecordingClock {
    // the trait's spec observers are erased ghost items; outside
    // verified code they are satisfied by the plain accessors
    fn time_spec(&self) -> Time {
        self.time
    }

    fn date_spec(&self) -> Date {
        self.date
    }

    fn get_time(&self) -> Time {
        self.time
    }

    fn set_time(&mut self, t: &Time) {
        self.time = *t;
    }

    fn get_date(&self) -> Date {
        self.date
    }

    fn set_date(&mut self, d: &Date) {
        self.date = *d;
    }
}

#[test]
fn syscall_execute_sets_the_clock() {
    let mut clock = RecordingClock { time: Time::new(0, 0, 0), date: Date::new(0, 0, 0, 0) };
    Syscall::from_str("T01:02:03").unwrap().execute(&mut clock);
    assert_eq!(clock.get_time(), Time::new(1, 2, 3));
    Syscall::from_str("D0/12/02/2019").unwrap().execute(&mut clock);
    assert_eq!(clock.get_date(), Date::new(0, 12, 2, 2019));
}

#[test]
fn syscall_missing_fields_default_to_zero() {
    // absent trailing time fields read as zero minutes and seconds
    assert_eq!(Syscall::time_from_str("7"), Ok(Time::new(7, 0, 0)));
    // a date missing its month and year has month zero: no calendar date
    assert_eq!(Syscall::date_from_str("1/2"), Err(Error::ParseError));
}

#[test]
fn syscall_rejects_out_of_range_time() {
    assert_eq!(Syscall::from_str("T99:00:00"), Err(Error::ParseError));
    assert_eq!(Syscall::from_str("T00:60:00"), Err(Error::ParseError));
    assert_eq!(Syscall::from_str("T23:59:60"), Err(Error::ParseError));
    assert_eq!(Syscall::from_str("T23:59:59"), Ok(Syscall::Time(Time::new(23, 59, 59))));
}

#[test]
fn syscall_rejects_invalid_calendar_dates() {
    assert_eq!(Syscall::from_str("D99/99/99/9999"), Err(Error::ParseError));
    // April has no 31st
    assert_eq!(Syscall::from_str("D0/31/04/2021"), Err(Error::ParseError));
    assert_eq!(Syscall::from_str("D0/31/03/2021"), Ok(Syscall::Date(Date::new(0, 31, 3, 2021))));
    // leap days exist every fourth year, but not every hundredth,
    // except every four-hundredth
    assert_eq!(Syscall::from_str("D0/29/02/2019"), Err(Error::ParseError));
    assert_eq!(Syscall::from_str("D0/29/02/2020"), Ok(Syscall::Date(Date::new(0, 29, 2, 2020))));
    assert_eq!(Syscall::from_str("D0/29/02/1900"), Err(Error::ParseError));
    assert_eq!(Syscall::from_str("D0/29/02/2000"), Ok(Syscall::Date(Date::new(0, 29, 2, 2000))));
    // month and day zero, and years past four digits, are refused
    assert_eq!(Syscall::from_str("D0/0/1/2020"), Err(Error::ParseError));
    assert_eq!(Syscall::from_str("D0/1/0/2020"), Err(Error::ParseError));
    assert_eq!(Syscall::from_str("D0/1/1/10000"), Err(Error::ParseError));
}
