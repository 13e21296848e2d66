use rbacklight::convert::{to_percent, to_raw, MAX_RAW};
use rbacklight::errors::{BacklightError, CheckErrors};
use rbacklight::parse::parse_brightness;
use rbacklight::session::{check_root, plan, Action, Command};

#[test]
fn percent_round_trip_is_exact() {
    for p in 0..=100u64 {
        let raw = to_raw(p);
        assert_eq!(to_percent(raw), p);
    }
}

#[test]
fn conversion_exact_values() {
    assert_eq!(to_raw(0), 0);
    assert_eq!(to_raw(50), 60000);
    assert_eq!(to_raw(100), 120000);
    assert_eq!(to_percent(0), 0);
    assert_eq!(to_percent(60000), 50);
    assert_eq!(to_percent(120000), 100);
    assert_eq!(to_percent(96000), 80);
}

#[test]
fn conversion_rounds_down() {
    // 1199 raw units are just short of one percent
    assert_eq!(to_percent(1199), 0);
    assert_eq!(to_percent(1200), 1);
    assert_eq!(to_percent(2399), 1);
}

#[test]
fn parse_plain_number() {
    assert_eq!(parse_brightness(b"96000"), Ok(96000));
    assert_eq!(parse_brightness(b"0"), Ok(0));
    assert_eq!(parse_brightness(b"120000"), Ok(120000));
}

#[test]
fn parse_trims_whitespace() {
    assert_eq!(parse_brightness(b"96000\n"), Ok(96000));
    assert_eq!(parse_brightness(b"  96000  "), Ok(96000));
    assert_eq!(parse_brightness(b"\t\r\n42\r\n"), Ok(42));
}

#[test]
fn parse_accepts_leading_zeros() {
    assert_eq!(parse_brightness(b"0096000"), Ok(96000));
    assert_eq!(parse_brightness(b"000"), Ok(0));
}

#[test]
fn parse_rejects_empty() {
    let err = Err(BacklightError(CheckErrors::UnknownError));
    assert_eq!(parse_brightness(b""), err);
    assert_eq!(parse_brightness(b"   \n"), err);
}

#[test]
fn parse_rejects_non_digits() {
    let err = Err(BacklightError(CheckErrors::UnknownError));
    assert_eq!(parse_brightness(b"abc"), err);
    assert_eq!(parse_brightness(b"12a3"), err);
    assert_eq!(parse_brightness(b"-5"), err);
    assert_eq!(parse_brightness(b"12.5"), err);
    assert_eq!(parse_brightness(b"12 34"), err);
}

#[test]
fn parse_rejects_values_past_device_maximum() {
    let err = Err(BacklightError(CheckErrors::UnknownError));
    assert_eq!(parse_brightness(b"120001"), err);
    assert_eq!(parse_brightness(b"999999999999999999999999999"), err);
}

#[test]
fn root_user_passes_check() {
    assert_eq!(check_root(&Some(String::from("root"))), Ok(()));
}

#[test]
fn other_user_is_rejected() {
    assert_eq!(
        check_root(&Some(String::from("alice"))),
        Err(BacklightError(CheckErrors::RootError))
    );
    assert_eq!(
        check_root(&Some(String::from(""))),
        Err(BacklightError(CheckErrors::RootError))
    );
}

#[test]
fn missing_user_is_unknown_error() {
    assert_eq!(
        check_root(&None),
        Err(BacklightError(CheckErrors::UnknownError))
    );
}

#[test]
fn set_writes_scaled_raw_value() {
    assert_eq!(
        plan(&Command::SetTo { percent: 50 }, 0),
        Action::Write { raw: 60000 }
    );
    assert_eq!(
        plan(&Command::SetTo { percent: 0 }, 96000),
        Action::Write { raw: 0 }
    );
    assert_eq!(
        plan(&Command::SetTo { percent: 100 }, 96000),
        Action::Write { raw: 120000 }
    );
}

#[test]
fn inc_moves_percentage_up() {
    assert_eq!(
        plan(&Command::IncBy { percent: 10 }, 60000),
        Action::Write { raw: 72000 }
    );
    // an increment may aim past full brightness, as the raw formula says
    assert_eq!(
        plan(&Command::IncBy { percent: 10 }, MAX_RAW),
        Action::Write { raw: 132000 }
    );
}

#[test]
fn dec_moves_percentage_down() {
    assert_eq!(
        plan(&Command::DecBy { percent: 10 }, 60000),
        Action::Write { raw: 48000 }
    );
}

#[test]
fn dec_below_zero_bottoms_out() {
    assert_eq!(
        plan(&Command::DecBy { percent: 10 }, 0),
        Action::Write { raw: 0 }
    );
    assert_eq!(
        plan(&Command::DecBy { percent: 100 }, 60000),
        Action::Write { raw: 0 }
    );
}

#[test]
fn get_reports_and_never_writes() {
    assert_eq!(plan(&Command::Get, 96000), Action::Report { percent: 80 });
    assert_eq!(plan(&Command::Get, 0), Action::Report { percent: 0 });
    assert_eq!(
        plan(&Command::Get, MAX_RAW),
        Action::Report { percent: 100 }
    );
    for raw in [0u64, 1, 1199, 1200, 60000, 120000] {
        match plan(&Command::Get, raw) {
            Action::Write { .. } => panic!("Get planned a write"),
            Action::Report { .. } => {}
        }
    }
}

#[test]
fn error_messages() {
    assert_eq!(
        BacklightError(CheckErrors::RootError).message(),
        "Must be root"
    );
    assert_eq!(
        BacklightError(CheckErrors::UnknownError).message(),
        "Something went wrong"
    );
    assert_eq!(
        BacklightError(CheckErrors::WriteError).message(),
        "Can not to write to file \"/sys/class/backlight/intel_backlight/brightness\""
    );
    assert_eq!(
        BacklightError(CheckErrors::IntelFileError).message(),
        "Does not exist \"/sys/class/backlight/intel_backlight/brightness\""
    );
}
