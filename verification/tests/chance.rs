//! Random ids and the time.

use std::time::{Duration, SystemTime, UNIX_EPOCH};
use web_bridge::chance::{request_id, short_id, step_from, unix_now, unix_seconds_at};
use web_bridge::slug::validate_slug;

#[test]
fn request_ids_are_random_uuids() {
    let id = request_id();
    assert_eq!(id.len(), 36);
    for (i, c) in id.chars().enumerate() {
        if i == 8 || i == 13 || i == 18 || i == 23 {
            assert_eq!(c, '-');
        } else {
            assert!(c.is_ascii_digit() || ('a'..='f').contains(&c));
        }
    }
    assert_eq!(id.chars().nth(14), Some('4'));
    assert!("89ab".contains(id.chars().nth(19).unwrap()));
    assert_ne!(id, request_id());
    assert_eq!(uuid::Uuid::parse_str(&id).unwrap().to_string(), id);
}

#[test]
fn short_ids_are_the_first_digits() {
    assert_eq!(short_id(0x0123_4567_89ab_cdef_0123_4567_89ab_cdef), "01234567");
    assert_eq!(short_id(0xfedc_ba98_0000_0000_0000_0000_0000_0000), "fedcba98");
    assert_eq!(short_id(0), "00000000");
}

#[test]
fn assigned_ids_are_names() {
    for n in [0, 7, 0x6170_6900_0000_0000_0000_0000_0000_0000, u128::MAX] {
        let id = short_id(n);
        assert_eq!(id.len(), 8);
        assert_eq!(validate_slug(&id, "instance id"), Ok(id.clone()));
    }
}

#[test]
fn steps_lead_through_the_ids() {
    let n = 0x0123_4567_89ab_cdef_0123_4567_89ab_cdef;
    assert_eq!(step_from(n, 0), n);
    assert_eq!(short_id(step_from(n, 1)), "01234568");
    assert_eq!(short_id(step_from(n, 0xffff_ffff)), "01234566");
    assert_eq!(short_id(step_from(u128::MAX, 1)), "00000000");
}

#[test]
fn time_is_in_whole_seconds() {
    assert_eq!(unix_seconds_at(UNIX_EPOCH), 0);
    assert_eq!(unix_seconds_at(UNIX_EPOCH + Duration::from_millis(1999)), 1);
    assert_eq!(unix_seconds_at(UNIX_EPOCH + Duration::from_secs(1_700_000_000)), 1_700_000_000);
}

#[test]
fn time_before_the_epoch_is_zero() {
    assert_eq!(unix_seconds_at(UNIX_EPOCH - Duration::from_secs(5)), 0);
}

#[test]
fn now_is_what_the_clock_shows() {
    let before = unix_seconds_at(SystemTime::now());
    let now = unix_now();
    let after = unix_seconds_at(SystemTime::now());
    assert!(before <= now && now <= after);
    assert!(now > 1_600_000_000);
}
