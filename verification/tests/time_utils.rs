use sermonizer::calendar::civil_from_days;
use sermonizer::decimal::push_zero_padded;
use sermonizer::time_utils::{secs_to_ymdhms_utc, CachedTimestamp, Timestamp};

fn chrono_text(ms: i64) -> String {
    chrono::DateTime::from_timestamp_millis(ms)
        .unwrap()
        .format("%Y-%m-%d %H:%M:%S%.3f")
        .to_string()
}

fn padded(n: u128, width: usize) -> String {
    let mut out = String::from(">");
    push_zero_padded(&mut out, n, width);
    out
}

#[test]
fn zero_padding() {
    assert_eq!(padded(0, 0), ">0");
    assert_eq!(padded(0, 1), ">0");
    assert_eq!(padded(0, 3), ">000");
    assert_eq!(padded(7, 2), ">07");
    assert_eq!(padded(42, 2), ">42");
    assert_eq!(padded(123, 2), ">123");
    assert_eq!(padded(2024, 4), ">2024");
    assert_eq!(padded(10000, 4), ">10000");
    assert_eq!(padded(u128::MAX, 4), format!(">{}", u128::MAX));
    assert_eq!(padded(90, 5), ">00090");
}

#[test]
fn day_zero_is_the_first_of_1970() {
    assert_eq!(civil_from_days(0), (1970, 1, 1));
    assert_eq!(civil_from_days(-1), (1969, 12, 31));
    assert_eq!(civil_from_days(1), (1970, 1, 2));
}

#[test]
fn civil_dates_of_known_days() {
    assert_eq!(civil_from_days(19_782), (2024, 2, 29));
    assert_eq!(civil_from_days(19_783), (2024, 3, 1));
    assert_eq!(civil_from_days(11_016), (2000, 2, 29));
    assert_eq!(civil_from_days(-25_509), (1900, 2, 28));
    assert_eq!(civil_from_days(-25_508), (1900, 3, 1));
    assert_eq!(civil_from_days(-719_468), (0, 3, 1));
    assert_eq!(civil_from_days(-719_528), (0, 1, 1));
    assert_eq!(civil_from_days(-719_529), (-1, 12, 31));
    assert_eq!(civil_from_days(2_932_896), (9999, 12, 31));
}

#[test]
fn civil_dates_follow_each_other() {
    let mut expected = (1969i128, 1u32, 1u32);
    let days_in = |y: i128, m: u32| match m {
        2 => {
            if y % 4 == 0 && (y % 100 != 0 || y % 400 == 0) {
                29
            } else {
                28
            }
        }
        4 | 6 | 9 | 11 => 30,
        _ => 31,
    };
    for day in -365..(366 * 40) {
        assert_eq!(civil_from_days(day), expected, "day {}", day);
        if expected.2 < days_in(expected.0, expected.1) {
            expected.2 += 1;
        } else if expected.1 < 12 {
            expected = (expected.0, expected.1 + 1, 1);
        } else {
            expected = (expected.0 + 1, 1, 1);
        }
    }
}

#[test]
fn seconds_to_date_and_time() {
    assert_eq!(secs_to_ymdhms_utc(0), (1970, 1, 1, 0, 0, 0));
    assert_eq!(secs_to_ymdhms_utc(86_399), (1970, 1, 1, 23, 59, 59));
    assert_eq!(secs_to_ymdhms_utc(86_400), (1970, 1, 2, 0, 0, 0));
    assert_eq!(secs_to_ymdhms_utc(1_709_210_096), (2024, 2, 29, 12, 34, 56));
    assert_eq!(secs_to_ymdhms_utc(951_782_400), (2000, 2, 29, 0, 0, 0));
    assert_eq!(secs_to_ymdhms_utc(253_402_300_799), (9999, 12, 31, 23, 59, 59));
}

#[test]
fn seconds_before_1970() {
    assert_eq!(secs_to_ymdhms_utc(-1), (1969, 12, 31, 23, 59, 59));
    assert_eq!(secs_to_ymdhms_utc(-86_400), (1969, 12, 31, 0, 0, 0));
    assert_eq!(secs_to_ymdhms_utc(-86_401), (1969, 12, 30, 23, 59, 59));
    assert_eq!(secs_to_ymdhms_utc(-62_167_219_200), (0, 1, 1, 0, 0, 0));
}

#[test]
fn seconds_at_the_ends_of_the_range() {
    assert_eq!(secs_to_ymdhms_utc(i64::MAX), (292_277_026_596, 12, 4, 15, 30, 7));
    assert_eq!(secs_to_ymdhms_utc(i64::MIN), (-292_277_022_657, 1, 27, 8, 29, 52));
}

#[test]
fn seconds_agree_with_chrono() {
    let mut s: i64 = -5_000_000_000;
    while s < 8_000_000_000 {
        let want = chrono::DateTime::from_timestamp(s, 0).unwrap();
        let text = want.format("%Y %m %d %H %M %S").to_string();
        let got = secs_to_ymdhms_utc(s);
        assert_eq!(
            format!("{:04} {:02} {:02} {:02} {:02} {:02}", got.0, got.1, got.2, got.3, got.4, got.5),
            text,
            "at {}",
            s
        );
        s += 7_654_321;
    }
}

#[test]
fn timestamp_text_of_known_times() {
    assert_eq!(Timestamp(0).text(), "1970-01-01 00:00:00.000");
    assert_eq!(Timestamp(1).text(), "1970-01-01 00:00:00.001");
    assert_eq!(Timestamp(999).text(), "1970-01-01 00:00:00.999");
    assert_eq!(Timestamp(1_709_210_096_789).text(), "2024-02-29 12:34:56.789");
    assert_eq!(Timestamp(951_782_400_000).text(), "2000-02-29 00:00:00.000");
    assert_eq!(Timestamp(253_402_300_799_999).text(), "9999-12-31 23:59:59.999");
    assert_eq!(Timestamp(253_402_300_800_000).text(), "10000-01-01 00:00:00.000");
}

#[test]
fn timestamp_text_agrees_with_chrono() {
    let mut ms: i64 = 0;
    while ms < 4_000_000_000_000 {
        assert_eq!(Timestamp(ms as u128).text(), chrono_text(ms), "at {}", ms);
        ms += 12_345_678_901;
    }
}

#[test]
fn timestamp_text_of_the_largest_time() {
    let text = Timestamp(u128::MAX).text();
    assert!(text.ends_with(".455"), "{}", text);
    let year: &str = text.split('-').next().unwrap();
    assert_eq!(year.len(), 29);
}

#[test]
fn cache_starts_empty() {
    let mut cache = CachedTimestamp::new();
    assert_eq!(cache.at(0), "");
    assert_eq!(cache.at(5), "1970-01-01 00:00:00.005");
    assert_eq!(cache.at(0), "1970-01-01 00:00:00.000");
}

#[test]
fn cache_follows_the_time() {
    let mut cache = CachedTimestamp::new();
    assert_eq!(cache.at(1_709_210_096_789), "2024-02-29 12:34:56.789");
    assert_eq!(cache.at(1_709_210_096_789), "2024-02-29 12:34:56.789");
    assert_eq!(cache.at(1_709_210_096_790), "2024-02-29 12:34:56.790");
    assert_eq!(cache.at(1_709_210_096_789), "2024-02-29 12:34:56.789");
}

#[test]
fn cache_reads_the_clock() {
    let mut cache = CachedTimestamp::new();
    let before = chrono::Utc::now().timestamp_millis();
    let text = cache.now_rfc3339().to_string();
    let after = chrono::Utc::now().timestamp_millis();
    assert_eq!(text.len(), 23);
    assert!(chrono_text(before) <= text, "{} {}", chrono_text(before), text);
    assert!(text <= chrono_text(after), "{} {}", text, chrono_text(after));
}
