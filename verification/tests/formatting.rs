use subwin::formatting::format_duration;

#[test]
fn durations_under_an_hour() {
    assert_eq!(format_duration(0), "00:00");
    assert_eq!(format_duration(5), "00:05");
    assert_eq!(format_duration(59), "00:59");
    assert_eq!(format_duration(60), "01:00");
    assert_eq!(format_duration(605), "10:05");
    assert_eq!(format_duration(3599), "59:59");
}

#[test]
fn durations_of_an_hour_and_more() {
    assert_eq!(format_duration(3600), "01:00:00");
    assert_eq!(format_duration(3661), "01:01:01");
    assert_eq!(format_duration(86399), "23:59:59");
    assert_eq!(format_duration(360000), "100:00:00");
    assert_eq!(format_duration(u64::MAX), "5124095576030431:00:15");
}

#[test]
fn durations_agree_with_padded_formatting() {
    let mut seconds: u64 = 0;
    while seconds < 500_000 {
        let hours = seconds / 3600;
        let minutes = (seconds % 3600) / 60;
        let rest = seconds % 60;
        let expected = if hours > 0 {
            format!("{:02}:{:02}:{:02}", hours, minutes, rest)
        } else {
            format!("{:02}:{:02}", minutes, rest)
        };
        assert_eq!(format_duration(seconds), expected);
        seconds += 37;
    }
}
