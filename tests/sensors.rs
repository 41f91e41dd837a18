use hwmon_temp::{
    parse_int, sensor_base, sensor_paths, sensor_patterns, trim_line, Error, FileRead,
    HwmonTemperature, IoFailure, IoKind, SensorFiles, Stat,
};

const BASE: &str = "/sys/class/hwmon/hwmon0/temp1";

fn ok(s: &str) -> FileRead {
    Ok(s.to_string())
}

fn missing() -> FileRead {
    Err(IoFailure { kind: IoKind::NotFound, message: "No such file or directory (os error 2)".to_string() })
}

fn denied() -> FileRead {
    Err(IoFailure { kind: IoKind::Other, message: "Permission denied (os error 13)".to_string() })
}

fn files(base: &str, name: FileRead, input: FileRead, max: FileRead, crit: FileRead, label: FileRead) -> SensorFiles {
    SensorFiles { base: base.to_string(), name, input, max, crit, label }
}

fn reading(r: Result<HwmonTemperature, Error>) -> HwmonTemperature {
    match r {
        Ok(h) => h,
        Err(e) => panic!("expected a reading, got {:?}", e),
    }
}

fn degrees(millis: i64) -> f32 {
    millis as f32 / 1000.0
}

#[test]
fn trim_strips_newline() {
    assert_eq!(trim_line("coretemp\n"), "coretemp");
}

#[test]
fn trim_strips_carriage_return_and_newline() {
    assert_eq!(trim_line("coretemp\r\n"), "coretemp");
    assert_eq!(trim_line("coretemp\r"), "coretemp");
}

#[test]
fn trim_strips_one_newline_only() {
    assert_eq!(trim_line("a\n\n"), "a\n");
    assert_eq!(trim_line(""), "");
    assert_eq!(trim_line("\n"), "");
    assert_eq!(trim_line("Package id 0"), "Package id 0");
}

#[test]
fn parse_plain_and_signed_integers() {
    assert_eq!(parse_int("45000"), Some(45000));
    assert_eq!(parse_int("-5000"), Some(-5000));
    assert_eq!(parse_int("+7"), Some(7));
    assert_eq!(parse_int("0"), Some(0));
    assert_eq!(parse_int("007"), Some(7));
}

#[test]
fn parse_rejects_other_text() {
    assert_eq!(parse_int("abc"), None);
    assert_eq!(parse_int(""), None);
    assert_eq!(parse_int("-"), None);
    assert_eq!(parse_int("+"), None);
    assert_eq!(parse_int("12a"), None);
    assert_eq!(parse_int(" 12"), None);
    assert_eq!(parse_int("1.5"), None);
    assert_eq!(parse_int("--1"), None);
}

#[test]
fn parse_limits_of_i64() {
    assert_eq!(parse_int("9223372036854775807"), Some(i64::MAX));
    assert_eq!(parse_int("9223372036854775808"), None);
    assert_eq!(parse_int("-9223372036854775808"), Some(i64::MIN));
    assert_eq!(parse_int("-9223372036854775809"), None);
    assert_eq!(parse_int("99999999999999999999999999"), None);
}

#[test]
fn base_is_text_before_first_underscore() {
    assert_eq!(sensor_base("/sys/class/hwmon/hwmon0/temp1_input"), Some(BASE.to_string()));
    assert_eq!(sensor_base("/sys/class/hwmon/hwmon0/temp1_crit_alarm"), Some(BASE.to_string()));
    assert_eq!(sensor_base("/sys/class/hwmon/hwmon0/name"), None);
    assert_eq!(sensor_base("_x"), Some(String::new()));
}

#[test]
fn discovery_merges_files_of_one_sensor() {
    let paths = vec![
        "/sys/class/hwmon/hwmon0/temp1_input".to_string(),
        "/sys/class/hwmon/hwmon0/temp1_max".to_string(),
    ];
    let stat = Stat::new(&paths);
    assert_eq!(stat.bases().len(), 1);
    assert_eq!(stat.bases()[0], BASE);
}

#[test]
fn discovery_keeps_each_sensor_once() {
    let paths = vec![
        "/sys/class/hwmon/hwmon0/temp1_input".to_string(),
        "/sys/class/hwmon/hwmon0/temp2_input".to_string(),
        "/sys/class/hwmon/hwmon0/temp1_label".to_string(),
        "/sys/class/hwmon/hwmon1/temp1_input".to_string(),
        "/sys/class/hwmon/hwmon0/temp2_crit".to_string(),
        "/sys/class/hwmon/hwmon0/name".to_string(),
    ];
    let stat = Stat::new(&paths);
    let mut bases = stat.bases().clone();
    bases.sort();
    assert_eq!(
        bases,
        vec![
            "/sys/class/hwmon/hwmon0/temp1".to_string(),
            "/sys/class/hwmon/hwmon0/temp2".to_string(),
            "/sys/class/hwmon/hwmon1/temp1".to_string(),
        ]
    );
}

#[test]
fn discovery_of_nothing_is_empty() {
    let stat = Stat::new(&Vec::new());
    assert!(stat.bases().is_empty());
    assert!(stat.temperature(&Vec::new()).is_empty());
}

#[test]
fn patterns_cover_three_layouts() {
    assert_eq!(
        sensor_patterns(),
        vec![
            "/sys/class/hwmon/hwmon*/temp*_*".to_string(),
            "/sys/class/hwmon/hwmon*/device/temp*_*".to_string(),
            "/sys/devices/platform/coretemp.*/hwmon/hwmon*/temp*_*".to_string(),
        ]
    );
}

#[test]
fn paths_of_one_sensor() {
    let p = sensor_paths(BASE);
    assert_eq!(p.name, "/sys/class/hwmon/hwmon0/name");
    assert_eq!(p.input, "/sys/class/hwmon/hwmon0/temp1_input");
    assert_eq!(p.max, "/sys/class/hwmon/hwmon0/temp1_max");
    assert_eq!(p.crit, "/sys/class/hwmon/hwmon0/temp1_crit");
    assert_eq!(p.label, "/sys/class/hwmon/hwmon0/temp1_label");
}

#[test]
fn name_path_without_directory() {
    assert_eq!(sensor_paths("temp1").name, "name");
    assert_eq!(sensor_paths("/temp1").name, "/name");
}

#[test]
fn full_reading() {
    let f = files(BASE, ok("coretemp\n"), ok("45000\n"), ok("100500\n"), ok("105000\n"), ok("Package id 0\n"));
    let h = reading(Stat::read_hwmon_temperature(&f));
    assert_eq!(h.name, "coretemp");
    assert_eq!(h.value, 45000);
    assert_eq!(h.high, Some(100500));
    assert_eq!(h.critical, Some(105000));
    assert_eq!(h.label, Some("Package id 0".to_string()));
}

#[test]
fn value_and_high_in_degrees() {
    let f = files(BASE, ok("coretemp\n"), ok("45000"), ok("100500"), missing(), missing());
    let h = reading(Stat::read_hwmon_temperature(&f));
    assert_eq!(degrees(h.value), 45.0);
    assert_eq!(h.high.map(degrees), Some(100.5));
}

#[test]
fn name_newline_stripped() {
    let f = files(BASE, ok("coretemp\n"), ok("45000"), missing(), missing(), missing());
    assert_eq!(reading(Stat::read_hwmon_temperature(&f)).name, "coretemp");
    let f = files(BASE, ok("coretemp\r\n"), ok("45000"), missing(), missing(), missing());
    assert_eq!(reading(Stat::read_hwmon_temperature(&f)).name, "coretemp");
}

#[test]
fn optional_files_missing() {
    let f = files(BASE, ok("acpitz\n"), ok("27800\n"), missing(), missing(), missing());
    let h = reading(Stat::read_hwmon_temperature(&f));
    assert_eq!(h.name, "acpitz");
    assert_eq!(h.value, 27800);
    assert_eq!(h.high, None);
    assert_eq!(h.critical, None);
    assert_eq!(h.label, None);
}

#[test]
fn optional_files_unreadable_or_unparsable() {
    let f = files(BASE, ok("acpitz\n"), ok("-1500\n"), ok("hot\n"), denied(), denied());
    let h = reading(Stat::read_hwmon_temperature(&f));
    assert_eq!(h.value, -1500);
    assert_eq!(h.high, None);
    assert_eq!(h.critical, None);
    assert_eq!(h.label, None);
}

#[test]
fn missing_input_is_not_found() {
    let f = files(BASE, ok("coretemp\n"), missing(), ok("100000"), ok("100000"), ok("Core 0"));
    match Stat::read_hwmon_temperature(&f) {
        Err(e) => {
            assert!(e.is_not_found());
            match e {
                Error::IOError { source, context } => {
                    assert_eq!(source.kind, IoKind::NotFound);
                    assert_eq!(context, "reading value from /sys/class/hwmon/hwmon0/temp1_input");
                }
                other => panic!("expected an I/O error, got {:?}", other),
            }
        }
        Ok(h) => panic!("expected an error, got {:?}", h),
    }
}

#[test]
fn missing_name_fails_first() {
    let f = files(BASE, missing(), missing(), missing(), missing(), missing());
    match Stat::read_hwmon_temperature(&f) {
        Err(Error::IOError { context, .. }) => {
            assert_eq!(context, "reading value from /sys/class/hwmon/hwmon0/name");
        }
        other => panic!("expected an I/O error, got {:?}", other),
    }
}

#[test]
fn unreadable_input_is_io_error_but_not_not_found() {
    let f = files(BASE, ok("coretemp\n"), denied(), missing(), missing(), missing());
    match Stat::read_hwmon_temperature(&f) {
        Err(e) => {
            assert!(!e.is_not_found());
            assert!(matches!(e, Error::IOError { .. }));
        }
        Ok(h) => panic!("expected an error, got {:?}", h),
    }
}

#[test]
fn non_numeric_input_is_parse_error() {
    let f = files(BASE, ok("coretemp\n"), ok("abc\n"), missing(), missing(), missing());
    match Stat::read_hwmon_temperature(&f) {
        Err(e) => {
            assert!(!e.is_not_found());
            match e {
                Error::ParseError { content } => assert_eq!(content, "abc"),
                other => panic!("expected a parse error, got {:?}", other),
            }
        }
        Ok(h) => panic!("expected an error, got {:?}", h),
    }
}

#[test]
fn one_failure_leaves_others_read() {
    let a = files(BASE, ok("coretemp\n"), ok("45000\n"), missing(), missing(), missing());
    let b = files("/sys/class/hwmon/hwmon1/temp1", ok("acpitz\n"), missing(), missing(), missing(), missing());
    let stat = Stat::new(&vec![
        "/sys/class/hwmon/hwmon0/temp1_input".to_string(),
        "/sys/class/hwmon/hwmon1/temp1_max".to_string(),
    ]);
    let results = stat.temperature(&vec![a, b]);
    assert_eq!(results.len(), 2);
    match &results[0] {
        Ok(h) => {
            assert_eq!(h.name, "coretemp");
            assert_eq!(h.value, 45000);
        }
        Err(e) => panic!("expected a reading, got {:?}", e),
    }
    match &results[1] {
        Err(e) => {
            assert!(e.is_not_found());
            assert!(matches!(e, Error::IOError { .. }));
        }
        Ok(h) => panic!("expected an error, got {:?}", h),
    }
}
