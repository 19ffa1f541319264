use gps_sensor_log::position::{decode, DecodeError, FeedOutcome, PositionFix, PositionStore};
use gps_sensor_log::record::{header_line, join_line, log_file_name, render_record};
use gps_sensor_log::text::{clean_line, is_whitespace, strip_whitespace};

const GGA_MUNICH: &str = "$GPGGA,123519,4807.038,N,01131.000,E,1,08,0.9,545.4,M,46.9,M,,*47";
const GGA_SOUTH_WEST: &str = "$GPGGA,123520,5130.000,S,00007.500,W,1,08,0.9,12.0,M,46.9,M,,*76";
const RMC_NINE_EAST: &str = "$GPRMC,123521,A,4500.000,N,00900.000,E,022.4,084.4,230394,003.1,W*6B";
const GGA_NO_FIX: &str = "$GPGGA,,,,,,0,,,,,,,,*66";
const VTG_NO_POSITION: &str = "$GPVTG,054.7,T,034.4,M,005.5,N,010.2,K*48";

fn fields(fix: &PositionFix) -> (Option<String>, Option<String>, Option<String>) {
    (fix.latitude.clone(), fix.longitude.clone(), fix.altitude.clone())
}

fn some(s: &str) -> Option<String> {
    Some(s.to_string())
}

#[test]
fn whitespace_classification() {
    assert!(is_whitespace(' '));
    assert!(is_whitespace('\t'));
    assert!(is_whitespace('\n'));
    assert!(is_whitespace('\u{3000}'));
    assert!(is_whitespace('\u{85}'));
    assert!(!is_whitespace('a'));
    assert!(!is_whitespace('\u{200b}'));
    for c in ['\u{0}', 'x', ',', '\u{2000}', '\u{205f}', '\u{a0}', '\u{1680}', '\u{200c}'] {
        assert_eq!(is_whitespace(c), c.is_whitespace());
    }
}

#[test]
fn clean_line_trims_both_ends() {
    assert_eq!(clean_line("  $GPGGA,1 \r\n"), some("$GPGGA,1"));
    assert_eq!(clean_line("a b"), some("a b"));
    assert_eq!(clean_line("x"), some("x"));
}

#[test]
fn clean_line_drops_blank_lines() {
    assert_eq!(clean_line(""), None);
    assert_eq!(clean_line("   "), None);
    assert_eq!(clean_line("\t\r\n"), None);
}

#[test]
fn strip_whitespace_removes_internal_whitespace() {
    assert_eq!(strip_whitespace("12.5 ppm"), "12.5ppm");
    assert_eq!(strip_whitespace(" a\tb\u{3000}c d "), "abcd");
    assert_eq!(strip_whitespace(""), "");
    let s = strip_whitespace("1 2\t3\n4");
    assert!(!s.chars().any(|c| c.is_whitespace()));
}

#[test]
fn header_row_names_the_position_columns() {
    assert_eq!(header_line("n2o_ppm"), "n2o_ppm,latitude,longitude,altitude");
    assert_eq!(header_line("a,b"), "a,b,latitude,longitude,altitude");
}

#[test]
fn render_record_with_all_fields() {
    let fix = PositionFix { latitude: some("1.5"), longitude: some("-2"), altitude: some("30") };
    assert_eq!(render_record("x", &fix), "x,1.5,-2,30");
}

#[test]
fn render_record_leaves_absent_fields_empty() {
    let fix = PositionFix { latitude: some("1.5"), longitude: None, altitude: some("30") };
    assert_eq!(render_record("x", &fix), "x,1.5,,30");
    assert_eq!(render_record("y", &PositionFix::empty()), "y,,,");
}

#[test]
fn join_line_before_any_fix_has_empty_position() {
    let store = PositionStore::new();
    assert_eq!(join_line("12.5 ppm", &store.snapshot()), some("12.5ppm,,,"));
}

#[test]
fn join_line_skips_blank_lines() {
    let fix = PositionFix { latitude: some("1"), longitude: some("2"), altitude: some("3") };
    assert_eq!(join_line("", &fix), None);
    assert_eq!(join_line(" \t ", &fix), None);
}

#[test]
fn join_line_payload_has_no_whitespace() {
    let r = join_line("  1 2\t3 ppm ", &PositionFix::empty()).unwrap();
    assert_eq!(r, "123ppm,,,");
    let payload = r.split(',').next().unwrap();
    assert!(!payload.chars().any(|c| c.is_whitespace()));
}

#[test]
fn decode_gga_gives_all_three_fields() {
    let f = decode(GGA_MUNICH).unwrap();
    assert_eq!(fields(&f), (some("48.1173"), some("11.516666666666667"), some("545.4")));
}

#[test]
fn decode_rmc_gives_no_altitude() {
    let f = decode(RMC_NINE_EAST).unwrap();
    assert_eq!(fields(&f), (some("45"), some("9"), None));
}

#[test]
fn decode_rejects_malformed_sentence() {
    assert_eq!(decode("$INVALID").err(), Some(DecodeError));
    assert!(decode("hello").is_err());
    let bad_checksum = "$GPGGA,123519,4807.038,N,01131.000,E,1,08,0.9,545.4,M,46.9,M,,*48";
    assert!(decode(bad_checksum).is_err());
}

#[test]
fn gga_then_sensor_line_gives_joined_row() {
    let mut store = PositionStore::new();
    assert_eq!(store.feed_line(GGA_MUNICH), FeedOutcome::Updated);
    let row = join_line("12.5 ppm", &store.snapshot()).unwrap();
    assert_eq!(row, "12.5ppm,48.1173,11.516666666666667,545.4");
}

#[test]
fn malformed_line_between_valid_ones_keeps_fix() {
    let mut store = PositionStore::new();
    assert_eq!(store.feed_line(GGA_MUNICH), FeedOutcome::Updated);
    let before = fields(&store.snapshot());
    assert_eq!(store.feed_line("$INVALID"), FeedOutcome::Malformed);
    assert_eq!(fields(&store.snapshot()), before);
    assert_eq!(store.apply("$INVALID"), Err(DecodeError));
    assert_eq!(fields(&store.snapshot()), before);
    assert_eq!(store.feed_line(GGA_SOUTH_WEST), FeedOutcome::Updated);
    assert_eq!(fields(&store.snapshot()), (some("-51.5"), some("-0.125"), some("12")));
}

#[test]
fn blank_gps_lines_change_nothing() {
    let mut store = PositionStore::new();
    assert_eq!(store.feed_line("   "), FeedOutcome::Blank);
    assert_eq!(fields(&store.snapshot()), (None, None, None));
    store.feed_line(GGA_MUNICH);
    assert_eq!(store.feed_line(""), FeedOutcome::Blank);
    assert_eq!(fields(&store.snapshot()), (some("48.1173"), some("11.516666666666667"), some("545.4")));
}

#[test]
fn later_sentence_latitude_wins() {
    let mut store = PositionStore::new();
    store.feed_line(GGA_SOUTH_WEST);
    store.feed_line(GGA_MUNICH);
    assert_eq!(store.snapshot().latitude, some("48.1173"));
    let mut other = PositionStore::new();
    other.feed_line(GGA_MUNICH);
    other.feed_line(GGA_SOUTH_WEST);
    assert_eq!(other.snapshot().latitude, some("-51.5"));
}

#[test]
fn partial_sentence_keeps_older_fields() {
    let mut store = PositionStore::new();
    store.feed_line(GGA_MUNICH);
    assert_eq!(store.feed_line(RMC_NINE_EAST), FeedOutcome::Updated);
    assert_eq!(fields(&store.snapshot()), (some("45"), some("9"), some("545.4")));
    assert_eq!(store.feed_line(VTG_NO_POSITION), FeedOutcome::Updated);
    assert_eq!(fields(&store.snapshot()), (some("45"), some("9"), some("545.4")));
}

#[test]
fn sentence_without_fix_clears_position() {
    let mut store = PositionStore::new();
    assert_eq!(store.feed_line(GGA_MUNICH), FeedOutcome::Updated);
    assert_eq!(store.feed_line(GGA_NO_FIX), FeedOutcome::Updated);
    assert_eq!(fields(&store.snapshot()), (None, None, None));
    assert_eq!(join_line("12.5 ppm", &store.snapshot()), some("12.5ppm,,,"));
}

#[test]
fn decode_gga_without_fix_gives_no_fields() {
    let f = decode(GGA_NO_FIX).unwrap();
    assert_eq!(fields(&f), (None, None, None));
}

#[test]
fn feed_lines_processes_in_order() {
    let mut store = PositionStore::new();
    let lines = vec![
        format!("  {GGA_MUNICH}  "),
        "$INVALID".to_string(),
        String::new(),
        RMC_NINE_EAST.to_string(),
        "garbage".to_string(),
    ];
    store.feed_lines(&lines);
    assert_eq!(fields(&store.snapshot()), (some("45"), some("9"), some("545.4")));
}

#[test]
fn copy_keeps_every_field() {
    let fix = PositionFix { latitude: some("1"), longitude: None, altitude: some("3") };
    assert_eq!(fields(&fix.copy()), (some("1"), None, some("3")));
}

#[test]
fn log_file_name_wraps_stamp() {
    assert_eq!(log_file_name("2024-01-02_030405"), "log_2024-01-02_030405.csv");
}
