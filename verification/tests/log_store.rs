use modbus_logger::fixed::Decimal;
use modbus_logger::logger::{FileLogger, LogError, parse_row};

#[test]
fn header_then_append_is_exactly_two_lines() {
    let mut log = FileLogger::new("/sdcard/log.csv");
    let header = log.write_header("timestamp,register,value");
    assert_eq!(header.as_str(), "timestamp,register,value\n");
    let row = log
        .log("2024-01-01T00:00:00+00:00", 100, Decimal { mant: 1000, exp: 1 })
        .unwrap();
    assert_eq!(row.as_str(), "2024-01-01T00:00:00+00:00,100,100.0\n");
    // The store's whole content is the header line then that row.
    let mut content = String::new();
    content.push_str(&header);
    content.push_str(&row);
    assert_eq!(
        content,
        "timestamp,register,value\n2024-01-01T00:00:00+00:00,100,100.0\n"
    );
}

#[test]
fn integer_values_render_without_a_point() {
    let mut log = FileLogger::new("/sdcard/log.csv");
    log.write_header("timestamp,register,value");
    let row = log.log("t", 7, Decimal { mant: 42, exp: 0 }).unwrap();
    assert_eq!(row.as_str(), "t,7,42\n");
    let row = log.log("t", 7, Decimal { mant: 42, exp: 3 }).unwrap();
    assert_eq!(row.as_str(), "t,7,0.042\n");
}

#[test]
fn corrupting_timestamps_are_refused() {
    let mut log = FileLogger::new("/sdcard/log.csv");
    log.write_header("timestamp,register,value");
    assert_eq!(
        log.log("2024,bad", 100, Decimal { mant: 1, exp: 0 }),
        Err(LogError::BadTimestamp)
    );
    assert_eq!(
        log.log("2024\nbad", 100, Decimal { mant: 1, exp: 0 }),
        Err(LogError::BadTimestamp)
    );
}

#[test]
fn rows_read_back_unchanged() {
    let mut log = FileLogger::new("/sdcard/log.csv");
    log.write_header("timestamp,register,value");
    let row = log
        .log("2024-01-01T00:00:00+00:00", 100, Decimal { mant: 1000, exp: 1 })
        .unwrap();
    let (ts, register, value) = parse_row(&row).unwrap();
    assert_eq!(ts.as_str(), "2024-01-01T00:00:00+00:00");
    assert_eq!(register, 100);
    assert_eq!(value, Decimal { mant: 1000, exp: 1 });

    let row = log.log("t", 65535, Decimal { mant: 42, exp: 0 }).unwrap();
    let (ts, register, value) = parse_row(&row).unwrap();
    assert_eq!(ts.as_str(), "t");
    assert_eq!(register, 65535);
    assert_eq!(value, Decimal { mant: 42, exp: 0 });
}

#[test]
fn malformed_lines_do_not_parse() {
    assert!(parse_row("").is_none());
    assert!(parse_row("no commas\n").is_none());
    assert!(parse_row("t,100,100.0").is_none());
    assert!(parse_row("t,not-a-number,100.0\n").is_none());
    assert!(parse_row("t,100,12.34.56\n").is_none());
    assert!(parse_row("t,65536,1.0\n").is_none());
}
