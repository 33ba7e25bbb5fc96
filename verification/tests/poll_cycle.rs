use modbus_logger::fixed::Decimal;
use modbus_logger::logger::FileLogger;
use modbus_logger::modbus::ModbusError;
use modbus_logger::poll::{CycleStatus, PollConfig, PollLoop};

fn test_config() -> PollConfig {
    PollConfig {
        register_address: 100,
        register_count: 1,
        scale: Decimal { mant: 1, exp: 1 },
        threshold: Decimal { mant: 750, exp: 1 },
        period_secs: 10,
    }
}

fn fresh_loop() -> (PollLoop, String) {
    let mut logger = FileLogger::new("/sdcard/log.csv");
    let header = logger.write_header("timestamp,register,value");
    (PollLoop::new(test_config(), logger), header)
}

#[test]
fn over_threshold_logs_and_alerts() {
    let (mut poll, _) = fresh_loop();
    let o = poll.cycle(Ok(vec![1000]), "2024-01-01T00:00:00+00:00");
    assert_eq!(o.status, CycleStatus::Logged);
    assert_eq!(
        o.append.as_deref(),
        Some("2024-01-01T00:00:00+00:00,100,100.0\n")
    );
    let alert = o.alert.unwrap();
    assert!(alert.contains("100.00"));
    assert_eq!(alert.as_str(), "Modbus alarm: register 100 = 100.00");
}

#[test]
fn under_threshold_logs_without_alert() {
    let (mut poll, _) = fresh_loop();
    let o = poll.cycle(Ok(vec![500]), "2024-01-01T00:00:00+00:00");
    assert_eq!(o.status, CycleStatus::Logged);
    assert_eq!(
        o.append.as_deref(),
        Some("2024-01-01T00:00:00+00:00,100,50.0\n")
    );
    assert!(o.alert.is_none());
}

#[test]
fn exactly_at_threshold_does_not_alert() {
    let (mut poll, _) = fresh_loop();
    let o = poll.cycle(Ok(vec![750]), "t");
    assert_eq!(o.status, CycleStatus::Logged);
    assert!(o.alert.is_none());
    // One raw step above the threshold does alert.
    let o = poll.cycle(Ok(vec![751]), "t");
    assert_eq!(o.alert.as_deref(), Some("Modbus alarm: register 100 = 75.10"));
}

#[test]
fn failed_read_skips_the_cycle_and_preserves_the_store() {
    let (mut poll, header) = fresh_loop();
    let mut store = String::new();
    store.push_str(&header);

    let o = poll.cycle(Ok(vec![200]), "t1");
    store.push_str(o.append.as_deref().unwrap());
    let before_failure = store.clone();

    // The transport timed out: nothing is appended, nothing alerted.
    let o = poll.cycle(Err(ModbusError::ResponseTooShort), "t2");
    assert_eq!(o.status, CycleStatus::ReadFailed(ModbusError::ResponseTooShort));
    assert!(o.append.is_none());
    assert!(o.alert.is_none());
    assert_eq!(store, before_failure);

    // The next cycle proceeds normally.
    let o = poll.cycle(Ok(vec![300]), "t3");
    assert_eq!(o.status, CycleStatus::Logged);
    store.push_str(o.append.as_deref().unwrap());
    assert_eq!(
        store,
        "timestamp,register,value\nt1,100,20.0\nt3,100,30.0\n"
    );
}

#[test]
fn one_row_per_successful_read() {
    let (mut poll, _) = fresh_loop();
    let reads: Vec<Result<Vec<u16>, ModbusError>> = vec![
        Ok(vec![10]),
        Err(ModbusError::CrcMismatch),
        Ok(vec![20]),
        Ok(vec![30]),
        Err(ModbusError::ResponseTooShort),
    ];
    let mut rows = 0usize;
    let mut successes = 0usize;
    for read in reads {
        let ok = read.is_ok();
        let o = poll.cycle(read, "t");
        if ok {
            successes += 1;
        }
        if o.append.is_some() {
            rows += 1;
        }
    }
    assert_eq!(rows, successes);
    assert_eq!(rows, 3);
}

#[test]
fn wall_clock_cycle_logs_a_parseable_row() {
    let (mut poll, _) = fresh_loop();
    let o = poll.cycle_now(Ok(vec![500]));
    assert_eq!(o.status, CycleStatus::Logged);
    let row = o.append.unwrap();
    let (ts, register, value) = modbus_logger::logger::parse_row(&row).unwrap();
    assert!(!ts.is_empty());
    assert_eq!(register, 100);
    assert_eq!(value, Decimal { mant: 500, exp: 1 });
}
