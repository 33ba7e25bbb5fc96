use modbus_logger::fixed::{Decimal, scale_value, scale_value_checked};
use modbus_logger::alert::format_alert;

#[test]
fn scaling_is_exact() {
    let scale = Decimal { mant: 1, exp: 1 };
    let scaled = scale_value(1000, &scale);
    assert_eq!(scaled, Decimal { mant: 1000, exp: 1 });
    let scaled = scale_value(500, &scale);
    assert_eq!(scaled, Decimal { mant: 500, exp: 1 });
    let scaled = scale_value(0, &scale);
    assert_eq!(scaled, Decimal { mant: 0, exp: 1 });
}

#[test]
fn scaling_largest_operands() {
    let scale = Decimal { mant: 65535, exp: 6 };
    let scaled = scale_value(65535, &scale);
    assert_eq!(scaled, Decimal { mant: 65535u32 * 65535u32, exp: 6 });
}

#[test]
fn checked_scaling_is_exact_or_reports_overflow() {
    let scale = Decimal { mant: 25, exp: 2 };
    assert_eq!(
        scale_value_checked(1000, &scale),
        Some(Decimal { mant: 25000, exp: 2 })
    );
    // A product past the 32-bit mantissa is reported, never wrapped.
    let huge = Decimal { mant: u32::MAX, exp: 0 };
    assert_eq!(scale_value_checked(2, &huge), None);
    assert_eq!(
        scale_value_checked(1, &huge),
        Some(Decimal { mant: u32::MAX, exp: 0 })
    );
}

#[test]
fn comparison_is_strict_across_representations() {
    let threshold = Decimal { mant: 75, exp: 0 };
    // 75.0 written with one fractional digit is still not greater.
    let equal = Decimal { mant: 750, exp: 1 };
    assert!(!equal.strictly_greater(&threshold));
    assert!(!threshold.strictly_greater(&equal));
    // The smallest representable step above is greater.
    let above = Decimal { mant: 751, exp: 1 };
    assert!(above.strictly_greater(&threshold));
    let tiny_step = Decimal { mant: 75_000_001, exp: 6 };
    assert!(tiny_step.strictly_greater(&threshold));
    // And below is not.
    let below = Decimal { mant: 749, exp: 1 };
    assert!(!below.strictly_greater(&threshold));
}

#[test]
fn alert_body_has_two_decimals() {
    let value = Decimal { mant: 1000, exp: 1 };
    let body = format_alert(100, &value);
    assert_eq!(body.as_str(), "Modbus alarm: register 100 = 100.00");
    let value = Decimal { mant: 755, exp: 1 };
    let body = format_alert(7, &value);
    assert_eq!(body.as_str(), "Modbus alarm: register 7 = 75.50");
    let value = Decimal { mant: 12345, exp: 3 };
    let body = format_alert(1, &value);
    // 12.345 rounds half-up to 12.35 at two decimals.
    assert_eq!(body.as_str(), "Modbus alarm: register 1 = 12.35");
    let value = Decimal { mant: 9, exp: 0 };
    let body = format_alert(65535, &value);
    assert_eq!(body.as_str(), "Modbus alarm: register 65535 = 9.00");
}
