use modbus_logger::alert::{AlertError, SmtpAlert};

#[test]
fn well_formed_addresses_are_accepted() {
    let alert = SmtpAlert::new(
        "smtp.example.com",
        587,
        "user@example.com",
        "password",
        "from@example.com",
        "alert@example.com",
    );
    let alert = alert.unwrap();
    assert_eq!(alert.server, "smtp.example.com");
    assert_eq!(alert.port, 587);
    assert_eq!(alert.username, "user@example.com");
}

#[test]
fn named_mailboxes_are_accepted() {
    let alert = SmtpAlert::new(
        "smtp.example.com",
        587,
        "user",
        "password",
        "Field Device <from@example.com>",
        "Operator <alert@example.com>",
    );
    assert!(alert.is_ok());
}

#[test]
fn malformed_sender_is_a_startup_error() {
    let alert = SmtpAlert::new(
        "smtp.example.com",
        587,
        "user",
        "password",
        "not an address",
        "alert@example.com",
    );
    assert!(matches!(alert, Err(AlertError::InvalidFrom)));
}

#[test]
fn malformed_recipient_is_a_startup_error() {
    let alert = SmtpAlert::new(
        "smtp.example.com",
        587,
        "user",
        "password",
        "from@example.com",
        "also not an address",
    );
    assert!(matches!(alert, Err(AlertError::InvalidTo)));
}
