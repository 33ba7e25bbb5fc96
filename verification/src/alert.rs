//! Alert dispatch: address validation and the exact alert body.
//!
//! The dispatcher validates its two mailbox addresses at construction
//! — a malformed address is a startup error — and renders the alert
//! body for a threshold breach with the value to two decimals.
//! Submitting the message to the relay is session handling outside
//! this library; the caller reads the validated addresses and the
//! relay coordinates from the constructed value.

use vstd::prelude::*;
use vstd::string::*;
use crate::fixed::{Decimal, pow10, pow10_u64};
use crate::text::{dec_digits, pad_digits, u64_string, pad_string};

verus! {

/// Declares lettre's `Mailbox` so a validated address can be carried
/// in a field; the value stays opaque here.
#[verifier::external_type_specification]
#[verifier::external_body]
pub struct ExMailbox(lettre::message::Mailbox);

/// Whether lettre's mailbox grammar accepts a string: acceptance is a
/// function of the string alone.
pub uninterp spec fn mailbox_ok(s: Seq<char>) -> bool;

/// Relies on lettre's `Mailbox` parser (its `FromStr`): it either
/// parses the string or rejects it, deterministically.
#[verifier::external_body]
fn parse_mailbox(s: &str) -> (r: Option<lettre::message::Mailbox>)
    ensures
        r is Some <==> mailbox_ok(s@),
{
    match s.parse::<lettre::message::Mailbox>() {
        Ok(m) => Some(m),
        Err(_) => None,
    }
}

/// Why the dispatcher could not be built.
#[derive(Clone, Copy, PartialEq, Eq, Structural, Debug)]
pub enum AlertError {
    /// The sender address is not a well-formed mailbox.
    InvalidFrom,
    /// The recipient address is not a well-formed mailbox.
    InvalidTo,
}

/// The mail-based alert dispatcher: validated sender and recipient,
/// and the relay coordinates the caller submits through.
pub struct SmtpAlert {
    /// Relay host name.
    pub server: String,
    /// Relay port.
    pub port: u16,
    /// Credential: user name for the relay.
    pub username: String,
    /// Credential: password for the relay.
    pub password: String,
    /// Validated sender mailbox.
    pub from: lettre::message::Mailbox,
    /// Validated recipient mailbox.
    pub to: lettre::message::Mailbox,
}

impl SmtpAlert {
    /// Validate the two addresses and record the relay coordinates.
    /// Succeeds exactly when both addresses are well-formed mailboxes;
    /// a bad sender is reported before a bad recipient.
    pub fn new(
        server: &str,
        port: u16,
        username: &str,
        password: &str,
        from: &str,
        to: &str,
    ) -> (r: Result<SmtpAlert, AlertError>)
        ensures
            r is Ok <==> mailbox_ok(from@) && mailbox_ok(to@),
            r matches Ok(a) ==> a.server@ == server@ && a.port == port && a.username@ == username@
                && a.password@ == password@,
            !mailbox_ok(from@) ==> r == Result::<SmtpAlert, AlertError>::Err(
                AlertError::InvalidFrom,
            ),
            mailbox_ok(from@) && !mailbox_ok(to@) ==> r == Result::<SmtpAlert, AlertError>::Err(
                AlertError::InvalidTo,
            ),
    {
        let from_addr = match parse_mailbox(from) {
            Some(m) => m,
            None => {
                return Err(AlertError::InvalidFrom);
            },
        };
        let to_addr = match parse_mailbox(to) {
            Some(m) => m,
            None => {
                return Err(AlertError::InvalidTo);
            },
        };
        Ok(
            SmtpAlert {
                server: server.to_owned(),
                port,
                username: username.to_owned(),
                password: password.to_owned(),
                from: from_addr,
                to: to_addr,
            },
        )
    }
}

/// The breached value rounded half-up to hundredths.
pub open spec fn two_dp_val(value: Decimal) -> nat {
    ((value.mant * 100 + pow10(value.exp as nat) / 2) / pow10(value.exp as nat) as int) as nat
}

/// The breached value with exactly two decimals.
pub open spec fn two_dp_text(value: Decimal) -> Seq<char> {
    dec_digits(two_dp_val(value) / 100) + seq!['.'] + pad_digits(two_dp_val(value), 2)
}

/// The alert body for a threshold breach.
pub open spec fn alert_text(register: u16, value: Decimal) -> Seq<char> {
    "Modbus alarm: register "@ + dec_digits(register as nat) + " = "@ + two_dp_text(value)
}

/// Render the alert body: the register and its value to two decimals.
pub fn format_alert(register: u16, value: &Decimal) -> (s: String)
    requires
        value.wf(),
    ensures
        s@ == alert_text(register, *value),
{
    let p = pow10_u64(value.exp);
    let h: u64 = ((value.mant as u64) * 100 + p / 2) / p;
    proof {
        reveal_strlit("Modbus alarm: register ");
        reveal_strlit(" = ");
        reveal_strlit(".");
        assert(h == two_dp_val(*value));
    }
    let mut s = String::from_str("Modbus alarm: register ");
    let reg = u64_string(register as u64);
    s.append(reg.as_str());
    s.append(" = ");
    let whole = u64_string(h / 100);
    s.append(whole.as_str());
    s.append(".");
    let frac = pad_string(h, 2);
    s.append(frac.as_str());
    proof {
        assert(s@ =~= alert_text(register, *value));
    }
    s
}

} // verus!
