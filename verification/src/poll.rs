//! The supervisory poll cycle.
//!
//! On each cadence tick the supervisor takes the outcome of one
//! register read, derives the scaled value, appends exactly one log
//! row for a successful read, and decides — strictly — whether the
//! threshold was breached. A failed read changes nothing and the next
//! cycle proceeds normally: a transient transport error is
//! recoverable, not fatal. The caller performs the transport exchange,
//! applies the returned append to the store, submits the returned
//! alert body, and sleeps for the configured period.

use vstd::prelude::*;
use crate::fixed::{Decimal, scale_value};
use crate::modbus::ModbusError;
use crate::logger::{FileLogger, timestamp_ok, row_text};
use crate::alert::{alert_text, format_alert};

verus! {

/// The immutable configuration fixed at startup.
#[derive(Clone, Copy)]
pub struct PollConfig {
    /// Starting register address of every read.
    pub register_address: u16,
    /// Number of registers read each cycle.
    pub register_count: u16,
    /// Scale factor from raw word to engineering value.
    pub scale: Decimal,
    /// Strict alert threshold.
    pub threshold: Decimal,
    /// Seconds between cycles.
    pub period_secs: u32,
}

impl PollConfig {
    /// The ranges the cycle's arithmetic is proved exact for, and a
    /// register count the protocol accepts.
    pub open spec fn wf(self) -> bool {
        &&& self.scale.wf()
        &&& self.scale.mant <= u16::MAX
        &&& self.threshold.wf()
        &&& 1 <= self.register_count <= 125
    }
}

/// How one cycle ended.
#[derive(Clone, Copy, PartialEq, Eq, Structural, Debug)]
pub enum CycleStatus {
    /// The read succeeded and its row was recorded.
    Logged,
    /// The read failed; the cycle was skipped.
    ReadFailed(ModbusError),
    /// The read succeeded but the timestamp would corrupt the store.
    TimestampRejected,
}

/// What one cycle asks the caller to do.
pub struct CycleOutcome {
    /// The line to append to the store, if any.
    pub append: Option<String>,
    /// The alert body to submit, if the threshold was breached.
    pub alert: Option<String>,
    /// How the cycle ended.
    pub status: CycleStatus,
}

/// The supervisor: the fixed configuration, the log, and the count of
/// rows it has recorded.
pub struct PollLoop {
    /// Configuration fixed at startup.
    pub config: PollConfig,
    /// The durable log the cycle appends to.
    pub logger: FileLogger,
    /// How many successful reads have been recorded.
    pub recorded: Ghost<nat>,
}

/// The scaled value a cycle derives from the first register word.
pub open spec fn scaled_of(config: PollConfig, raw: u16) -> Decimal {
    Decimal { mant: (raw * config.scale.mant) as u32, exp: config.scale.exp }
}

/// Everything one cycle does, as a relation between the supervisor
/// state before and after, the read outcome, the timestamp and the
/// emitted outcome.
pub open spec fn cycle_rel(
    pre: PollLoop,
    post: PollLoop,
    read: Result<Vec<u16>, ModbusError>,
    ts: Seq<char>,
    o: CycleOutcome,
) -> bool {
    &&& post.config == pre.config
    &&& post.logger.path == pre.logger.path
    &&& post.logger.header == pre.logger.header
    &&& (read matches Err(e) ==> post == pre && o.append is None && o.alert is None && o.status
        == CycleStatus::ReadFailed(e))
    &&& (read is Ok && !timestamp_ok(ts) ==> post == pre && o.append is None && o.alert is None
        && o.status == CycleStatus::TimestampRejected)
    &&& (read matches Ok(regs) ==> timestamp_ok(ts) ==> {
        let scaled = scaled_of(pre.config, regs@[0]);
        let row = row_text(ts, pre.config.register_address, scaled);
        &&& post.logger.rows@ == pre.logger.rows@.push(row)
        &&& post.recorded@ == pre.recorded@ + 1
        &&& o.append matches Some(line) && line@ == row
        &&& o.status == CycleStatus::Logged
        &&& (o.alert is Some <==> scaled.gt(pre.config.threshold))
        &&& (o.alert matches Some(body) ==> body@ == alert_text(
            pre.config.register_address,
            scaled,
        ))
    })
}

impl PollLoop {
    /// The count of recorded reads always equals the number of rows in
    /// the store's model: no row without a successful read, no
    /// successful recorded read without its row.
    pub open spec fn wf(self) -> bool {
        &&& self.config.wf()
        &&& self.recorded@ == self.logger.rows@.len()
    }

    /// A supervisor over a log: nothing has been recorded beyond what
    /// the log already holds.
    pub fn new(config: PollConfig, logger: FileLogger) -> (r: PollLoop)
        requires
            config.wf(),
        ensures
            r.config == config,
            r.logger == logger,
            r.wf(),
    {
        let recorded: Ghost<nat> = Ghost(logger.rows@.len());
        PollLoop { config, logger, recorded }
    }

    /// One cycle: record a successful read as exactly one row and
    /// decide the alert strictly; skip a failed read, changing
    /// nothing, so the next cycle runs as usual.
    pub fn cycle(&mut self, read: Result<Vec<u16>, ModbusError>, timestamp: &str) -> (o:
        CycleOutcome)
        requires
            old(self).wf(),
            read matches Ok(regs) ==> regs@.len() >= 1,
        ensures
            final(self).wf(),
            cycle_rel(*old(self), *final(self), read, timestamp@, o),
    {
        match read {
            Err(e) => CycleOutcome {
                append: None,
                alert: None,
                status: CycleStatus::ReadFailed(e),
            },
            Ok(regs) => {
                let raw = regs[0];
                let scaled = scale_value(raw, &self.config.scale);
                proof {
                    assert(scaled == scaled_of(self.config, raw));
                }
                match self.logger.log(timestamp, self.config.register_address, scaled) {
                    Ok(line) => {
                        self.recorded = Ghost(self.recorded@ + 1);
                        let alert = if scaled.strictly_greater(&self.config.threshold) {
                            Some(format_alert(self.config.register_address, &scaled))
                        } else {
                            None
                        };
                        CycleOutcome { append: Some(line), alert, status: CycleStatus::Logged }
                    },
                    Err(_) => CycleOutcome {
                        append: None,
                        alert: None,
                        status: CycleStatus::TimestampRejected,
                    },
                }
            },
        }
    }

    /// One cycle stamped with the wall clock: behaves as `cycle` does
    /// for whatever timestamp string the clock yielded.
    pub fn cycle_now(&mut self, read: Result<Vec<u16>, ModbusError>) -> (o: CycleOutcome)
        requires
            old(self).wf(),
            read matches Ok(regs) ==> regs@.len() >= 1,
        ensures
            final(self).wf(),
            exists|ts: Seq<char>| cycle_rel(*old(self), *final(self), read, ts, o),
    {
        let stamp = now_rfc3339();
        let o = self.cycle(read, stamp.as_str());
        proof {
            assert(cycle_rel(*old(self), *self, read, stamp@, o));
        }
        o
    }
}

/// Relies on `std::time::SystemTime::now` for the clock and on
/// chrono's checked `DateTime::from_timestamp` and `to_rfc3339` for
/// the rendering. Total in every clock state: a clock before the Unix
/// epoch, or outside chrono's range, yields an empty string, which
/// the cycle treats like any other timestamp. Nothing is assumed of
/// the returned string.
#[verifier::external_body]
fn now_rfc3339() -> (r: String) {
    let since_epoch = match std::time::SystemTime::now().duration_since(std::time::UNIX_EPOCH) {
        Ok(d) => d,
        Err(_) => return String::new(),
    };
    let secs = match i64::try_from(since_epoch.as_secs()) {
        Ok(s) => s,
        Err(_) => return String::new(),
    };
    match chrono::DateTime::from_timestamp(secs, since_epoch.subsec_nanos()) {
        Some(t) => t.to_rfc3339(),
        None => String::new(),
    }
}

/// Law: across any cycle, the store gains exactly one row for a
/// recorded successful read and is untouched otherwise — in
/// particular, a read failure neither adds nor disturbs rows.
pub proof fn lemma_row_per_successful_read(
    pre: PollLoop,
    post: PollLoop,
    read: Result<Vec<u16>, ModbusError>,
    ts: Seq<char>,
    o: CycleOutcome,
)
    requires
        cycle_rel(pre, post, read, ts, o),
    ensures
        read is Ok && timestamp_ok(ts) ==> post.logger.rows@.len() == pre.logger.rows@.len() + 1
            && post.recorded@ == pre.recorded@ + 1,
        !(read is Ok && timestamp_ok(ts)) ==> post.logger.rows@ == pre.logger.rows@
            && post.recorded@ == pre.recorded@,
        post.logger.rows@.len() >= pre.logger.rows@.len(),
{
}

} // verus!
