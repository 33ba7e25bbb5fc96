//! Verified core of a field-device Modbus poll–log–alert controller.
//!
//! The library holds the logic worth proving: Modbus request/response
//! framing for the RTU and TCP transports, the exact fixed-point
//! scaling of raw register values, the append-only CSV log model, the
//! strict alert threshold predicate, and the per-cycle supervisory
//! step that ties them together. Byte-level I/O (serial lines, TCP
//! sockets, the file system, the mail relay) lives outside, in a thin
//! unverified shell that only moves bytes.

pub mod alert;
pub mod crc;
pub mod fixed;
pub mod logger;
pub mod modbus;
pub mod poll;
pub mod text;
