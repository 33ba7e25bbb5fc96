//! Modbus "read input registers" framing for the two transports: RTU
//! (serial, CRC-checked) and TCP (MBAP header, transaction-matched).
//!
//! The library owns the protocol content: it builds the exact request
//! frame and decodes and validates the exact response frame. Moving
//! those bytes over a serial line or a socket is left to the caller,
//! which feeds the answer back into `read_input_registers`.

use vstd::prelude::*;
use crate::crc::{crc16, crc16_range};

verus! {

/// Why a read failed: a request outside the protocol's limits, or a
/// response frame that does not parse as the answer to it.
#[derive(Clone, Copy, PartialEq, Eq, Structural, Debug)]
pub enum ModbusError {
    /// The register count is outside 1..=125.
    InvalidRequest,
    /// The transport could not carry the exchange (timeout or I/O
    /// failure); the caller that moves the bytes reports it. No
    /// decoder returns this.
    ChannelFailed,
    /// The response frame is shorter than any valid frame.
    ResponseTooShort,
    /// The RTU frame's checksum does not match its contents.
    CrcMismatch,
    /// The response names another unit or slave.
    WrongUnit,
    /// The TCP response answers another transaction.
    WrongTransaction,
    /// The TCP response is not Modbus protocol 0.
    WrongProtocol,
    /// The device answered with an exception code.
    DeviceException(u8),
    /// The response answers another function.
    WrongFunction,
    /// The frame's lengths do not match the requested count.
    WrongLength,
}

/// The function code for reading input registers.
pub const READ_INPUT_REGISTERS: u8 = 4;

/// The same function code with the exception bit set.
pub const READ_INPUT_REGISTERS_FAILED: u8 = 0x84;

/// High byte of a 16-bit word.
pub open spec fn hi(x: u16) -> u8 {
    (x >> 8) as u8
}

/// Low byte of a 16-bit word.
pub open spec fn lo(x: u16) -> u8 {
    (x & 0xff) as u8
}

/// A register count the protocol allows in one request.
pub open spec fn valid_count(count: u16) -> bool {
    1 <= count <= 125
}

/// The register words encoded big-endian in `d`, which carries
/// `2 * n` data bytes.
pub open spec fn words_of(d: Seq<u8>, n: nat) -> Seq<u16> {
    Seq::new(n, |i: int| ((d[2 * i] as u16) * 256 + d[2 * i + 1] as u16) as u16)
}

/// An executable decode result agrees with the specified one.
pub open spec fn decode_matches(
    r: Result<Vec<u16>, ModbusError>,
    s: Result<Seq<u16>, ModbusError>,
) -> bool {
    match (r, s) {
        (Ok(v), Ok(w)) => v@ == w,
        (Err(e), Err(f)) => e == f,
        _ => false,
    }
}

/// The RTU request frame: slave, function, address, count, CRC
/// (low byte first).
pub open spec fn rtu_request(slave: u8, addr: u16, count: u16) -> Seq<u8> {
    let body = seq![slave, READ_INPUT_REGISTERS, hi(addr), lo(addr), hi(count), lo(count)];
    body + seq![lo(crc16(body)), hi(crc16(body))]
}

/// What an RTU response frame decodes to, with the reason it is
/// rejected otherwise: length, then checksum, then addressing, then
/// the device's own exception, then shape.
pub open spec fn rtu_decode(slave: u8, count: u16, r: Seq<u8>) -> Result<Seq<u16>, ModbusError> {
    if r.len() < 5 {
        Err(ModbusError::ResponseTooShort)
    } else {
        let c = crc16(r.subrange(0, r.len() - 2));
        if r[r.len() - 2] != lo(c) || r[r.len() - 1] != hi(c) {
            Err(ModbusError::CrcMismatch)
        } else if r[0] != slave {
            Err(ModbusError::WrongUnit)
        } else if r[1] == READ_INPUT_REGISTERS_FAILED {
            Err(ModbusError::DeviceException(r[2]))
        } else if r[1] != READ_INPUT_REGISTERS {
            Err(ModbusError::WrongFunction)
        } else if r.len() != 5 + 2 * count || r[2] != 2 * count {
            Err(ModbusError::WrongLength)
        } else {
            Ok(words_of(r.subrange(3, r.len() - 2), count as nat))
        }
    }
}

/// The MBAP request frame: transaction, protocol 0, length 6, unit,
/// function, address, count.
pub open spec fn tcp_request(tid: u16, unit: u8, addr: u16, count: u16) -> Seq<u8> {
    seq![
        hi(tid),
        lo(tid),
        0u8,
        0u8,
        0u8,
        6u8,
        unit,
        READ_INPUT_REGISTERS,
        hi(addr),
        lo(addr),
        hi(count),
        lo(count),
    ]
}

/// What a TCP response frame decodes to, with the reason it is
/// rejected otherwise.
pub open spec fn tcp_decode(tid: u16, unit: u8, count: u16, r: Seq<u8>) -> Result<
    Seq<u16>,
    ModbusError,
> {
    if r.len() < 9 {
        Err(ModbusError::ResponseTooShort)
    } else if r[0] != hi(tid) || r[1] != lo(tid) {
        Err(ModbusError::WrongTransaction)
    } else if r[2] != 0 || r[3] != 0 {
        Err(ModbusError::WrongProtocol)
    } else if r[6] != unit {
        Err(ModbusError::WrongUnit)
    } else if r[7] == READ_INPUT_REGISTERS_FAILED {
        Err(ModbusError::DeviceException(r[8]))
    } else if r[7] != READ_INPUT_REGISTERS {
        Err(ModbusError::WrongFunction)
    } else if (r[4] as int) * 256 + r[5] as int != 3 + 2 * count || r[8] != 2 * count || r.len()
        != 9 + 2 * count {
        Err(ModbusError::WrongLength)
    } else {
        Ok(words_of(r.subrange(9, r.len() as int), count as nat))
    }
}

/// Extract `count` big-endian register words starting at `base`.
fn extract_words(r: &[u8], base: usize, count: u16) -> (out: Vec<u16>)
    requires
        base + 2 * count <= r@.len(),
        r@.len() <= usize::MAX,
    ensures
        out@ == words_of(r@.subrange(base as int, base as int + 2 * count), count as nat),
{
    let ghost d = r@.subrange(base as int, base as int + 2 * count);
    let mut out: Vec<u16> = Vec::new();
    let mut i: usize = 0;
    while i < count as usize
        invariant
            i <= count,
            base + 2 * count <= r@.len(),
            r@.len() <= usize::MAX,
            d == r@.subrange(base as int, base as int + 2 * count),
            out@.len() == i,
            forall|t: int| 0 <= t < i ==> out@[t] == (d[2 * t] as u16) * 256 + d[2 * t + 1] as u16,
        decreases count - i,
    {
        let w: u16 = (r[base + 2 * i] as u16) * 256 + (r[base + 2 * i + 1] as u16);
        out.push(w);
        i = i + 1;
    }
    proof {
        assert(out@ =~= words_of(d, count as nat));
    }
    out
}

/// The RTU flavour: a serial line to a numbered slave. The port
/// configuration is carried for the caller that opens the line; the
/// protocol work is done here.
pub struct ModbusRtu {
    /// Device path of the serial port, e.g. `/dev/ttyUSB0`.
    pub path: String,
    /// Baud rate the port is to be opened with.
    pub baud: u32,
    /// The slave identifier requests are addressed to.
    pub slave: u8,
}

impl ModbusRtu {
    /// Record the serial line and the slave a reader will talk to.
    pub fn new(path: &str, baud: u32, slave: u8) -> (r: ModbusRtu)
        ensures
            r.path@ == path@,
            r.baud == baud,
            r.slave == slave,
    {
        ModbusRtu { path: path.to_owned(), baud, slave }
    }

    /// Build the request frame for reading `count` input registers at
    /// `addr`, rejecting counts the protocol does not allow.
    pub fn request_frame(&self, addr: u16, count: u16) -> (r: Result<Vec<u8>, ModbusError>)
        ensures
            valid_count(count) ==> r is Ok && r->Ok_0@ == rtu_request(self.slave, addr, count),
            !valid_count(count) ==> r == Result::<Vec<u8>, ModbusError>::Err(
                ModbusError::InvalidRequest,
            ),
    {
        if count < 1 || count > 125 {
            return Err(ModbusError::InvalidRequest);
        }
        let mut v: Vec<u8> = Vec::new();
        v.push(self.slave);
        v.push(READ_INPUT_REGISTERS);
        v.push((addr >> 8) as u8);
        v.push((addr & 0xff) as u8);
        v.push((count >> 8) as u8);
        v.push((count & 0xff) as u8);
        let ghost body = seq![
            self.slave,
            READ_INPUT_REGISTERS,
            hi(addr),
            lo(addr),
            hi(count),
            lo(count),
        ];
        proof {
            assert(v@ =~= body);
        }
        let c = crc16_range(v.as_slice(), 0, 6);
        proof {
            assert(v@.subrange(0, 6) =~= body);
        }
        v.push((c & 0xff) as u8);
        v.push((c >> 8) as u8);
        proof {
            assert(v@ =~= rtu_request(self.slave, addr, count));
        }
        Ok(v)
    }

    /// Decode `response` as the answer to a request for `count` input
    /// registers: exactly the frames `rtu_decode` accepts are
    /// accepted, and each rejection carries `rtu_decode`'s reason.
    pub fn read_input_registers(&self, _addr: u16, count: u16, response: &[u8]) -> (r: Result<
        Vec<u16>,
        ModbusError,
    >)
        ensures
            decode_matches(r, rtu_decode(self.slave, count, response@)),
    {
        let n = response.len();
        if n < 5 {
            return Err(ModbusError::ResponseTooShort);
        }
        let c = crc16_range(response, 0, n - 2);
        if response[n - 2] != (c & 0xff) as u8 || response[n - 1] != (c >> 8) as u8 {
            return Err(ModbusError::CrcMismatch);
        }
        if response[0] != self.slave {
            return Err(ModbusError::WrongUnit);
        }
        if response[1] == READ_INPUT_REGISTERS_FAILED {
            return Err(ModbusError::DeviceException(response[2]));
        }
        if response[1] != READ_INPUT_REGISTERS {
            return Err(ModbusError::WrongFunction);
        }
        if (n as u64) != 5 + 2 * (count as u64) || (response[2] as u64) != 2 * (count as u64) {
            return Err(ModbusError::WrongLength);
        }
        let out = extract_words(response, 3, count);
        proof {
            assert(response@.subrange(3, 3 + 2 * count) =~= response@.subrange(
                3,
                response@.len() - 2,
            ));
        }
        Ok(out)
    }
}

/// The TCP flavour: MBAP framing against a fixed unit identifier,
/// with a transaction counter that advances on every completed read.
pub struct ModbusTcp {
    /// Host the caller connects the stream to.
    pub host: String,
    /// TCP port of the device.
    pub port: u16,
    /// The unit identifier placed in every request.
    pub unit: u8,
    /// The transaction identifier the next request will carry.
    pub tid: u16,
}

impl ModbusTcp {
    /// Record the peer; requests address unit 1, as the wire protocol
    /// expects of a directly attached device.
    pub fn new(addr: &str, port: u16) -> (r: ModbusTcp)
        ensures
            r.host@ == addr@,
            r.port == port,
            r.unit == 1,
            r.tid == 0,
    {
        ModbusTcp { host: addr.to_owned(), port, unit: 1, tid: 0 }
    }

    /// Build the MBAP request frame for the current transaction,
    /// rejecting counts the protocol does not allow.
    pub fn request_frame(&self, addr: u16, count: u16) -> (r: Result<Vec<u8>, ModbusError>)
        ensures
            valid_count(count) ==> r is Ok && r->Ok_0@ == tcp_request(
                self.tid,
                self.unit,
                addr,
                count,
            ),
            !valid_count(count) ==> r == Result::<Vec<u8>, ModbusError>::Err(
                ModbusError::InvalidRequest,
            ),
    {
        if count < 1 || count > 125 {
            return Err(ModbusError::InvalidRequest);
        }
        let mut v: Vec<u8> = Vec::new();
        v.push((self.tid >> 8) as u8);
        v.push((self.tid & 0xff) as u8);
        v.push(0);
        v.push(0);
        v.push(0);
        v.push(6);
        v.push(self.unit);
        v.push(READ_INPUT_REGISTERS);
        v.push((addr >> 8) as u8);
        v.push((addr & 0xff) as u8);
        v.push((count >> 8) as u8);
        v.push((count & 0xff) as u8);
        proof {
            assert(v@ =~= tcp_request(self.tid, self.unit, addr, count));
        }
        Ok(v)
    }

    /// Decode `response` as the answer to the pending transaction:
    /// exactly the frames `tcp_decode` accepts are accepted, each
    /// rejection carries `tcp_decode`'s reason, and the transaction
    /// identifier advances only on success.
    pub fn read_input_registers(&mut self, _addr: u16, count: u16, response: &[u8]) -> (r: Result<
        Vec<u16>,
        ModbusError,
    >)
        ensures
            decode_matches(r, tcp_decode(old(self).tid, old(self).unit, count, response@)),
            final(self).host == old(self).host,
            final(self).port == old(self).port,
            final(self).unit == old(self).unit,
            final(self).tid == if r is Ok {
                ((old(self).tid + 1) % 0x10000) as u16
            } else {
                old(self).tid
            },
    {
        let n = response.len();
        if n < 9 {
            return Err(ModbusError::ResponseTooShort);
        }
        if response[0] != (self.tid >> 8) as u8 || response[1] != (self.tid & 0xff) as u8 {
            return Err(ModbusError::WrongTransaction);
        }
        if response[2] != 0 || response[3] != 0 {
            return Err(ModbusError::WrongProtocol);
        }
        if response[6] != self.unit {
            return Err(ModbusError::WrongUnit);
        }
        if response[7] == READ_INPUT_REGISTERS_FAILED {
            return Err(ModbusError::DeviceException(response[8]));
        }
        if response[7] != READ_INPUT_REGISTERS {
            return Err(ModbusError::WrongFunction);
        }
        if (response[4] as u64) * 256 + (response[5] as u64) != 3 + 2 * (count as u64) || (
        response[8] as u64) != 2 * (count as u64) || (n as u64) != 9 + 2 * (count as u64) {
            return Err(ModbusError::WrongLength);
        }
        let out = extract_words(response, 9, count);
        proof {
            assert(response@.subrange(9, 9 + 2 * count) =~= response@.subrange(
                9,
                response@.len() as int,
            ));
        }
        if self.tid == 0xFFFF {
            self.tid = 0;
        } else {
            self.tid = self.tid + 1;
        }
        Ok(out)
    }
}

/// The closed choice of transports, selected once at startup and
/// driven through one uniform read operation.
pub enum ModbusClient {
    Rtu(ModbusRtu),
    Tcp(ModbusTcp),
}

/// The request frame the client would send for this read.
pub open spec fn client_request(c: ModbusClient, addr: u16, count: u16) -> Seq<u8> {
    match c {
        ModbusClient::Rtu(r) => rtu_request(r.slave, addr, count),
        ModbusClient::Tcp(t) => tcp_request(t.tid, t.unit, addr, count),
    }
}

/// What the client's decode of `response` yields.
pub open spec fn client_decode(c: ModbusClient, count: u16, response: Seq<u8>) -> Result<
    Seq<u16>,
    ModbusError,
> {
    match c {
        ModbusClient::Rtu(r) => rtu_decode(r.slave, count, response),
        ModbusClient::Tcp(t) => tcp_decode(t.tid, t.unit, count, response),
    }
}

/// The client's state after a read that did or did not succeed.
pub open spec fn client_after(c: ModbusClient, ok: bool) -> ModbusClient {
    match c {
        ModbusClient::Rtu(r) => ModbusClient::Rtu(r),
        ModbusClient::Tcp(t) => ModbusClient::Tcp(
            ModbusTcp {
                tid: if ok {
                    ((t.tid + 1) % 0x10000) as u16
                } else {
                    t.tid
                },
                ..t
            },
        ),
    }
}

impl ModbusClient {
    /// An RTU client over a serial line.
    pub fn new_rtu(path: &str, baud: u32, slave: u8) -> (r: ModbusClient)
        ensures
            r == ModbusClient::Rtu(ModbusRtu { path: r->Rtu_0.path, baud, slave }),
            r->Rtu_0.path@ == path@,
    {
        ModbusClient::Rtu(ModbusRtu::new(path, baud, slave))
    }

    /// A TCP client for `addr:port`.
    pub fn new_tcp(addr: &str, port: u16) -> (r: ModbusClient)
        ensures
            r is Tcp,
            r->Tcp_0.host@ == addr@,
            r->Tcp_0.port == port,
            r->Tcp_0.unit == 1,
            r->Tcp_0.tid == 0,
    {
        ModbusClient::Tcp(ModbusTcp::new(addr, port))
    }

    /// The wire request for reading `count` input registers at `addr`,
    /// whichever transport is active.
    pub fn request_frame(&self, addr: u16, count: u16) -> (r: Result<Vec<u8>, ModbusError>)
        ensures
            valid_count(count) ==> r is Ok && r->Ok_0@ == client_request(*self, addr, count),
            !valid_count(count) ==> r == Result::<Vec<u8>, ModbusError>::Err(
                ModbusError::InvalidRequest,
            ),
    {
        match self {
            ModbusClient::Rtu(c) => c.request_frame(addr, count),
            ModbusClient::Tcp(c) => c.request_frame(addr, count),
        }
    }

    /// Complete a read with the transport's answer, whichever
    /// transport is active.
    pub fn read_input_registers(&mut self, addr: u16, count: u16, response: &[u8]) -> (r: Result<
        Vec<u16>,
        ModbusError,
    >)
        ensures
            decode_matches(r, client_decode(*old(self), count, response@)),
            *final(self) == client_after(*old(self), r is Ok),
    {
        match self {
            ModbusClient::Rtu(c) => c.read_input_registers(addr, count, response),
            ModbusClient::Tcp(c) => c.read_input_registers(addr, count, response),
        }
    }
}

} // verus!
