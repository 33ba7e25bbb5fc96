use modbus_logger::modbus::{ModbusClient, ModbusError, ModbusRtu, ModbusTcp};

#[test]
fn rtu_request_frame_bytes() {
    let rtu = ModbusRtu::new("/dev/ttyUSB0", 9600, 1);
    let frame = rtu.request_frame(100, 1).unwrap();
    assert_eq!(frame, vec![1, 4, 0, 100, 0, 1, 112, 21]);
}

#[test]
fn rtu_request_rejects_bad_counts() {
    let rtu = ModbusRtu::new("/dev/ttyUSB0", 9600, 1);
    assert_eq!(rtu.request_frame(100, 0), Err(ModbusError::InvalidRequest));
    assert_eq!(rtu.request_frame(100, 126), Err(ModbusError::InvalidRequest));
    assert!(rtu.request_frame(100, 125).is_ok());
}

#[test]
fn rtu_decodes_registers() {
    let rtu = ModbusRtu::new("/dev/ttyUSB0", 9600, 1);
    let regs = rtu.read_input_registers(100, 1, &[1, 4, 2, 3, 232, 185, 142]).unwrap();
    assert_eq!(regs, vec![1000]);
    let regs = rtu.read_input_registers(100, 1, &[1, 4, 2, 1, 244, 185, 39]).unwrap();
    assert_eq!(regs, vec![500]);
}

#[test]
fn rtu_rejects_bad_frames() {
    let rtu = ModbusRtu::new("/dev/ttyUSB0", 9600, 1);
    assert_eq!(
        rtu.read_input_registers(100, 1, &[1, 4, 2, 3]),
        Err(ModbusError::ResponseTooShort)
    );
    // Same frame as the good one with the last data byte flipped.
    assert_eq!(
        rtu.read_input_registers(100, 1, &[1, 4, 2, 3, 233, 185, 142]),
        Err(ModbusError::CrcMismatch)
    );
    // A frame from slave 2 (correct CRC for its own contents) is not ours.
    let other = ModbusRtu::new("/dev/ttyUSB0", 9600, 2);
    let frame = [1u8, 4, 2, 3, 232, 185, 142];
    assert_eq!(other.read_input_registers(100, 1, &frame), Err(ModbusError::WrongUnit));
    // Device exception: function 0x84 with code 2.
    assert_eq!(
        rtu.read_input_registers(100, 1, &[1, 0x84, 2, 194, 193]),
        Err(ModbusError::DeviceException(2))
    );
    // Byte count does not match a request for two registers.
    assert_eq!(
        rtu.read_input_registers(100, 2, &[1, 4, 2, 3, 232, 185, 142]),
        Err(ModbusError::WrongLength)
    );
}

#[test]
fn tcp_request_frame_bytes_and_transaction_advance() {
    let mut tcp = ModbusTcp::new("192.168.1.100", 502);
    let frame = tcp.request_frame(100, 1).unwrap();
    assert_eq!(frame, vec![0, 0, 0, 0, 0, 6, 1, 4, 0, 100, 0, 1]);
    // Complete the read; the next request carries transaction 1.
    let regs = tcp.read_input_registers(100, 1, &[0, 0, 0, 0, 0, 5, 1, 4, 2, 3, 232]).unwrap();
    assert_eq!(regs, vec![1000]);
    let frame = tcp.request_frame(100, 1).unwrap();
    assert_eq!(frame, vec![0, 1, 0, 0, 0, 6, 1, 4, 0, 100, 0, 1]);
}

#[test]
fn tcp_rejects_bad_frames() {
    let mut tcp = ModbusTcp::new("192.168.1.100", 502);
    assert_eq!(
        tcp.read_input_registers(100, 1, &[0, 0, 0, 0, 0, 5, 1, 4]),
        Err(ModbusError::ResponseTooShort)
    );
    // An answer to transaction 7 while transaction 0 is pending.
    assert_eq!(
        tcp.read_input_registers(100, 1, &[0, 7, 0, 0, 0, 5, 1, 4, 2, 3, 232]),
        Err(ModbusError::WrongTransaction)
    );
    assert_eq!(
        tcp.read_input_registers(100, 1, &[0, 0, 0, 1, 0, 5, 1, 4, 2, 3, 232]),
        Err(ModbusError::WrongProtocol)
    );
    assert_eq!(
        tcp.read_input_registers(100, 1, &[0, 0, 0, 0, 0, 5, 9, 4, 2, 3, 232]),
        Err(ModbusError::WrongUnit)
    );
    assert_eq!(
        tcp.read_input_registers(100, 1, &[0, 0, 0, 0, 0, 5, 1, 0x84, 3, 3, 232]),
        Err(ModbusError::DeviceException(3))
    );
    // Length field says 6 but a one-register answer carries 5.
    assert_eq!(
        tcp.read_input_registers(100, 1, &[0, 0, 0, 0, 0, 6, 1, 4, 2, 3, 232]),
        Err(ModbusError::WrongLength)
    );
    // A failed read does not advance the transaction.
    let frame = tcp.request_frame(100, 1).unwrap();
    assert_eq!(frame[0], 0);
    assert_eq!(frame[1], 0);
}

#[test]
fn client_dispatches_both_transports() {
    let mut client = ModbusClient::new_rtu("/dev/ttyUSB0", 9600, 1);
    let frame = client.request_frame(100, 1).unwrap();
    assert_eq!(frame, vec![1, 4, 0, 100, 0, 1, 112, 21]);
    let regs = client.read_input_registers(100, 1, &[1, 4, 2, 3, 232, 185, 142]).unwrap();
    assert_eq!(regs, vec![1000]);

    let mut client = ModbusClient::new_tcp("192.168.1.100", 502);
    let frame = client.request_frame(100, 1).unwrap();
    assert_eq!(frame, vec![0, 0, 0, 0, 0, 6, 1, 4, 0, 100, 0, 1]);
    let regs = client.read_input_registers(100, 1, &[0, 0, 0, 0, 0, 5, 1, 4, 2, 3, 232]).unwrap();
    assert_eq!(regs, vec![1000]);
    assert_eq!(client.request_frame(100, 0), Err(ModbusError::InvalidRequest));
}
