use serial_mock::{MockableSerial, MockableSerialBuilder, SerialMock};
use std::collections::VecDeque;

fn read_resp(p: &mut MockableSerial) -> Vec<u8> {
    let mut final_buffer: Vec<u8> = Vec::new();

    loop {
        let mut read_buf: [u8; 1] = [0; 1];

        match p.read(read_buf.as_mut_slice()) {
            Ok(_) => {
                let byte: u8 = read_buf[0];

                final_buffer.push(byte);

                if byte == 0x23 as u8 {
                    break;
                }
            }
            Err(e) => panic!("Unknown error occurred: {:?}", e),
        }
    }

    final_buffer
}

#[test]
fn test_init() {
    let m = MockableSerialBuilder::new("/dev/null", 115200, 0x35, 1, None);
    let port = m.open_native();

    assert_eq!(port.address(), "/dev/null");
    assert_eq!(port.baud(), 115200);
    assert_eq!(port.stop_byte(), 0x35);
    assert_eq!(port.read_n_bytes(), 1);
}

#[test]
fn test_add_response() {
    let m = MockableSerialBuilder::new("/dev/null", 115200, 0x35, 1, None);
    let mut port = m.open_native();
    port.add_response(&[0x65, 0x65, 0x65]);

    assert_eq!(port.response_queue().get(0).unwrap(), &vec![0x65, 0x65, 0x65]);
}

#[test]
fn test_read() {
    let m = MockableSerialBuilder::new("/dev/null", 115200, 0x23, 1, None);
    let mut port = m.open_native();
    port.add_response(&[
        0x68, 0x65, 0x6c, 0x6c, 0x6f, 0x20, 0x77, 0x6f, 0x72, 0x6c, 0x64, 0x23,
    ]);
    let final_buffer = read_resp(&mut port);
    assert_eq!(std::str::from_utf8(&final_buffer).unwrap(), "hello world#");
}

#[test]
fn test_initial_response() {
    let init_resp = VecDeque::from([vec![0x65, 0x65, 0x65], vec![0x64, 0x64, 0x64]]);
    let m = MockableSerialBuilder::new("/dev/null", 115200, 0x35, 1, Some(init_resp));
    let port = m.open_native();

    assert_eq!(port.response_queue().get(0).unwrap(), &vec![0x65, 0x65, 0x65]);
    assert_eq!(port.response_queue().get(1).unwrap(), &vec![0x64, 0x64, 0x64]);
}

#[test]
fn test_multiple_responses() {
    let init_resp = VecDeque::from([
        vec![0x74, 0x65, 0x73, 0x74, 0x31, 0x23],
        vec![0x74, 0x65, 0x73, 0x74, 0x32, 0x23],
    ]);
    let m = MockableSerialBuilder::new("/dev/null", 115200, 0x23, 1, Some(init_resp));
    let mut port = m.open_native();

    let resp1 = read_resp(&mut port);
    let resp2 = read_resp(&mut port);

    assert_eq!(std::str::from_utf8(&resp1).unwrap(), "test1#");
    assert_eq!(std::str::from_utf8(&resp2).unwrap(), "test2#");
}
