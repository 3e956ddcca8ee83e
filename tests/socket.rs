use rsnl::{AttributeValue, Message, NetlinkProtocol, NlError, Socket};

#[test]
fn protocol_numbers() {
    assert_eq!(NetlinkProtocol::Route.number(), 0);
    assert_eq!(NetlinkProtocol::Audit.number(), 9);
    assert_eq!(NetlinkProtocol::Crypto.number(), 20);
    assert_eq!(NetlinkProtocol::Zu.number(), 30);
}

#[test]
fn fresh_socket_state() {
    let s = Socket::new();
    assert_eq!(s.get_fd(), -1);
    assert_eq!(s.get_local_port(), 0);
    assert!(!s.is_closed());
    assert_eq!(s.set_buffer_size(1, 1), Err(NlError::NotConnected));
}

#[test]
fn connect_keeps_chosen_port() {
    let mut s = Socket::new();
    s.set_local_port(4242);
    assert_eq!(s.connect(NetlinkProtocol::Route), Ok(0));
    assert_eq!(s.connect_outcome(Ok((5, 777))), Ok(()));
    assert_eq!(s.get_fd(), 5);
    assert_eq!(s.get_local_port(), 4242);
    assert_eq!(s.connect(NetlinkProtocol::Route), Err(NlError::AlreadyConnected));
}

#[test]
fn connect_takes_kernel_port() {
    let mut s = Socket::new();
    assert_eq!(s.connect(NetlinkProtocol::Zu), Ok(30));
    s.connect_outcome(Ok((3, 777))).unwrap();
    assert_eq!(s.get_local_port(), 777);
}

#[test]
fn connect_failure_carries_code() {
    let mut s = Socket::new();
    assert_eq!(s.connect_outcome(Err(-93)), Err(NlError::ConnectFailed(-93)));
    assert_eq!(s.get_fd(), -1);
}

#[test]
fn buffer_sizes_default_when_not_positive() {
    let mut s = Socket::new();
    s.connect_outcome(Ok((3, 1))).unwrap();
    assert_eq!(s.set_buffer_size(0, -5), Ok((32768, 32768)));
    assert_eq!(s.set_buffer_size(1024, 2048), Ok((1024, 2048)));
    assert_eq!(Socket::buffer_size_outcome(-1), Err(NlError::ConfigurationRejected(-1)));
    assert_eq!(Socket::buffer_size_outcome(0), Ok(()));
}

#[test]
fn send_frames_type_flags_and_port() {
    let mut s = Socket::new();
    let mut m = Message::new();
    m.put(3, &AttributeValue::U8(5)).unwrap();
    assert_eq!(s.send_simple(&m, 18, 0x301), Err(NlError::NotConnected));
    s.connect_outcome(Ok((3, 0x0102_0304))).unwrap();
    let b = s.send_simple(&m, 18, 0x301).unwrap();
    assert_eq!(
        b,
        vec![24, 0, 0, 0, 18, 0, 1, 3, 0, 0, 0, 0, 4, 3, 2, 1, 1, 0, 3, 0, 5, 0, 0, 0]
    );
    assert_eq!(Socket::send_outcome(24), Ok(24));
    assert_eq!(Socket::send_outcome(-11), Err(NlError::SendFailed(-11)));
}

#[test]
fn closed_socket_refuses_work() {
    let mut s = Socket::new();
    s.connect_outcome(Ok((8, 1))).unwrap();
    assert_eq!(s.close(), Some(8));
    assert_eq!(s.close(), None);
    assert!(s.is_closed());
    assert_eq!(s.connect(NetlinkProtocol::Route), Err(NlError::HandleClosed));
    assert_eq!(s.set_buffer_size(1, 1), Err(NlError::HandleClosed));
    assert_eq!(s.send_simple(&Message::new(), 1, 0), Err(NlError::HandleClosed));
}
