use glove_core::interboard::channel::OutboundQueue;
use glove_core::keys::{receive_from_other_side, send_to_other_side, KeyEvent};
use glove_core::messages::device_to_device::{DeviceToDevice, DeviceToHost, DeviceToHostMsg};
use glove_core::messages::distributors::{
    from_other_side, try_send_to_host, HostDelivery, MessageProvenance, Reaction,
};
use glove_core::side::KeyboardSide;

fn log(text: &[u8]) -> DeviceToHostMsg {
    DeviceToHostMsg::Log { msg: text.to_vec() }
}

#[test]
fn leading_half_keeps_reports_for_its_host() {
    let mut link = OutboundQueue::new();
    let r = try_send_to_host(KeyboardSide::Right, log(b"hi"), MessageProvenance::Origin, &mut link);
    match r {
        HostDelivery::Usb(report) => {
            assert_eq!(report.from_side, KeyboardSide::Right);
            assert_eq!(report.msg, log(b"hi"));
        }
        _ => panic!("expected a report for the host"),
    }
    assert_eq!(link.len(), 0);
}

#[test]
fn other_half_queues_its_own_reports() {
    let mut link = OutboundQueue::new();
    let r = try_send_to_host(KeyboardSide::Left, log(b"lo"), MessageProvenance::Origin, &mut link);
    assert!(matches!(r, HostDelivery::Queued));
    let m = link.try_receive().unwrap();
    assert_eq!(m.priority, 3);
    assert_eq!(
        m.msg,
        DeviceToDevice::ForwardedToHost(DeviceToHost { from_side: KeyboardSide::Left, msg: log(b"lo") })
    );
}

#[test]
fn other_half_drops_forwarded_reports() {
    let mut link = OutboundQueue::new();
    let r =
        try_send_to_host(KeyboardSide::Left, log(b"x"), MessageProvenance::Forwarded, &mut link);
    assert!(matches!(r, HostDelivery::Unneeded));
    assert_eq!(link.len(), 0);
}

#[test]
fn full_link_refuses_reports() {
    let mut link = OutboundQueue::new();
    for _ in 0..16 {
        link.try_send(DeviceToDevice::Ping, 9).unwrap();
    }
    let r = try_send_to_host(KeyboardSide::Left, log(b"x"), MessageProvenance::Origin, &mut link);
    assert!(matches!(r, HostDelivery::Refused));
    assert_eq!(link.len(), 16);
}

#[test]
fn ping_is_answered_with_pong() {
    match from_other_side(DeviceToDevice::Ping) {
        Reaction::Reply(m) => {
            assert_eq!(m.msg, DeviceToDevice::Pong);
            assert_eq!(m.priority, 3);
        }
        _ => panic!("expected a reply"),
    }
    assert!(matches!(from_other_side(DeviceToDevice::Pong), Reaction::Nothing));
    assert!(matches!(from_other_side(DeviceToDevice::KeyPress(1, 2)), Reaction::Nothing));
}

#[test]
fn forwarded_reports_go_to_the_host() {
    let report = DeviceToHost { from_side: KeyboardSide::Left, msg: log(b"abc") };
    match from_other_side(DeviceToDevice::ForwardedToHost(report.clone())) {
        Reaction::ToHost(r) => assert_eq!(r, report),
        _ => panic!("expected a report for the host"),
    }
}

#[test]
fn key_events_cross_the_link_unchanged() {
    for event in [KeyEvent::Press(2, 11), KeyEvent::Release(8, 0)] {
        let m = send_to_other_side(event);
        assert_eq!(m.priority, 1);
        assert_eq!(receive_from_other_side(&m.msg), Some(event));
    }
    assert_eq!(send_to_other_side(KeyEvent::Press(2, 11)).msg, DeviceToDevice::KeyPress(2, 11));
    assert_eq!(receive_from_other_side(&DeviceToDevice::Ping), None);
}
