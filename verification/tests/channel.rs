use glove_core::interboard::channel::{try_send_msg, OutboundQueue, QUEUE_CAPACITY};
use glove_core::messages::device_to_device::DeviceToDevice;

#[test]
fn drains_in_priority_order() {
    let mut q = OutboundQueue::new();
    for p in [5u8, 1, 3] {
        assert!(q.try_send(DeviceToDevice::KeyPress(p, 0), p).is_ok());
    }
    let mut order = Vec::new();
    while let Some(m) = q.try_receive() {
        assert_eq!(m.msg, DeviceToDevice::KeyPress(m.priority, 0));
        order.push(m.priority);
    }
    assert_eq!(order, vec![1, 3, 5]);
    assert_eq!(q.len(), 0);
}

#[test]
fn equal_priorities_leave_in_send_order() {
    let mut q = OutboundQueue::new();
    for n in 0..6u8 {
        q.try_send(DeviceToDevice::KeyPress(n, n), 2).unwrap();
    }
    q.try_send(DeviceToDevice::Ping, 1).unwrap();
    assert_eq!(q.try_receive().unwrap().msg, DeviceToDevice::Ping);
    for n in 0..6u8 {
        let m = q.try_receive().unwrap();
        assert_eq!(m.priority, 2);
        assert_eq!(m.msg, DeviceToDevice::KeyPress(n, n));
    }
    assert!(q.try_receive().is_none());
}

#[test]
fn full_queue_refuses() {
    let mut q = OutboundQueue::new();
    for n in 0..QUEUE_CAPACITY {
        assert!(try_send_msg(&mut q, DeviceToDevice::KeyRelease(n as u8, 0), 1).is_ok());
    }
    assert_eq!(q.len(), 16);
    assert!(try_send_msg(&mut q, DeviceToDevice::Ping, 0).is_err());
    assert_eq!(q.len(), 16);
    assert_eq!(q.try_receive().unwrap().msg, DeviceToDevice::KeyRelease(0, 0));
    assert!(try_send_msg(&mut q, DeviceToDevice::Ping, 0).is_ok());
    assert_eq!(q.try_receive().unwrap().msg, DeviceToDevice::Ping);
}

#[test]
fn empty_queue_gives_nothing() {
    let mut q = OutboundQueue::new();
    assert!(q.try_receive().is_none());
    assert_eq!(q.len(), 0);
}
