use glove_core::ble::dfu::{
    BridgeAction, BridgeEvent, BridgePhase, ConnectionHandle, DfuBridge, DfuFrame, DfuStatus,
    NrfDfuService, NrfDfuServiceEvent, ATT_MTU, MTU,
};

fn fresh() -> ConnectionHandle {
    ConnectionHandle { notify_control: false, notify_packet: false }
}

#[test]
fn mtu_leaves_room_for_the_header() {
    assert_eq!(MTU, 120);
    assert_eq!(ATT_MTU, 123);
}

#[test]
fn subscription_writes_change_the_connection_only() {
    let service = NrfDfuService::new();
    let mut conn = fresh();
    let r = service.handle(&mut conn, NrfDfuServiceEvent::ControlCccdWrite { notifications: true });
    assert!(r.is_none());
    assert_eq!(conn, ConnectionHandle { notify_control: true, notify_packet: false });
    let r = service.handle(&mut conn, NrfDfuServiceEvent::PacketCccdWrite { notifications: true });
    assert!(r.is_none());
    assert_eq!(conn, ConnectionHandle { notify_control: true, notify_packet: true });
    let r = service.handle(&mut conn, NrfDfuServiceEvent::ControlCccdWrite { notifications: false });
    assert!(r.is_none());
    assert_eq!(conn, ConnectionHandle { notify_control: false, notify_packet: true });
}

#[test]
fn control_writes_that_decode_become_requests() {
    let service = NrfDfuService::new();
    let mut conn = fresh();
    for bytes in [
        vec![0x00],
        vec![0x01, 0x02, 0x00, 0x10, 0x00, 0x00],
        vec![0x01, 0x00, 0, 0, 0, 0, 9],
        vec![0x02, 0x05, 0x00],
        vec![0x03],
        vec![0x04],
        vec![0x06, 0x01],
        vec![0x07],
        vec![0x08],
        vec![0x08, 1, 2, 3],
        vec![0x09, 0x01],
        vec![0x0A],
        vec![0x0B, 0x00],
        vec![0x0C],
        vec![0x00, 0xFF],
    ] {
        match service.handle(&mut conn, NrfDfuServiceEvent::ControlWrite(bytes.clone())) {
            Some(DfuFrame::Control(data)) => assert_eq!(data, bytes),
            _ => panic!("expected a control request"),
        }
    }
    assert_eq!(conn, fresh());
}

#[test]
fn malformed_control_writes_are_dropped() {
    let service = NrfDfuService::new();
    let mut conn = fresh();
    for bytes in [
        vec![],
        vec![0xFF],
        vec![0x05],
        vec![0x0D],
        vec![0x01],
        vec![0x01, 0x02, 0, 0, 0],
        vec![0x01, 0x03, 0, 0, 0, 0],
        vec![0x02, 0x01],
        vec![0x06],
        vec![0x06, 0x03],
        vec![0x09],
        vec![0x0B],
    ] {
        assert!(service.handle(&mut conn, NrfDfuServiceEvent::ControlWrite(bytes)).is_none());
    }
}

#[test]
fn packet_writes_are_always_written() {
    let service = NrfDfuService::new();
    let mut conn = fresh();
    for bytes in [vec![], vec![0xFF, 0xFF], vec![1, 2, 3]] {
        match service.handle(&mut conn, NrfDfuServiceEvent::PacketWrite(bytes.clone())) {
            Some(DfuFrame::Write(data)) => assert_eq!(data, bytes),
            _ => panic!("expected a write"),
        }
    }
}

#[test]
fn handle_decoded_follows_the_flag() {
    let service = NrfDfuService::new();
    let mut conn = fresh();
    let r = service.handle_decoded(&mut conn, NrfDfuServiceEvent::ControlWrite(vec![9, 9]), true);
    assert!(matches!(r, Some(DfuFrame::Control(_))));
    let r = service.handle_decoded(&mut conn, NrfDfuServiceEvent::ControlWrite(vec![0]), false);
    assert!(r.is_none());
}

#[test]
fn responses_are_notified_to_subscribers_only() {
    let service = NrfDfuService::new();
    let mut conn = fresh();
    assert_eq!(service.process(&conn, Some(vec![0x60, 0x01, 0x01])), None);
    conn.notify_control = true;
    assert_eq!(service.process(&conn, Some(vec![0x60, 0x01, 0x01])), Some(vec![0x60, 0x01, 0x01]));
    assert_eq!(service.process(&conn, None), None);
    assert_eq!(service.process(&conn, Some(vec![0; 124])), None);
    assert_eq!(service.process(&conn, Some(vec![0; 123])), Some(vec![0; 123]));
}

#[test]
fn complete_image_marks_once_then_resets() {
    let mut bridge = DfuBridge::new();
    assert_eq!(bridge.phase(), BridgePhase::Idle);
    let mut marks = 0;
    let mut resets = 0;
    let events = [
        BridgeEvent::Status(None),
        BridgeEvent::Status(Some(DfuStatus::InProgress)),
        BridgeEvent::Status(Some(DfuStatus::InProgress)),
        BridgeEvent::Status(Some(DfuStatus::DoneReset)),
        BridgeEvent::MarkResult(true),
        BridgeEvent::FlushElapsed,
        BridgeEvent::Status(Some(DfuStatus::DoneReset)),
        BridgeEvent::FlushElapsed,
    ];
    let mut actions = Vec::new();
    for e in events {
        let a = bridge.step(e);
        if a == BridgeAction::MarkUpdated {
            marks += 1;
        }
        if a == BridgeAction::Reset {
            resets += 1;
        }
        actions.push(a);
    }
    assert_eq!(marks, 1);
    assert_eq!(resets, 1);
    assert_eq!(
        actions,
        vec![
            BridgeAction::Continue,
            BridgeAction::Continue,
            BridgeAction::Continue,
            BridgeAction::MarkUpdated,
            BridgeAction::WaitFlush,
            BridgeAction::Reset,
            BridgeAction::Continue,
            BridgeAction::Continue,
        ]
    );
    assert_eq!(bridge.phase(), BridgePhase::Resetting);
}

#[test]
fn failed_mark_halts_without_reset() {
    let mut bridge = DfuBridge::new();
    assert_eq!(bridge.step(BridgeEvent::Status(Some(DfuStatus::DoneReset))), BridgeAction::MarkUpdated);
    assert_eq!(bridge.step(BridgeEvent::MarkResult(false)), BridgeAction::Halt);
    assert_eq!(bridge.phase(), BridgePhase::Halted);
    for e in [BridgeEvent::FlushElapsed, BridgeEvent::MarkResult(true), BridgeEvent::Quit] {
        assert_eq!(bridge.step(e), BridgeAction::Halt);
        assert_eq!(bridge.phase(), BridgePhase::Halted);
    }
}

#[test]
fn image_that_never_completes_never_resets() {
    let mut bridge = DfuBridge::new();
    for _ in 0..50 {
        assert_eq!(bridge.step(BridgeEvent::Status(Some(DfuStatus::InProgress))), BridgeAction::Continue);
        assert_eq!(bridge.step(BridgeEvent::MarkResult(true)), BridgeAction::Continue);
        assert_eq!(bridge.step(BridgeEvent::FlushElapsed), BridgeAction::Continue);
    }
    assert_eq!(bridge.phase(), BridgePhase::Receiving);
    assert_eq!(bridge.step(BridgeEvent::Quit), BridgeAction::Stop);
    assert_eq!(bridge.phase(), BridgePhase::Closed);
    assert_eq!(bridge.step(BridgeEvent::Status(Some(DfuStatus::DoneReset))), BridgeAction::Stop);
}

#[test]
fn partitions_come_from_their_bounds() {
    let config = glove_core::ble::dfu::DfuConfig::new(0x1000, 0x2000, 0x8000, 0x4_8000).unwrap();
    let state = config.state();
    assert_eq!((state.offset, state.size), (0x1000, 0x1000));
    let dfu = config.dfu();
    assert_eq!((dfu.offset, dfu.size), (0x8000, 0x4_0000));
    assert!(glove_core::ble::dfu::DfuConfig::new(0x2000, 0x1000, 0, 0).is_none());
    assert!(glove_core::ble::dfu::DfuConfig::new(0, 0, 5, 4).is_none());
    assert!(glove_core::ble::dfu::DfuConfig::new(7, 7, 9, 9).is_some());
}
