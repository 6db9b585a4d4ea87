use std::future::Future;
use std::sync::Arc;
use std::task::{Context, Poll, Wake, Waker};

use embedded_storage_async::nor_flash::{ErrorType, NorFlash, ReadNorFlash};
use glove_core::ble::dfu::{
    BridgeAction, BridgeEvent, BridgePhase, ConnectionHandle, DfuBridge, DfuFrame, DfuStatus,
    NrfDfuService, NrfDfuServiceEvent,
};
use nrf_dfu_target::prelude::{DfuRequest, DfuTarget, FirmwareInfo, FirmwareType, HardwareInfo};

struct Quiet;

impl Wake for Quiet {
    fn wake(self: Arc<Self>) {}
}

fn wait_for<F: Future>(fut: F) -> F::Output {
    let waker = Waker::from(Arc::new(Quiet));
    let mut cx = Context::from_waker(&waker);
    let mut fut = Box::pin(fut);
    loop {
        if let Poll::Ready(v) = fut.as_mut().poll(&mut cx) {
            return v;
        }
    }
}

struct Staging {
    mem: Vec<u8>,
    flip_first_byte: bool,
}

impl ErrorType for Staging {
    type Error = core::convert::Infallible;
}

impl ReadNorFlash for Staging {
    const READ_SIZE: usize = 1;

    async fn read(&mut self, offset: u32, bytes: &mut [u8]) -> Result<(), Self::Error> {
        let from = offset as usize;
        bytes.copy_from_slice(&self.mem[from..from + bytes.len()]);
        Ok(())
    }

    fn capacity(&self) -> usize {
        self.mem.len()
    }
}

impl NorFlash for Staging {
    const WRITE_SIZE: usize = 4;
    const ERASE_SIZE: usize = 4096;

    async fn erase(&mut self, from: u32, to: u32) -> Result<(), Self::Error> {
        self.mem[from as usize..to as usize].fill(0xFF);
        Ok(())
    }

    async fn write(&mut self, offset: u32, bytes: &[u8]) -> Result<(), Self::Error> {
        let from = offset as usize;
        self.mem[from..from + bytes.len()].copy_from_slice(bytes);
        if self.flip_first_byte && from == 0 {
            self.mem[0] ^= 0x01;
        }
        Ok(())
    }
}

struct Outcome {
    actions: Vec<BridgeAction>,
    notified: Vec<Vec<u8>>,
    marks: usize,
    phase: BridgePhase,
    image: Vec<u8>,
}

fn drive(events: Vec<NrfDfuServiceEvent>, flip_first_byte: bool) -> Outcome {
    let service = NrfDfuService::new();
    let mut connection = ConnectionHandle { notify_control: false, notify_packet: false };
    let mut bridge = DfuBridge::new();
    let mut flash = Staging { mem: vec![0u8; 4096], flip_first_byte };
    let mut target: DfuTarget<256> = DfuTarget::new(
        4096,
        FirmwareInfo { ftype: FirmwareType::Application, version: 1, addr: 0, len: 0 },
        HardwareInfo { part: 0, variant: 0, rom_size: 0, ram_size: 0, rom_page_size: 0 },
    );
    let mut out = Outcome {
        actions: Vec::new(),
        notified: Vec::new(),
        marks: 0,
        phase: BridgePhase::Idle,
        image: Vec::new(),
    };

    for event in events {
        let status = match service.handle(&mut connection, event) {
            Some(frame) => {
                let data = match frame {
                    DfuFrame::Control(bytes) => (true, bytes),
                    DfuFrame::Write(bytes) => (false, bytes),
                };
                let request = if data.0 {
                    DfuRequest::decode(&data.1).unwrap().0
                } else {
                    DfuRequest::Write { data: &data.1[..] }
                };
                let (response, status) = wait_for(target.process(request, &mut flash));
                let mut buf = [0u8; 32];
                let encoded = response.encode(&mut buf[..]).ok().map(|len| buf[..len].to_vec());
                if let Some(bytes) = service.process(&connection, encoded) {
                    out.notified.push(bytes);
                }
                Some(match status {
                    nrf_dfu_target::prelude::DfuStatus::InProgress => DfuStatus::InProgress,
                    nrf_dfu_target::prelude::DfuStatus::DoneReset => DfuStatus::DoneReset,
                })
            }
            None => None,
        };
        let mut action = bridge.step(BridgeEvent::Status(status));
        loop {
            out.actions.push(action);
            action = match action {
                BridgeAction::MarkUpdated => {
                    out.marks += 1;
                    bridge.step(BridgeEvent::MarkResult(true))
                }
                BridgeAction::WaitFlush => bridge.step(BridgeEvent::FlushElapsed),
                _ => break,
            };
        }
    }
    out.phase = bridge.phase();
    out.image = flash.mem[..12].to_vec();
    out
}

fn image_sequence() -> Vec<NrfDfuServiceEvent> {
    vec![
        NrfDfuServiceEvent::ControlCccdWrite { notifications: true },
        NrfDfuServiceEvent::ControlWrite(vec![0x01, 0x02, 12, 0, 0, 0]),
        NrfDfuServiceEvent::PacketWrite(vec![1, 2, 3, 4]),
        NrfDfuServiceEvent::PacketWrite(vec![5, 6, 7, 8]),
        NrfDfuServiceEvent::PacketWrite(vec![9, 10, 11, 12]),
        NrfDfuServiceEvent::ControlWrite(vec![0x03]),
        NrfDfuServiceEvent::ControlWrite(vec![0x04]),
    ]
}

#[test]
fn complete_image_is_marked_once_and_resets() {
    let out = drive(image_sequence(), false);
    assert_eq!(out.marks, 1);
    assert_eq!(out.actions.iter().filter(|a| **a == BridgeAction::Reset).count(), 1);
    assert_eq!(out.actions.last(), Some(&BridgeAction::Reset));
    assert_eq!(out.phase, BridgePhase::Resetting);
    assert_eq!(out.image, vec![1, 2, 3, 4, 5, 6, 7, 8, 9, 10, 11, 12]);
    assert_eq!(out.notified.len(), 6);
    assert_eq!(out.notified[0][..3], [0x60, 0x01, 0x01]);
}

#[test]
fn corrupted_image_never_resets() {
    let out = drive(image_sequence(), true);
    assert_eq!(out.marks, 0);
    assert!(out.actions.iter().all(|a| *a == BridgeAction::Continue));
    assert_eq!(out.phase, BridgePhase::Receiving);
}

#[test]
fn short_image_never_resets() {
    let mut events = image_sequence();
    events.remove(4);
    let out = drive(events, false);
    assert_eq!(out.marks, 0);
    assert_eq!(out.phase, BridgePhase::Receiving);
}

#[test]
fn nothing_is_notified_without_a_subscription() {
    let mut events = image_sequence();
    events.remove(0);
    let out = drive(events, false);
    assert!(out.notified.is_empty());
    assert_eq!(out.marks, 1);
}
