use std::future::Future;
use std::sync::Arc;
use std::task::{Context, Poll, Wake, Waker};

use ekv::flash::{Flash, PageID};
use ekv::{Config, Database, ReadError};
use embassy_sync::blocking_mutex::raw::NoopRawMutex;
use glove_core::flash::init::{judge_probe, InitAction, InitEvent, InitPhase, ProbeRead, StoreInit};
use glove_core::flash::{
    delete, delete_request, get, get_request, page_address, set_request, StoreRequest,
    PAGE_SIZE,
};

struct Idle;

impl Wake for Idle {
    fn wake(self: Arc<Self>) {}
}

fn block_on<F: Future>(fut: F) -> F::Output {
    let waker = Waker::from(Arc::new(Idle));
    let mut cx = Context::from_waker(&waker);
    let mut fut = Box::pin(fut);
    loop {
        if let Poll::Ready(v) = fut.as_mut().poll(&mut cx) {
            return v;
        }
    }
}

struct RamFlash {
    start: usize,
    data: Vec<u8>,
}

impl RamFlash {
    fn new(pages: usize) -> Self {
        RamFlash { start: 0x1000, data: vec![0xFF; pages * PAGE_SIZE] }
    }

    fn at(&self, page: PageID, offset: usize) -> usize {
        page_address(self.start, page.index(), offset).unwrap() as usize - self.start
    }
}

impl Flash for RamFlash {
    type Error = core::convert::Infallible;

    fn page_count(&self) -> usize {
        self.data.len() / PAGE_SIZE
    }

    async fn erase(&mut self, page_id: PageID) -> Result<(), Self::Error> {
        let from = self.at(page_id, 0);
        self.data[from..from + PAGE_SIZE].fill(0xFF);
        Ok(())
    }

    async fn read(&mut self, page_id: PageID, offset: usize, data: &mut [u8]) -> Result<(), Self::Error> {
        let from = self.at(page_id, offset);
        data.copy_from_slice(&self.data[from..from + data.len()]);
        Ok(())
    }

    async fn write(&mut self, page_id: PageID, offset: usize, data: &[u8]) -> Result<(), Self::Error> {
        let from = self.at(page_id, offset);
        self.data[from..from + data.len()].copy_from_slice(data);
        Ok(())
    }
}

type Store = Database<RamFlash, NoopRawMutex>;

async fn run(db: &Store, request: StoreRequest) -> Option<Vec<u8>> {
    match request {
        StoreRequest::Write { key, value } => {
            let mut tx = db.write_transaction().await;
            tx.write(&key, &value).await.ok()?;
            tx.commit().await.ok()?;
            Some(Vec::new())
        }
        StoreRequest::Delete { key } => {
            let mut tx = db.write_transaction().await;
            tx.delete(&key).await.ok()?;
            tx.commit().await.ok()?;
            Some(Vec::new())
        }
        StoreRequest::Read { key } => {
            let mut buf = vec![0u8; 1024];
            let tx = db.read_transaction().await;
            let len = tx.read(&key, &mut buf).await.ok()?;
            buf.truncate(len);
            Some(buf)
        }
    }
}

async fn bring_up(db: &Store, expected: &[u8; 16]) -> Vec<InitAction> {
    let mut steps = StoreInit::new();
    let mut trace = Vec::new();
    let mut action = steps.step(InitEvent::Begin);
    loop {
        trace.push(action);
        let event = match action {
            InitAction::Mount => InitEvent::Mounted(db.mount().await.is_ok()),
            InitAction::Format => InitEvent::Formatted(db.format().await.is_ok()),
            InitAction::ReadProbe => {
                let tx = db.read_transaction().await;
                let mut value = [0u8; 16];
                let read = match tx.read(b"type-id-probe", &mut value).await {
                    Ok(len) => ProbeRead::Found(value[..len].to_vec()),
                    Err(ReadError::KeyNotFound) => ProbeRead::Missing,
                    Err(_) => ProbeRead::Failed,
                };
                InitEvent::Probed(judge_probe(expected, &read))
            }
            InitAction::WriteProbe => {
                let mut tx = db.write_transaction().await;
                let written = tx.write(b"type-id-probe", expected).await.is_ok();
                let committed = written && tx.commit().await.is_ok();
                action = steps.step(InitEvent::ProbeWritten(written));
                trace.push(action);
                InitEvent::Committed(committed)
            }
            _ => break,
        };
        action = steps.step(event);
    }
    assert_eq!(steps.phase(), InitPhase::Ready);
    trace
}

#[test]
fn value_that_was_set_is_read_back() {
    let db: Store = Database::new(RamFlash::new(16), Config::default());
    let trace = block_on(bring_up(&db, &[0x5A; 16]));
    assert_eq!(
        trace,
        vec![
            InitAction::Mount,
            InitAction::Format,
            InitAction::ReadProbe,
            InitAction::WriteProbe,
            InitAction::Commit,
            InitAction::Done
        ]
    );

    let type_a = [0xA1; 16];
    let type_b = [0xB2; 16];
    let tail = vec![1u8, 2, 3];
    let value: Vec<u8> = (0..200u8).collect();

    let set = set_request(&type_a, Some(&tail), value.clone()).unwrap();
    assert_eq!(block_on(run(&db, set)), Some(vec![]));
    let get = get_request(&type_a, Some(&tail)).unwrap();
    assert_eq!(block_on(run(&db, get)), Some(value.clone()));

    let other_type = get_request(&type_b, Some(&tail)).unwrap();
    assert_eq!(block_on(run(&db, other_type)), None);
    let other_key = get_request(&type_a, Some(&vec![1u8, 2])).unwrap();
    assert_eq!(block_on(run(&db, other_key)), None);
    let no_key = get_request(&type_a, None).unwrap();
    assert_eq!(block_on(run(&db, no_key)), None);

    let delete = delete_request(&type_a, Some(&tail)).unwrap();
    assert_eq!(block_on(run(&db, delete)), Some(vec![]));
    let get = get_request(&type_a, Some(&tail)).unwrap();
    assert_eq!(block_on(run(&db, get)), None);
}

#[test]
fn store_with_a_foreign_probe_is_wiped() {
    let db: Store = Database::new(RamFlash::new(16), Config::default());
    block_on(bring_up(&db, &[0x11; 16]));
    let set = set_request(&[0xA1; 16], None, vec![7, 7]).unwrap();
    assert_eq!(block_on(run(&db, set)), Some(vec![]));

    let trace = block_on(bring_up(&db, &[0x22; 16]));
    assert_eq!(
        trace,
        vec![
            InitAction::Mount,
            InitAction::ReadProbe,
            InitAction::Mount,
            InitAction::Format,
            InitAction::Format,
            InitAction::Done
        ]
    );
    let get = get_request(&[0xA1; 16], None).unwrap();
    assert_eq!(block_on(run(&db, get)), None);
}

#[test]
fn last_value_set_wins_and_delete_clears() {
    let db: Store = Database::new(RamFlash::new(16), Config::default());
    block_on(bring_up(&db, &[0x5A; 16]));
    let type_a = [0xC3; 16];

    assert_eq!(block_on(run(&db, get(&type_a))), None);
    assert_eq!(block_on(run(&db, delete(&type_a))), Some(vec![]));
    assert_eq!(block_on(run(&db, get(&type_a))), None);

    assert_eq!(block_on(run(&db, glove_core::flash::set(&type_a, vec![1, 1, 1]).unwrap())), Some(vec![]));
    assert_eq!(block_on(run(&db, glove_core::flash::set(&type_a, vec![2, 2]).unwrap())), Some(vec![]));
    assert_eq!(block_on(run(&db, get(&type_a))), Some(vec![2, 2]));

    assert_eq!(block_on(run(&db, delete(&type_a))), Some(vec![]));
    assert_eq!(block_on(run(&db, get(&type_a))), None);
}
