use glove_core::flash::init::{
    judge_probe, InitAction, InitEvent, InitPhase, ProbeRead, StoreInit,
};
use glove_core::flash::{
    delete, delete_keyed, delete_request, erase_range, get, get_keyed, set_keyed, fits_page, get_request, page_address, page_count, set_request,
    store_key, MkSend, StoreError, StoreRequest, MAX_KEY_SIZE, MAX_VALUE_SIZE, PAGE_SIZE,
};

const TYPE_A: [u8; 16] = [0xA1; 16];

#[test]
fn key_is_discriminator_then_secondary_key() {
    assert_eq!(store_key(&TYPE_A, None), Ok(vec![0xA1; 16]));
    let mut expected = vec![0xA1; 16];
    expected.extend_from_slice(&[1, 2, 3]);
    assert_eq!(store_key(&TYPE_A, Some(&vec![1, 2, 3])), Ok(expected));
    assert_eq!(store_key(&TYPE_A, Some(&vec![])), Ok(vec![0xA1; 16]));
}

#[test]
fn key_is_bounded() {
    assert_eq!(store_key(&TYPE_A, Some(&vec![7; 48])).unwrap().len(), MAX_KEY_SIZE);
    assert_eq!(store_key(&TYPE_A, Some(&vec![7; 49])), Err(StoreError::KeyTooLong));
}

#[test]
fn set_checks_the_value_size() {
    match set_request(&TYPE_A, None, vec![9; MAX_VALUE_SIZE]) {
        Ok(StoreRequest::Write { key, value }) => {
            assert_eq!(key, vec![0xA1; 16]);
            assert_eq!(value, vec![9; MAX_VALUE_SIZE]);
        }
        _ => panic!("expected a write"),
    }
    assert!(matches!(
        set_request(&TYPE_A, None, vec![9; MAX_VALUE_SIZE + 1]),
        Err(StoreError::ValueTooLong)
    ));
    assert!(matches!(
        set_request(&TYPE_A, Some(&vec![0; 49]), vec![1]),
        Err(StoreError::KeyTooLong)
    ));
    assert!(matches!(
        set_request(&TYPE_A, Some(&vec![0; 49]), vec![9; MAX_VALUE_SIZE + 1]),
        Err(StoreError::ValueTooLong)
    ));
}

#[test]
fn get_and_delete_use_the_same_key_as_set() {
    let tail = vec![5, 6];
    let written = match set_request(&TYPE_A, Some(&tail), vec![1]) {
        Ok(StoreRequest::Write { key, .. }) => key,
        _ => panic!("expected a write"),
    };
    match get_request(&TYPE_A, Some(&tail)) {
        Ok(StoreRequest::Read { key }) => assert_eq!(key, written),
        _ => panic!("expected a read"),
    }
    match delete_request(&TYPE_A, Some(&tail)) {
        Ok(StoreRequest::Delete { key }) => assert_eq!(key, written),
        _ => panic!("expected a delete"),
    }
    assert!(matches!(get_request(&TYPE_A, Some(&vec![0; 49])), Err(StoreError::KeyTooLong)));
    assert!(matches!(delete_request(&TYPE_A, Some(&vec![0; 49])), Err(StoreError::KeyTooLong)));
}

#[test]
fn round_trip_against_a_map() {
    let mut store = std::collections::BTreeMap::new();
    let tail = vec![1u8];
    if let Ok(StoreRequest::Write { key, value }) = set_request(&TYPE_A, Some(&tail), vec![42, 43]) {
        store.insert(key, value);
    }
    if let Ok(StoreRequest::Read { key }) = get_request(&TYPE_A, Some(&tail)) {
        assert_eq!(store.get(&key), Some(&vec![42, 43]));
    }
    if let Ok(StoreRequest::Read { key }) = get_request(&[0xB2; 16], Some(&tail)) {
        assert_eq!(store.get(&key), None);
    }
    if let Ok(StoreRequest::Delete { key }) = delete_request(&TYPE_A, Some(&tail)) {
        store.remove(&key);
    }
    if let Ok(StoreRequest::Read { key }) = get_request(&TYPE_A, Some(&tail)) {
        assert_eq!(store.get(&key), None);
    }
}

#[test]
fn page_addresses() {
    assert_eq!(page_address(0x1000, 2, 5), Some(0x1000 + 2 * 4096 + 5));
    assert_eq!(page_address(0, 0, 0), Some(0));
    assert_eq!(page_address(0xFFFF_F000, 0, 0xFFF), Some(0xFFFF_FFFF));
    assert_eq!(page_address(0xFFFF_F000, 1, 0), None);
    assert_eq!(page_address(0, 0x10_0000, 0), None);
    assert_eq!(erase_range(0x2000, 3), Some((0x2000 + 3 * 4096, 0x2000 + 4 * 4096)));
    assert_eq!(erase_range(0xFFFF_F000, 0), None);
}

#[test]
fn page_counts_and_fits() {
    assert_eq!(PAGE_SIZE, 4096);
    assert_eq!(page_count(0x1000, 0x1000 + 10 * 4096), 10);
    assert_eq!(page_count(0x1000, 0x1000 + 4095), 0);
    assert_eq!(page_count(0x2000, 0x1000), 0);
    assert!(fits_page(0, 4096));
    assert!(!fits_page(1, 4096));
    assert!(fits_page(4096, 0));
    assert!(!fits_page(usize::MAX, 2));
}

#[test]
fn mksend_wraps_a_value() {
    let m = MkSend(5u8);
    assert_eq!(m.0, 5);
}

#[test]
fn probe_is_judged() {
    assert!(judge_probe(&TYPE_A, &ProbeRead::Missing));
    assert!(judge_probe(&TYPE_A, &ProbeRead::Found(vec![0xA1; 16])));
    assert!(!judge_probe(&TYPE_A, &ProbeRead::Found(vec![0xA1; 15])));
    assert!(!judge_probe(&TYPE_A, &ProbeRead::Found(vec![0xA2; 16])));
    assert!(!judge_probe(&TYPE_A, &ProbeRead::Found(vec![])));
    assert!(!judge_probe(&TYPE_A, &ProbeRead::Failed));
}

fn run(events: &[InitEvent]) -> (Vec<InitAction>, InitPhase) {
    let mut init = StoreInit::new();
    let actions = events.iter().map(|e| init.step(*e)).collect();
    (actions, init.phase())
}

#[test]
fn healthy_store_comes_up() {
    let (actions, phase) = run(&[
        InitEvent::Begin,
        InitEvent::Mounted(true),
        InitEvent::Probed(true),
        InitEvent::ProbeWritten(true),
        InitEvent::Committed(false),
    ]);
    assert_eq!(
        actions,
        vec![
            InitAction::Mount,
            InitAction::ReadProbe,
            InitAction::WriteProbe,
            InitAction::Commit,
            InitAction::Done
        ]
    );
    assert_eq!(phase, InitPhase::Ready);
}

#[test]
fn corrupt_store_is_formatted() {
    let (actions, phase) = run(&[
        InitEvent::Begin,
        InitEvent::Mounted(false),
        InitEvent::Formatted(true),
        InitEvent::Probed(true),
    ]);
    assert_eq!(
        actions,
        vec![InitAction::Mount, InitAction::Format, InitAction::ReadProbe, InitAction::WriteProbe]
    );
    assert_eq!(phase, InitPhase::WritingProbe);
}

#[test]
fn bad_probe_wipes_the_store() {
    let (actions, phase) = run(&[
        InitEvent::Begin,
        InitEvent::Mounted(true),
        InitEvent::Probed(false),
        InitEvent::Mounted(true),
        InitEvent::Formatted(true),
        InitEvent::Formatted(false),
    ]);
    assert_eq!(
        actions,
        vec![
            InitAction::Mount,
            InitAction::ReadProbe,
            InitAction::Mount,
            InitAction::Format,
            InitAction::Format,
            InitAction::Done
        ]
    );
    assert_eq!(phase, InitPhase::Ready);
}

#[test]
fn full_store_wipes_too() {
    let (actions, phase) = run(&[
        InitEvent::Begin,
        InitEvent::Mounted(true),
        InitEvent::Probed(true),
        InitEvent::ProbeWritten(false),
        InitEvent::Mounted(false),
        InitEvent::Formatted(true),
        InitEvent::Formatted(true),
        InitEvent::Formatted(true),
    ]);
    assert_eq!(actions[3], InitAction::Mount);
    assert_eq!(
        actions[4..],
        [InitAction::Format, InitAction::Format, InitAction::Format, InitAction::Done]
    );
    assert_eq!(phase, InitPhase::Ready);
}

#[test]
fn unusable_flash_stops_the_bring_up() {
    let (actions, phase) =
        run(&[InitEvent::Begin, InitEvent::Mounted(false), InitEvent::Formatted(false)]);
    assert_eq!(actions, vec![InitAction::Mount, InitAction::Format, InitAction::Panic]);
    assert_eq!(phase, InitPhase::Failed);
    let mut init = StoreInit::new();
    assert_eq!(init.step(InitEvent::Mounted(true)), InitAction::Ignore);
    assert_eq!(init.phase(), InitPhase::Start);
}

#[test]
fn unkeyed_requests_use_the_discriminator_alone() {
    match glove_core::flash::set(&TYPE_A, vec![1, 2]) {
        Ok(StoreRequest::Write { key, value }) => {
            assert_eq!(key, vec![0xA1; 16]);
            assert_eq!(value, vec![1, 2]);
        }
        _ => panic!("expected a write"),
    }
    assert!(matches!(glove_core::flash::set(&TYPE_A, vec![0; MAX_VALUE_SIZE + 1]), Err(StoreError::ValueTooLong)));
    match get(&TYPE_A) {
        StoreRequest::Read { key } => assert_eq!(key, vec![0xA1; 16]),
        _ => panic!("expected a read"),
    }
    match delete(&TYPE_A) {
        StoreRequest::Delete { key } => assert_eq!(key, vec![0xA1; 16]),
        _ => panic!("expected a delete"),
    }
}

#[test]
fn keyed_requests_append_the_secondary_key() {
    let tail = vec![7u8, 8];
    let mut expected = vec![0xA1; 16];
    expected.extend_from_slice(&tail);
    match set_keyed(&TYPE_A, &tail, vec![3]) {
        Ok(StoreRequest::Write { key, value }) => {
            assert_eq!(key, expected);
            assert_eq!(value, vec![3]);
        }
        _ => panic!("expected a write"),
    }
    match get_keyed(&TYPE_A, &tail) {
        Ok(StoreRequest::Read { key }) => assert_eq!(key, expected),
        _ => panic!("expected a read"),
    }
    match delete_keyed(&TYPE_A, &tail) {
        Ok(StoreRequest::Delete { key }) => assert_eq!(key, expected),
        _ => panic!("expected a delete"),
    }
    assert!(matches!(set_keyed(&TYPE_A, &vec![0; 49], vec![3]), Err(StoreError::KeyTooLong)));
    assert!(matches!(
        set_keyed(&TYPE_A, &vec![0; 49], vec![0; MAX_VALUE_SIZE + 1]),
        Err(StoreError::ValueTooLong)
    ));
    assert!(matches!(get_keyed(&TYPE_A, &vec![0; 49]), Err(StoreError::KeyTooLong)));
    assert!(matches!(delete_keyed(&TYPE_A, &vec![0; 49]), Err(StoreError::KeyTooLong)));
}
