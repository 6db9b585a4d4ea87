use glove_core::interboard::channel::OutboundQueue;
use glove_core::keys::chord::{chorder, ChordingEngine};
use glove_core::keys::layout::{
    check_keymap, collect_keycodes, is_group, is_key_ok, is_plain, unicode_to_type, update_report,
    KeyProcessor, PipelineInput, MAX_KEYCODES,
};
use glove_core::keys::scan::Scanner;
use glove_core::keys::{matrix_processor, send_to_other_side, CustomEvent, KeyEvent};
use glove_core::messages::device_to_device::DeviceToDevice;
use glove_core::side::KeyboardSide;
use keyberon::action::{k, l, Action};
use keyberon::key_code::KeyCode;
use keyberon::layout::Layers;

fn leak_row(row: Vec<Action>) -> &'static [Action] {
    Box::leak(row.into_boxed_slice())
}

fn leak_layer(rows: Vec<Vec<Action>>) -> &'static [&'static [Action]] {
    let rows: Vec<&'static [Action]> = rows.into_iter().map(leak_row).collect();
    Box::leak(rows.into_boxed_slice())
}

fn leak_layers(layers: Vec<Vec<Vec<Action>>>) -> Layers {
    let layers: Vec<&'static [&'static [Action]]> = layers.into_iter().map(leak_layer).collect();
    Box::leak(layers.into_boxed_slice())
}

fn two_layers() -> Layers {
    leak_layers(vec![
        vec![vec![l(1), k(KeyCode::A), k(KeyCode::LShift)]],
        vec![vec![Action::Trans, k(KeyCode::B), Action::Trans]],
    ])
}

fn leak_action(a: Action) -> &'static Action {
    Box::leak(Box::new(a))
}

fn hold_tap(timeout: u16, hold: Action, tap: Action) -> Action {
    Action::HoldTap { timeout, hold: leak_action(hold), tap: leak_action(tap) }
}

fn press_and_tick(p: &mut KeyProcessor, event: KeyEvent) -> Option<Vec<u8>> {
    assert_eq!(p.step(PipelineInput::Key(event)), None);
    p.step(PipelineInput::Tick)
}

#[test]
fn layer_shift_selects_the_other_layer() {
    let mut p = KeyProcessor::new(two_layers()).unwrap();
    assert_eq!(press_and_tick(&mut p, KeyEvent::Press(0, 0)), None);
    assert_eq!(press_and_tick(&mut p, KeyEvent::Press(0, 1)), Some(vec![KeyCode::B as u8]));
    assert_eq!(press_and_tick(&mut p, KeyEvent::Release(0, 1)), Some(vec![]));
    assert_eq!(press_and_tick(&mut p, KeyEvent::Release(0, 0)), None);
    assert_eq!(press_and_tick(&mut p, KeyEvent::Press(0, 1)), Some(vec![KeyCode::A as u8]));
    assert_eq!(p.keycodes(), vec![KeyCode::A as u8]);
}

#[test]
fn one_report_per_change() {
    let mut p = KeyProcessor::new(two_layers()).unwrap();
    assert_eq!(p.step(PipelineInput::Tick), None);
    assert_eq!(press_and_tick(&mut p, KeyEvent::Press(0, 1)), Some(vec![KeyCode::A as u8]));
    for _ in 0..10 {
        assert_eq!(p.step(PipelineInput::Tick), None);
    }
    assert_eq!(
        press_and_tick(&mut p, KeyEvent::Press(0, 2)),
        Some(vec![KeyCode::A as u8, KeyCode::LShift as u8])
    );
    assert_eq!(press_and_tick(&mut p, KeyEvent::Release(0, 1)), Some(vec![KeyCode::LShift as u8]));
}

#[test]
fn asserted_set_has_no_duplicates() {
    assert_eq!(collect_keycodes(&vec![4, 5, 4, 6, 5]), vec![4, 5, 6]);
    assert_eq!(collect_keycodes(&vec![]), Vec::<u8>::new());
}

#[test]
fn asserted_set_drops_what_does_not_fit() {
    let many: Vec<u8> = (1..=40).collect();
    let set = collect_keycodes(&many);
    assert_eq!(set.len(), MAX_KEYCODES);
    assert_eq!(set, (1..=24).collect::<Vec<u8>>());
}

#[test]
fn report_is_due_only_on_change() {
    let mut state = vec![4u8];
    assert_eq!(update_report(&mut state, &vec![4, 4]), None);
    assert_eq!(state, vec![4]);
    assert_eq!(update_report(&mut state, &vec![4, 7]), Some(vec![4, 7]));
    assert_eq!(state, vec![4, 7]);
    assert_eq!(update_report(&mut state, &vec![]), Some(vec![]));
    assert_eq!(state, Vec::<u8>::new());
}

#[test]
fn unicode_is_typed_on_release() {
    assert_eq!(unicode_to_type(CustomEvent::TypeUnicode("é"), false), Some("é"));
    assert_eq!(unicode_to_type(CustomEvent::TypeUnicode("é"), true), None);
}

#[test]
fn press_on_the_right_half_reaches_host_and_link() {
    let mut rows: Vec<Vec<Action>> = Vec::new();
    for i in 0..9 {
        let mut row = Vec::new();
        for j in 0..12 {
            row.push(if (i, j) == (2, 11) { k(KeyCode::Quote) } else { Action::NoOp });
        }
        rows.push(row);
    }
    let mut scanner = Scanner::new();
    let mut engine = ChordingEngine::new(chorder());
    let mut processor = KeyProcessor::new(leak_layers(vec![rows])).unwrap();
    let mut link = OutboundQueue::new();

    let mut levels = [false; 42];
    levels[6 * 6 + 2] = true;
    let raw = scanner.scan(KeyboardSide::Right, &levels);
    assert_eq!(raw, vec![KeyEvent::Press(2, 11)]);

    let mut reports = Vec::new();
    for event in raw {
        for logical in matrix_processor(&mut engine, PipelineInput::Key(event)) {
            let m = send_to_other_side(logical);
            link.try_send(m.msg, m.priority).unwrap();
            if let Some(r) = processor.step(PipelineInput::Key(logical)) {
                reports.push(r);
            }
        }
    }
    for _ in 0..5 {
        assert!(matrix_processor(&mut engine, PipelineInput::Tick).is_empty());
        if let Some(r) = processor.step(PipelineInput::Tick) {
            reports.push(r);
        }
    }
    assert_eq!(reports, vec![vec![KeyCode::Quote as u8]]);
    assert_eq!(processor.keycodes(), vec![KeyCode::Quote as u8]);

    let sent = link.try_receive().unwrap();
    assert_eq!(sent.msg, DeviceToDevice::KeyPress(2, 11));
    assert_eq!(sent.priority, 1);
    assert!(link.try_receive().is_none());
}

#[test]
fn hold_tap_at_the_top_of_a_key_is_admitted() {
    let layers = leak_layers(vec![vec![vec![
        hold_tap(3, k(KeyCode::LShift), k(KeyCode::A)),
        k(KeyCode::B),
    ]]]);
    assert!(check_keymap(layers));
    let mut p = KeyProcessor::new(layers).unwrap();
    assert_eq!(press_and_tick(&mut p, KeyEvent::Press(0, 0)), None);
    assert_eq!(
        p.step(PipelineInput::Key(KeyEvent::Release(0, 0))),
        Some(vec![KeyCode::A as u8])
    );
    assert_eq!(p.step(PipelineInput::Tick), Some(vec![]));

    assert_eq!(press_and_tick(&mut p, KeyEvent::Press(0, 0)), None);
    let mut reports = Vec::new();
    for _ in 0..5 {
        if let Some(r) = p.step(PipelineInput::Tick) {
            reports.push(r);
        }
    }
    assert_eq!(reports, vec![vec![KeyCode::LShift as u8]]);
}

#[test]
fn keymaps_the_engine_cannot_run_are_refused() {
    let inner = hold_tap(3, k(KeyCode::LShift), k(KeyCode::A));
    let in_group = Action::MultipleActions(leak_row(vec![inner, k(KeyCode::B)]));
    assert!(!is_key_ok(&in_group));
    assert!(KeyProcessor::new(leak_layers(vec![vec![vec![in_group]]])).is_none());

    let nested = hold_tap(3, hold_tap(2, k(KeyCode::A), k(KeyCode::B)), k(KeyCode::C));
    assert!(!is_key_ok(&nested));
    assert!(KeyProcessor::new(leak_layers(vec![vec![vec![k(KeyCode::A)], vec![nested]]])).is_none());

    assert!(!is_plain(&l(256)));
    assert!(is_plain(&l(255)));
    assert!(KeyProcessor::new(leak_layers(vec![vec![vec![l(256)]]])).is_none());

    let group_in_group =
        Action::MultipleActions(leak_row(vec![Action::MultipleActions(leak_row(vec![]))]));
    assert!(!is_group(&group_in_group));
    assert!(!check_keymap(leak_layers(vec![vec![vec![group_in_group]]])));
}

#[test]
fn ordinary_keymaps_are_admitted() {
    let group = Action::MultipleActions(leak_row(vec![k(KeyCode::LCtrl), l(2)]));
    assert!(is_group(&group));
    assert!(is_key_ok(&hold_tap(200, group, Action::MultipleKeyCodes(&[KeyCode::A, KeyCode::B]))));
    assert!(check_keymap(leak_layers(vec![])));
    assert!(check_keymap(leak_layers(vec![vec![], vec![vec![]]])));
    assert!(KeyProcessor::new(leak_layers(vec![])).is_some());
}
