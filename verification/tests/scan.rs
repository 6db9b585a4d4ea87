use glove_core::keys::scan::{patch_pos, Debouncer, Scanner, DEBOUNCE_PERIOD};
use glove_core::keys::KeyEvent;
use glove_core::side::KeyboardSide;

#[test]
fn bounce_yields_exactly_one_press() {
    let mut d: Debouncer<40> = Debouncer::default();
    let samples = [true, false, true, false, true, true, true, true];
    let mut events = Vec::new();
    for s in samples {
        if let Some(e) = d.update(s) {
            events.push(e);
        }
    }
    assert_eq!(events, vec![true]);
    assert!(d.is_pressed());
}

#[test]
fn release_is_accepted_after_the_quiet_time() {
    let mut d: Debouncer<40> = Debouncer::default();
    assert_eq!(d.update(true), Some(true));
    assert_eq!(d.timer(), 40);
    for _ in 0..39 {
        assert_eq!(d.update(false), None);
    }
    assert_eq!(d.timer(), 1);
    assert_eq!(d.update(false), Some(false));
    assert!(!d.is_pressed());
    assert_eq!(d.timer(), 40);
}

#[test]
fn steady_level_reports_nothing() {
    let mut d: Debouncer<40> = Debouncer::default();
    for _ in 0..100 {
        assert_eq!(d.update(false), None);
    }
    assert_eq!(d.update(true), Some(true));
    for _ in 0..100 {
        assert_eq!(d.update(true), None);
    }
}

#[test]
fn thumb_cluster_is_patched() {
    let right = [(8, 6), (7, 6), (6, 6), (8, 7), (7, 7), (6, 7)];
    let left = [(3, 6), (4, 6), (5, 6), (3, 7), (4, 7), (5, 7)];
    for y in 0..6u8 {
        assert_eq!(patch_pos(KeyboardSide::Right, 0, y), right[y as usize]);
        assert_eq!(patch_pos(KeyboardSide::Left, 6, y), left[y as usize]);
    }
}

#[test]
fn main_keys_are_shifted_on_the_right() {
    assert_eq!(patch_pos(KeyboardSide::Right, 6, 2), (11, 2));
    assert_eq!(patch_pos(KeyboardSide::Right, 1, 0), (6, 0));
    assert_eq!(patch_pos(KeyboardSide::Left, 0, 0), (0, 0));
    assert_eq!(patch_pos(KeyboardSide::Left, 5, 5), (5, 5));
}

#[test]
fn no_two_switches_share_a_coordinate() {
    let mut seen = Vec::new();
    for side in [KeyboardSide::Left, KeyboardSide::Right] {
        for x in 0..7u8 {
            for y in 0..6u8 {
                let p = patch_pos(side, x, y);
                assert!(!seen.contains(&p));
                seen.push(p);
            }
        }
    }
    assert_eq!(seen.len(), 84);
}

#[test]
fn scan_reports_flips_in_matrix_order() {
    let mut scanner = Scanner::new();
    let mut levels = [false; 42];
    levels[6 * 6 + 2] = true;
    levels[1 * 6 + 0] = true;
    let events = scanner.scan(KeyboardSide::Right, &levels);
    assert_eq!(events, vec![KeyEvent::Press(0, 6), KeyEvent::Press(2, 11)]);
    assert!(scanner.debouncer(6, 2).is_pressed());
    assert_eq!(scanner.debouncer(6, 2).timer(), DEBOUNCE_PERIOD);
    assert!(!scanner.debouncer(0, 0).is_pressed());
    let again = scanner.scan(KeyboardSide::Right, &levels);
    assert!(again.is_empty());
}

#[test]
fn scan_debounces_a_release() {
    let mut scanner = Scanner::new();
    let mut levels = [false; 42];
    levels[3] = true;
    assert_eq!(scanner.scan(KeyboardSide::Left, &levels), vec![KeyEvent::Press(3, 0)]);
    levels[3] = false;
    for _ in 0..39 {
        assert!(scanner.scan(KeyboardSide::Left, &levels).is_empty());
    }
    assert_eq!(scanner.scan(KeyboardSide::Left, &levels), vec![KeyEvent::Release(3, 0)]);
}
