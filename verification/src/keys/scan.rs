//! Debounced matrix scanning.
//!
//! The matrix has seven driven columns of six sensed rows. The application
//! samples the switches; this module filters the samples per switch and turns
//! accepted flips into key events at logical keymap coordinates.

use vstd::prelude::*;
use crate::side::KeyboardSide;
use crate::keys::KeyEvent;

verus! {

/// Scans a switch has to stay quiet after an accepted flip.
pub const DEBOUNCE_PERIOD: u8 = 40;

/// Driven lines of the matrix.
pub const MATRIX_COLS: usize = 7;

/// Sensed lines of the matrix.
pub const MATRIX_ROWS: usize = 6;

/// Switches of one half.
pub const MATRIX_KEYS: usize = 42;

/// The filter state of one switch as plain values: scans left until a flip
/// is accepted again, and the last accepted level.
pub struct DebounceState {
    pub timer: nat,
    pub is_pressed: bool,
}

/// The state after one sample.
pub open spec fn debounce_next(s: DebounceState, max: nat, sample: bool) -> DebounceState {
    if s.timer <= 1 && sample != s.is_pressed {
        DebounceState { timer: max, is_pressed: sample }
    } else {
        DebounceState { timer: if s.timer == 0 { 0 } else { (s.timer - 1) as nat }, is_pressed: s.is_pressed }
    }
}

/// The flip that one sample reports, if it is accepted.
pub open spec fn debounce_flip(s: DebounceState, sample: bool) -> Option<bool> {
    if s.timer <= 1 && sample != s.is_pressed {
        Some(sample)
    } else {
        None
    }
}

/// The state after a run of samples.
pub open spec fn debounce_run(s: DebounceState, max: nat, samples: Seq<bool>) -> DebounceState
    decreases samples.len(),
{
    if samples.len() == 0 {
        s
    } else {
        debounce_next(debounce_run(s, max, samples.drop_last()), max, samples.last())
    }
}

/// The flips reported over a run of samples, one entry per sample.
pub open spec fn debounce_flips(s: DebounceState, max: nat, samples: Seq<bool>) -> Seq<Option<bool>>
    decreases samples.len(),
{
    if samples.len() == 0 {
        Seq::empty()
    } else {
        debounce_flips(s, max, samples.drop_last()).push(
            debounce_flip(debounce_run(s, max, samples.drop_last()), samples.last()),
        )
    }
}

/// The chatter filter of one switch. After it accepts a flip it ignores the
/// switch for `MAX` scans.
#[derive(Clone, Copy, Debug)]
pub struct Debouncer<const MAX: u8> {
    timer: u8,
    is_pressed: bool,
}

impl<const MAX: u8> View for Debouncer<MAX> {
    type V = DebounceState;

    closed spec fn view(&self) -> DebounceState {
        DebounceState { timer: self.timer as nat, is_pressed: self.is_pressed }
    }
}

impl<const MAX: u8> Default for Debouncer<MAX> {
    fn default() -> (r: Self)
        ensures
            r@ == (DebounceState { timer: 0, is_pressed: false }),
    {
        Self { timer: 0, is_pressed: false }
    }
}

impl<const MAX: u8> Debouncer<MAX> {
    /// Scans left before the next flip can be accepted.
    pub fn timer(&self) -> (r: u8)
        ensures
            r as nat == self@.timer,
    {
        self.timer
    }

    /// The last accepted level.
    pub fn is_pressed(&self) -> (r: bool)
        ensures
            r == self@.is_pressed,
    {
        self.is_pressed
    }

    /// Feeds one raw sample. Returns the new level when the switch flips and
    /// the quiet time since the last flip has run out.
    pub fn update(&mut self, is_pressed: bool) -> (r: Option<bool>)
        ensures
            final(self)@ == debounce_next(old(self)@, MAX as nat, is_pressed),
            r == debounce_flip(old(self)@, is_pressed),
    {
        self.timer = self.timer.saturating_sub(1);
        if is_pressed {
            self.pressed()
        } else {
            self.unpressed()
        }
    }

    fn unpressed(&mut self) -> (r: Option<bool>)
        ensures
            r == (if old(self)@.timer == 0 && old(self)@.is_pressed {
                Some(false)
            } else {
                None
            }),
            final(self)@ == (if r is Some {
                DebounceState { timer: MAX as nat, is_pressed: false }
            } else {
                old(self)@
            }),
    {
        if self.timer == 0 && self.is_pressed {
            self.timer = MAX;
            self.is_pressed = false;
            return Some(false);
        }
        None
    }

    fn pressed(&mut self) -> (r: Option<bool>)
        ensures
            r == (if old(self)@.timer == 0 && !old(self)@.is_pressed {
                Some(true)
            } else {
                None
            }),
            final(self)@ == (if r is Some {
                DebounceState { timer: MAX as nat, is_pressed: true }
            } else {
                old(self)@
            }),
    {
        if self.timer == 0 && !self.is_pressed {
            self.timer = MAX;
            self.is_pressed = true;
            return Some(true);
        }
        None
    }
}

/// During the quiet time after an accepted flip nothing changes but the
/// timer.
pub proof fn lemma_quiet_time(s: DebounceState, max: nat, samples: Seq<bool>)
    requires
        samples.len() < s.timer,
    ensures
        debounce_run(s, max, samples) == (DebounceState {
            timer: (s.timer - samples.len()) as nat,
            is_pressed: s.is_pressed,
        }),
        debounce_flips(s, max, samples) == Seq::new(samples.len(), |k: int| None::<bool>),
    decreases samples.len(),
{
    if samples.len() > 0 {
        lemma_quiet_time(s, max, samples.drop_last());
        assert(debounce_flips(s, max, samples) =~= Seq::new(
            samples.len(),
            |k: int| None::<bool>,
        ));
    } else {
        assert(debounce_flips(s, max, samples) =~= Seq::new(
            samples.len(),
            |k: int| None::<bool>,
        ));
    }
}

/// A press that chatters reports exactly one event. From a released switch
/// whose quiet time has run out, a run of at most `max` samples that starts
/// with a closed contact reports the press at the first sample and nothing
/// afterwards, however the contact bounces, and leaves the switch pressed.
pub proof fn lemma_bounce_yields_one_press(s: DebounceState, max: nat, samples: Seq<bool>)
    requires
        s.timer <= 1,
        !s.is_pressed,
        1 <= samples.len() <= max,
        samples[0],
    ensures
        debounce_flips(s, max, samples)[0] == Some(true),
        forall|k: int| 1 <= k < samples.len() ==> debounce_flips(s, max, samples)[k] == None::<bool>,
        debounce_flips(s, max, samples).len() == samples.len(),
        debounce_run(s, max, samples).is_pressed,
    decreases samples.len(),
{
    let first = samples.take(1);
    let rest = samples.skip(1);
    lemma_run_split(s, max, first, rest);
    assert(first + rest =~= samples);
    assert(first.drop_last() =~= Seq::<bool>::empty());
    assert(debounce_run(s, max, first.drop_last()) == s);
    assert(debounce_flips(s, max, first.drop_last()) =~= Seq::<Option<bool>>::empty());
    let s1 = debounce_run(s, max, first);
    assert(s1 == DebounceState { timer: max, is_pressed: true });
    assert(debounce_flips(s, max, first) =~= seq![Some(true)]);
    lemma_quiet_time(s1, max, rest);
}

/// Running a filter over two runs of samples in turn is running it over
/// their concatenation.
pub proof fn lemma_run_split(s: DebounceState, max: nat, a: Seq<bool>, b: Seq<bool>)
    ensures
        debounce_run(s, max, a + b) == debounce_run(debounce_run(s, max, a), max, b),
        debounce_flips(s, max, a + b) == debounce_flips(s, max, a) + debounce_flips(
            debounce_run(s, max, a),
            max,
            b,
        ),
        debounce_flips(s, max, a).len() == a.len(),
    decreases b.len(),
{
    if b.len() == 0 {
        assert(a + b =~= a);
        assert(debounce_flips(s, max, a) + debounce_flips(debounce_run(s, max, a), max, b)
            =~= debounce_flips(s, max, a));
    } else {
        lemma_run_split(s, max, a, b.drop_last());
        assert((a + b).drop_last() =~= a + b.drop_last());
        assert((a + b).last() == b.last());
        assert(debounce_flips(s, max, a + b) =~= debounce_flips(s, max, a) + debounce_flips(
            debounce_run(s, max, a),
            max,
            b,
        ));
    }
    lemma_flips_len(s, max, a);
}

/// A run of samples reports one entry per sample.
pub proof fn lemma_flips_len(s: DebounceState, max: nat, samples: Seq<bool>)
    ensures
        debounce_flips(s, max, samples).len() == samples.len(),
    decreases samples.len(),
{
    if samples.len() > 0 {
        lemma_flips_len(s, max, samples.drop_last());
    }
}


/// The thumb-cluster coordinate on the right half: the six thumb keys sit on
/// two extra keymap rows, three per row, mirrored.
pub open spec fn thumb_right(y: u8) -> (u8, u8) {
    ((8 - y % 3) as u8, (6 + y / 3) as u8)
}

/// The thumb-cluster coordinate on the left half.
pub open spec fn thumb_left(y: u8) -> (u8, u8) {
    ((3 + y % 3) as u8, (6 + y / 3) as u8)
}

/// The keymap coordinate `(x, y)` of the switch on column `x`, row `y` of
/// the half `side`. The left half fills keymap columns 0 to 5, the right
/// half columns 6 to 11; one column of each half is its thumb cluster.
pub open spec fn patched(side: KeyboardSide, x: u8, y: u8) -> (u8, u8) {
    match side {
        KeyboardSide::Right => if x == 0 {
            thumb_right(y)
        } else {
            ((x + 5) as u8, y)
        },
        KeyboardSide::Left => if x == 6 {
            thumb_left(y)
        } else {
            (x, y)
        },
    }
}

/// Maps a matrix position to its keymap coordinate.
pub fn patch_pos(side: KeyboardSide, x: u8, y: u8) -> (r: (u8, u8))
    requires
        x < MATRIX_COLS,
        y < MATRIX_ROWS,
    ensures
        r == patched(side, x, y),
        r.0 < 12,
        r.1 < 8,
{
    match side {
        KeyboardSide::Right => {
            if x == 0 {
                match y {
                    0 => (8, 6),
                    1 => (7, 6),
                    2 => (6, 6),
                    3 => (8, 7),
                    4 => (7, 7),
                    _ => (6, 7),
                }
            } else {
                (x + 5, y)
            }
        },
        KeyboardSide::Left => {
            if x == 6 {
                match y {
                    0 => (3, 6),
                    1 => (4, 6),
                    2 => (5, 6),
                    3 => (3, 7),
                    4 => (4, 7),
                    _ => (5, 7),
                }
            } else {
                (x, y)
            }
        },
    }
}

/// No two switches of the keyboard share a keymap coordinate, whether they
/// sit on the same half or not.
pub proof fn lemma_patch_is_injective(
    side_a: KeyboardSide,
    xa: u8,
    ya: u8,
    side_b: KeyboardSide,
    xb: u8,
    yb: u8,
)
    requires
        xa < MATRIX_COLS,
        ya < MATRIX_ROWS,
        xb < MATRIX_COLS,
        yb < MATRIX_ROWS,
        patched(side_a, xa, ya) == patched(side_b, xb, yb),
    ensures
        side_a == side_b,
        xa == xb,
        ya == yb,
{
}

/// The key event of an accepted flip of the switch at matrix index `k`,
/// columns counted first.
pub open spec fn flip_event(side: KeyboardSide, k: int, press: bool) -> KeyEvent {
    let p = patched(side, (k / 6) as u8, (k % 6) as u8);
    if press {
        KeyEvent::Press(p.1, p.0)
    } else {
        KeyEvent::Release(p.1, p.0)
    }
}

/// The events of the first `n` switches of one scan, in matrix order.
pub open spec fn scan_events(side: KeyboardSide, flips: Seq<Option<bool>>, n: nat) -> Seq<KeyEvent>
    decreases n,
{
    if n == 0 {
        Seq::empty()
    } else {
        let before = scan_events(side, flips, (n - 1) as nat);
        match flips[n - 1] {
            Some(press) => before.push(flip_event(side, n - 1, press)),
            None => before,
        }
    }
}

/// The matrix scanner of one half: one chatter filter per switch.
pub struct Scanner {
    debouncers: Vec<Debouncer<DEBOUNCE_PERIOD>>,
}

impl Scanner {
    /// The filter states, columns counted first.
    pub closed spec fn states(&self) -> Seq<DebounceState> {
        Seq::new(self.debouncers@.len(), |k: int| self.debouncers@[k]@)
    }

    /// A scanner always has one filter per switch.
    pub closed spec fn wf(&self) -> bool {
        self.debouncers@.len() == MATRIX_KEYS
    }

    /// A scanner whose switches are all released and ready to flip.
    pub fn new() -> (r: Self)
        ensures
            r.wf(),
            r.states() == Seq::new(
                MATRIX_KEYS as nat,
                |k: int| DebounceState { timer: 0, is_pressed: false },
            ),
    {
        let mut debouncers: Vec<Debouncer<DEBOUNCE_PERIOD>> = Vec::new();
        let mut k: usize = 0;
        while k < MATRIX_KEYS
            invariant
                k <= MATRIX_KEYS,
                debouncers@.len() == k,
                forall|m: int|
                    0 <= m < k ==> (#[trigger] debouncers@[m])@ == (DebounceState {
                        timer: 0,
                        is_pressed: false,
                    }),
            decreases MATRIX_KEYS - k,
        {
            debouncers.push(Debouncer::default());
            k += 1;
        }
        let r = Scanner { debouncers };
        assert(r.states() =~= Seq::new(
            MATRIX_KEYS as nat,
            |k: int| DebounceState { timer: 0, is_pressed: false },
        ));
        r
    }

    /// The state of the filter at column `x`, row `y`.
    pub fn debouncer(&self, x: usize, y: usize) -> (r: Debouncer<DEBOUNCE_PERIOD>)
        requires
            self.wf(),
            x < MATRIX_COLS,
            y < MATRIX_ROWS,
        ensures
            r@ == self.states()[x * 6 + y],
    {
        self.debouncers[x * 6 + y]
    }

    /// Runs one scan. `levels` holds the raw level of every switch, columns
    /// counted first. Every filter takes its sample; the accepted flips come
    /// back as key events at keymap coordinates, in matrix order.
    pub fn scan(&mut self, side: KeyboardSide, levels: &[bool; 42]) -> (events: Vec<KeyEvent>)
        requires
            old(self).wf(),
        ensures
            final(self).wf(),
            final(self).states() == Seq::new(
                MATRIX_KEYS as nat,
                |k: int| debounce_next(old(self).states()[k], DEBOUNCE_PERIOD as nat, levels@[k]),
            ),
            events@ == scan_events(
                side,
                Seq::new(
                    MATRIX_KEYS as nat,
                    |k: int| debounce_flip(old(self).states()[k], levels@[k]),
                ),
                MATRIX_KEYS as nat,
            ),
    {
        let ghost before = self.states();
        let ghost flips = Seq::new(
            MATRIX_KEYS as nat,
            |k: int| debounce_flip(before[k], levels@[k]),
        );
        let mut events: Vec<KeyEvent> = Vec::new();
        let mut k: usize = 0;
        while k < MATRIX_KEYS
            invariant
                k <= MATRIX_KEYS,
                self.debouncers@.len() == MATRIX_KEYS,
                before.len() == MATRIX_KEYS,
                flips == Seq::new(
                    MATRIX_KEYS as nat,
                    |k: int| debounce_flip(before[k], levels@[k]),
                ),
                forall|m: int|
                    0 <= m < k ==> (#[trigger] self.debouncers@[m])@ == debounce_next(
                        before[m],
                        DEBOUNCE_PERIOD as nat,
                        levels@[m],
                    ),
                forall|m: int| k <= m < MATRIX_KEYS ==> (#[trigger] self.debouncers@[m])@ == before[m],
                events@ == scan_events(side, flips, k as nat),
            decreases MATRIX_KEYS - k,
        {
            let mut d: Debouncer<DEBOUNCE_PERIOD> = self.debouncers[k];
            let flip = d.update(levels[k]);
            self.debouncers[k] = d;
            match flip {
                Some(press) => {
                    let x: u8 = (k / 6) as u8;
                    let y: u8 = (k % 6) as u8;
                    let p = patch_pos(side, x, y);
                    if press {
                        events.push(KeyEvent::Press(p.1, p.0));
                    } else {
                        events.push(KeyEvent::Release(p.1, p.0));
                    }
                },
                None => {},
            }
            k += 1;
        }
        assert(self.states() =~= Seq::new(
            MATRIX_KEYS as nat,
            |k: int| debounce_next(before[k], DEBOUNCE_PERIOD as nat, levels@[k]),
        ));
        events
    }
}

} // verus!
