//! Chord resolution.
//!
//! A chord is a set of trigger keys that, pressed together, stand for other
//! keys. The engine holds back the press of a trigger key until it knows
//! whether the chord completes. It completes when every trigger of the chord
//! is down before the oldest of them has waited for the whole window; the
//! chord's outputs are then pressed in place of the triggers. A trigger that
//! waits the whole window, or is let go while it waits, is passed on as it
//! came.

use vstd::prelude::*;
use crate::keys::KeyEvent;

verus! {

/// Ticks a trigger key waits for the rest of its chord.
pub const CHORD_WINDOW: u16 = 30;

/// A keymap coordinate.
pub type Pos = (u8, u8);

/// A chord as plain values.
pub struct ChordSpec {
    pub triggers: Seq<Pos>,
    pub outputs: Seq<Pos>,
}

/// A trigger press that is held back, and for how many ticks.
#[derive(Clone, Copy, Debug)]
pub struct PendingKey {
    pub pos: Pos,
    pub age: u16,
}

/// A trigger key that is down as part of the chord `chord` that fired.
#[derive(Clone, Copy, Debug)]
pub struct HeldKey {
    pub pos: Pos,
    pub chord: usize,
}

/// What the engine remembers between events.
pub struct EngineState {
    pub pending: Seq<PendingKey>,
    pub held: Seq<HeldKey>,
}

/// The result of one step: the state after it and the events passed on.
pub struct Step {
    pub state: EngineState,
    pub events: Seq<KeyEvent>,
}

/// Whether `p` is a trigger of one of the first `n` chords.
pub open spec fn is_trigger(table: Seq<ChordSpec>, p: Pos, n: nat) -> bool
    decreases n,
{
    n > 0 && (table[n - 1].triggers.contains(p) || is_trigger(table, p, (n - 1) as nat))
}

/// Whether one of the first `n` held-back presses is at `p`.
pub open spec fn is_pending(pending: Seq<PendingKey>, p: Pos, n: nat) -> bool
    decreases n,
{
    n > 0 && (pending[n - 1].pos == p || is_pending(pending, p, (n - 1) as nat))
}

/// Whether the first `n` triggers of a chord are all down once `p` goes
/// down: each is `p` or is held back.
pub open spec fn triggers_down(triggers: Seq<Pos>, pending: Seq<PendingKey>, p: Pos, n: nat) -> bool
    decreases n,
{
    n == 0 || ((triggers[n - 1] == p || is_pending(pending, triggers[n - 1], pending.len()))
        && triggers_down(triggers, pending, p, (n - 1) as nat))
}

/// Whether the press of `p` completes the chord.
pub open spec fn completes(c: ChordSpec, pending: Seq<PendingKey>, p: Pos) -> bool {
    c.triggers.contains(p) && triggers_down(c.triggers, pending, p, c.triggers.len())
}

/// The first chord from index `from` on that the press of `p` completes.
pub open spec fn first_complete(table: Seq<ChordSpec>, pending: Seq<PendingKey>, p: Pos, from: nat) -> Option<int>
    decreases table.len() - from,
{
    if from >= table.len() {
        None
    } else if completes(table[from as int], pending, p) {
        Some(from as int)
    } else {
        first_complete(table, pending, p, from + 1)
    }
}

/// Press events at the first `n` of the given coordinates, in order.
pub open spec fn presses(at: Seq<Pos>, n: nat) -> Seq<KeyEvent>
    decreases n,
{
    if n == 0 {
        Seq::empty()
    } else {
        presses(at, (n - 1) as nat).push(KeyEvent::Press(at[n - 1].0, at[n - 1].1))
    }
}

/// Release events at the first `n` of the given coordinates, in order.
pub open spec fn releases(at: Seq<Pos>, n: nat) -> Seq<KeyEvent>
    decreases n,
{
    if n == 0 {
        Seq::empty()
    } else {
        releases(at, (n - 1) as nat).push(KeyEvent::Release(at[n - 1].0, at[n - 1].1))
    }
}

/// The first `n` held-back presses as press events, oldest first.
pub open spec fn pending_presses(pending: Seq<PendingKey>, n: nat) -> Seq<KeyEvent>
    decreases n,
{
    if n == 0 {
        Seq::empty()
    } else {
        pending_presses(pending, (n - 1) as nat).push(
            KeyEvent::Press(pending[n - 1].pos.0, pending[n - 1].pos.1),
        )
    }
}

/// Of the first `n` held-back presses, those that are no trigger in
/// `triggers`.
pub open spec fn pending_without(pending: Seq<PendingKey>, triggers: Seq<Pos>, n: nat) -> Seq<PendingKey>
    decreases n,
{
    if n == 0 {
        Seq::empty()
    } else if triggers.contains(pending[n - 1].pos) {
        pending_without(pending, triggers, (n - 1) as nat)
    } else {
        pending_without(pending, triggers, (n - 1) as nat).push(pending[n - 1])
    }
}

/// `held` with the first `n` of `triggers` added as keys of chord `chord`.
pub open spec fn held_with(held: Seq<HeldKey>, triggers: Seq<Pos>, chord: usize, n: nat) -> Seq<HeldKey>
    decreases n,
{
    if n == 0 {
        held
    } else {
        held_with(held, triggers, chord, (n - 1) as nat).push(
            HeldKey { pos: triggers[n - 1], chord },
        )
    }
}

/// The index among the first `n` held keys of the last one at `p`.
pub open spec fn held_index(held: Seq<HeldKey>, p: Pos, n: nat) -> Option<usize>
    decreases n,
{
    if n == 0 {
        None
    } else if held[n - 1].pos == p {
        Some((n - 1) as usize)
    } else {
        held_index(held, p, (n - 1) as nat)
    }
}

/// How many of the first `n` held keys belong to chord `chord`.
pub open spec fn held_count(held: Seq<HeldKey>, chord: usize, n: nat) -> nat
    decreases n,
{
    if n == 0 {
        0
    } else {
        held_count(held, chord, (n - 1) as nat) + if held[n - 1].chord == chord {
            1nat
        } else {
            0nat
        }
    }
}

/// What a press of `p` does.
///
/// Where it completes a chord, the chord's triggers stop waiting and its
/// outputs are pressed. Otherwise a trigger key starts to wait, and any
/// other key is passed on behind the presses that were waiting.
pub open spec fn press_step(table: Seq<ChordSpec>, s: EngineState, p: Pos) -> Step {
    match first_complete(table, s.pending, p, 0) {
        Some(i) => Step {
            state: EngineState {
                pending: pending_without(s.pending, table[i].triggers, s.pending.len()),
                held: held_with(s.held, table[i].triggers, i as usize, table[i].triggers.len()),
            },
            events: presses(table[i].outputs, table[i].outputs.len()),
        },
        None => if is_trigger(table, p, table.len()) {
            Step {
                state: EngineState {
                    pending: s.pending.push(PendingKey { pos: p, age: 0 }),
                    held: s.held,
                },
                events: Seq::empty(),
            }
        } else {
            Step {
                state: EngineState { pending: Seq::empty(), held: s.held },
                events: pending_presses(s.pending, s.pending.len()).push(
                    KeyEvent::Press(p.0, p.1),
                ),
            }
        },
    }
}

/// What a release of `p` does.
///
/// A key that was waiting gives up: everything that waited is passed on,
/// then the release. The first trigger of a fired chord to be let go
/// releases the chord's outputs; the releases of its other triggers are
/// swallowed. Any other release is passed on.
pub open spec fn release_step(table: Seq<ChordSpec>, s: EngineState, p: Pos) -> Step {
    if is_pending(s.pending, p, s.pending.len()) {
        Step {
            state: EngineState { pending: Seq::empty(), held: s.held },
            events: pending_presses(s.pending, s.pending.len()).push(
                KeyEvent::Release(p.0, p.1),
            ),
        }
    } else {
        match held_index(s.held, p, s.held.len()) {
            Some(k) => {
                let c = s.held[k as int].chord;
                Step {
                    state: EngineState { pending: s.pending, held: s.held.remove(k as int) },
                    events: if c < table.len() && held_count(s.held, c, s.held.len())
                        == table[c as int].triggers.len() {
                        releases(table[c as int].outputs, table[c as int].outputs.len())
                    } else {
                        Seq::empty()
                    },
                }
            },
            None => Step { state: s, events: seq![KeyEvent::Release(p.0, p.1)] },
        }
    }
}

/// What one raw event does.
pub open spec fn process_step(table: Seq<ChordSpec>, s: EngineState, event: KeyEvent) -> Step {
    match event {
        KeyEvent::Press(i, j) => press_step(table, s, (i, j)),
        KeyEvent::Release(i, j) => release_step(table, s, (i, j)),
    }
}

/// The age of a held-back press after one more tick.
pub open spec fn aged(k: PendingKey) -> PendingKey {
    PendingKey { pos: k.pos, age: if k.age == u16::MAX { k.age } else { (k.age + 1) as u16 } }
}

/// Of the first `n` held-back presses, aged by one tick, those that still
/// wait.
pub open spec fn still_waiting(pending: Seq<PendingKey>, window: u16, n: nat) -> Seq<PendingKey>
    decreases n,
{
    if n == 0 {
        Seq::empty()
    } else if aged(pending[n - 1]).age >= window {
        still_waiting(pending, window, (n - 1) as nat)
    } else {
        still_waiting(pending, window, (n - 1) as nat).push(aged(pending[n - 1]))
    }
}

/// Of the first `n` held-back presses, the coordinates of those whose
/// window runs out with this tick, oldest first.
pub open spec fn timed_out(pending: Seq<PendingKey>, window: u16, n: nat) -> Seq<Pos>
    decreases n,
{
    if n == 0 {
        Seq::empty()
    } else if aged(pending[n - 1]).age >= window {
        timed_out(pending, window, (n - 1) as nat).push(pending[n - 1].pos)
    } else {
        timed_out(pending, window, (n - 1) as nat)
    }
}

/// The state after one tick.
pub open spec fn tick_state(s: EngineState, window: u16) -> EngineState {
    EngineState { pending: still_waiting(s.pending, window, s.pending.len()), held: s.held }
}

/// The state after `n` ticks.
pub open spec fn tick_n(s: EngineState, window: u16, n: nat) -> EngineState
    decreases n,
{
    if n == 0 {
        s
    } else {
        tick_state(tick_n(s, window, (n - 1) as nat), window)
    }
}

/// One configured chord.
pub struct Chord {
    pub triggers: Vec<Pos>,
    pub outputs: Vec<Pos>,
}

impl View for Chord {
    type V = ChordSpec;

    open spec fn view(&self) -> ChordSpec {
        ChordSpec { triggers: self.triggers@, outputs: self.outputs@ }
    }
}

/// The chord table and the window in ticks.
pub struct Chorder {
    pub chords: Vec<Chord>,
    pub window: u16,
}

impl Chorder {
    /// The table as plain values.
    pub open spec fn table(&self) -> Seq<ChordSpec> {
        Seq::new(self.chords@.len(), |k: int| self.chords@[k]@)
    }
}

/// Whether `v` holds `p`.
fn contains_pos(v: &Vec<Pos>, p: Pos) -> (r: bool)
    ensures
        r == v@.contains(p),
{
    let mut k: usize = 0;
    while k < v.len()
        invariant
            k <= v@.len(),
            forall|m: int| 0 <= m < k ==> v@[m] != p,
        decreases v@.len() - k,
    {
        if v[k].0 == p.0 && v[k].1 == p.1 {
            return true;
        }
        k += 1;
    }
    false
}

/// The chord resolver of one half.
pub struct ChordingEngine {
    chorder: Chorder,
    pending: Vec<PendingKey>,
    held: Vec<HeldKey>,
}

impl View for ChordingEngine {
    type V = EngineState;

    closed spec fn view(&self) -> EngineState {
        EngineState { pending: self.pending@, held: self.held@ }
    }
}

impl ChordingEngine {
    /// The chord table the engine resolves against.
    pub closed spec fn table(&self) -> Seq<ChordSpec> {
        self.chorder.table()
    }

    /// The window in ticks.
    pub closed spec fn window(&self) -> u16 {
        self.chorder.window
    }

    /// An engine with nothing waiting and no chord down.
    pub fn new(chorder: Chorder) -> (r: Self)
        ensures
            r.table() == chorder.table(),
            r.window() == chorder.window,
            r@ == (EngineState { pending: Seq::empty(), held: Seq::empty() }),
    {
        ChordingEngine { chorder, pending: Vec::new(), held: Vec::new() }
    }

    /// How many presses are waiting.
    pub fn pending_len(&self) -> (r: usize)
        ensures
            r == self@.pending.len(),
    {
        self.pending.len()
    }

    fn has_trigger(&self, p: Pos) -> (r: bool)
        ensures
            r == is_trigger(self.table(), p, self.table().len()),
    {
        let mut k: usize = 0;
        while k < self.chorder.chords.len()
            invariant
                k <= self.chorder.chords@.len(),
                self.table().len() == self.chorder.chords@.len(),
                !is_trigger(self.table(), p, k as nat),
            decreases self.chorder.chords@.len() - k,
        {
            if contains_pos(&self.chorder.chords[k].triggers, p) {
                assert(self.table()[k as int].triggers.contains(p));
                proof {
                    self.lemma_trigger_found(p, k as nat);
                }
                return true;
            }
            k += 1;
        }
        false
    }

    proof fn lemma_trigger_found(&self, p: Pos, k: nat)
        requires
            k < self.table().len(),
            self.table()[k as int].triggers.contains(p),
        ensures
            is_trigger(self.table(), p, self.table().len()),
    {
        lemma_is_trigger_mono(self.table(), p, k + 1, self.table().len());
    }

    fn has_pending(&self, p: Pos) -> (r: bool)
        ensures
            r == is_pending(self@.pending, p, self@.pending.len()),
    {
        let mut k: usize = 0;
        while k < self.pending.len()
            invariant
                k <= self.pending@.len(),
                !is_pending(self.pending@, p, k as nat),
            decreases self.pending@.len() - k,
        {
            if self.pending[k].pos.0 == p.0 && self.pending[k].pos.1 == p.1 {
                proof {
                    lemma_is_pending_mono(self.pending@, p, (k + 1) as nat, self.pending@.len());
                }
                return true;
            }
            k += 1;
        }
        false
    }

    fn chord_completes(&self, c: usize, p: Pos) -> (r: bool)
        requires
            c < self.table().len(),
        ensures
            r == completes(self.table()[c as int], self@.pending, p),
    {
        let chord = &self.chorder.chords[c];
        if !contains_pos(&chord.triggers, p) {
            return false;
        }
        let mut k: usize = 0;
        while k < chord.triggers.len()
            invariant
                k <= chord.triggers@.len(),
                chord@ == self.table()[c as int],
                triggers_down(chord.triggers@, self@.pending, p, k as nat),
            decreases chord.triggers@.len() - k,
        {
            let t = chord.triggers[k];
            let is_p = t.0 == p.0 && t.1 == p.1;
            if !is_p && !self.has_pending(t) {
                proof {
                    lemma_triggers_down_prefix(
                        chord.triggers@,
                        self@.pending,
                        p,
                        (k + 1) as nat,
                        chord.triggers@.len(),
                    );
                }
                return false;
            }
            k += 1;
        }
        true
    }

    fn find_complete(&self, p: Pos) -> (r: Option<usize>)
        ensures
            match r {
                Some(c) => first_complete(self.table(), self@.pending, p, 0) == Some(c as int)
                    && c < self.table().len(),
                None => first_complete(self.table(), self@.pending, p, 0) is None,
            },
    {
        let mut k: usize = 0;
        while k < self.chorder.chords.len()
            invariant
                k <= self.chorder.chords@.len(),
                self.table().len() == self.chorder.chords@.len(),
                first_complete(self.table(), self@.pending, p, 0) == first_complete(
                    self.table(),
                    self@.pending,
                    p,
                    k as nat,
                ),
            decreases self.chorder.chords@.len() - k,
        {
            if self.chord_completes(k, p) {
                return Some(k);
            }
            k += 1;
        }
        None
    }

    fn flush_pending(&mut self, out: &mut Vec<KeyEvent>)
        requires
            old(out)@.len() == 0,
        ensures
            final(self).table() == old(self).table(),
            final(self).window() == old(self).window(),
            final(self)@ == (EngineState { pending: Seq::empty(), held: old(self)@.held }),
            final(out)@ == pending_presses(old(self)@.pending, old(self)@.pending.len()),
    {
        let ghost pend = self.pending@;
        let mut k: usize = 0;
        while k < self.pending.len()
            invariant
                k <= self.pending@.len(),
                self.pending@ == pend,
                self.held@ == old(self).held@,
                self.chorder == old(self).chorder,
                out@ == pending_presses(pend, k as nat),
            decreases self.pending@.len() - k,
        {
            let q = self.pending[k].pos;
            out.push(KeyEvent::Press(q.0, q.1));
            k += 1;
        }
        self.pending.clear();
    }

    /// Takes one raw key event and returns the events to pass on, in order.
    pub fn process(&mut self, event: KeyEvent) -> (events: Vec<KeyEvent>)
        ensures
            final(self).table() == old(self).table(),
            final(self).window() == old(self).window(),
            final(self)@ == process_step(old(self).table(), old(self)@, event).state,
            events@ == process_step(old(self).table(), old(self)@, event).events,
    {
        match event {
            KeyEvent::Press(i, j) => self.press((i, j)),
            KeyEvent::Release(i, j) => self.release((i, j)),
        }
    }

    fn press(&mut self, p: Pos) -> (events: Vec<KeyEvent>)
        ensures
            final(self).table() == old(self).table(),
            final(self).window() == old(self).window(),
            final(self)@ == press_step(old(self).table(), old(self)@, p).state,
            events@ == press_step(old(self).table(), old(self)@, p).events,
    {
        let mut events: Vec<KeyEvent> = Vec::new();
        match self.find_complete(p) {
            Some(c) => {
                let ghost triggers = self.table()[c as int].triggers;
                let ghost outputs = self.table()[c as int].outputs;
                let ghost pend = self.pending@;
                let ghost held0 = self.held@;
                let mut kept: Vec<PendingKey> = Vec::new();
                let mut k: usize = 0;
                while k < self.pending.len()
                    invariant
                        k <= self.pending@.len(),
                        c < self.chorder.chords@.len(),
                        self.pending@ == pend,
                        self.chorder.chords@[c as int].triggers@ == triggers,
                        kept@ == pending_without(pend, triggers, k as nat),
                        self.chorder == old(self).chorder,
                        self.held@ == held0,
                    decreases self.pending@.len() - k,
                {
                    let e = self.pending[k];
                    if !contains_pos(&self.chorder.chords[c].triggers, e.pos) {
                        kept.push(e);
                    }
                    k += 1;
                }
                self.pending = kept;
                let mut t: usize = 0;
                while t < self.chorder.chords[c].triggers.len()
                    invariant
                        c < self.chorder.chords@.len(),
                        t <= triggers.len(),
                        self.chorder.chords@[c as int].triggers@ == triggers,
                        self.held@ == held_with(held0, triggers, c, t as nat),
                        self.chorder == old(self).chorder,
                        self.pending@ == pending_without(pend, triggers, pend.len()),
                    decreases triggers.len() - t,
                {
                    let pos = self.chorder.chords[c].triggers[t];
                    self.held.push(HeldKey { pos, chord: c });
                    t += 1;
                }
                let mut o: usize = 0;
                while o < self.chorder.chords[c].outputs.len()
                    invariant
                        c < self.chorder.chords@.len(),
                        o <= outputs.len(),
                        self.chorder.chords@[c as int].outputs@ == outputs,
                        events@ == presses(outputs, o as nat),
                        self.chorder == old(self).chorder,
                        self.pending@ == pending_without(pend, triggers, pend.len()),
                        self.held@ == held_with(held0, triggers, c, triggers.len()),
                    decreases outputs.len() - o,
                {
                    let pos = self.chorder.chords[c].outputs[o];
                    events.push(KeyEvent::Press(pos.0, pos.1));
                    o += 1;
                }
            },
            None => {
                if self.has_trigger(p) {
                    self.pending.push(PendingKey { pos: p, age: 0 });
                } else {
                    self.flush_pending(&mut events);
                    events.push(KeyEvent::Press(p.0, p.1));
                }
            },
        }
        events
    }

    fn find_held(&self, p: Pos) -> (r: Option<usize>)
        ensures
            r == held_index(self@.held, p, self@.held.len()),
            r is Some ==> r->0 < self@.held.len(),
    {
        let mut k: usize = self.held.len();
        while k > 0
            invariant
                k <= self.held@.len(),
                held_index(self.held@, p, self.held@.len()) == held_index(self.held@, p, k as nat),
            decreases k,
        {
            if self.held[k - 1].pos.0 == p.0 && self.held[k - 1].pos.1 == p.1 {
                return Some(k - 1);
            }
            k -= 1;
        }
        None
    }

    fn count_held(&self, chord: usize) -> (r: usize)
        ensures
            r == held_count(self@.held, chord, self@.held.len()),
    {
        let mut n: usize = 0;
        let mut k: usize = 0;
        while k < self.held.len()
            invariant
                k <= self.held@.len(),
                n <= k,
                n == held_count(self.held@, chord, k as nat),
            decreases self.held@.len() - k,
        {
            if self.held[k].chord == chord {
                n += 1;
            }
            k += 1;
        }
        n
    }

    fn release(&mut self, p: Pos) -> (events: Vec<KeyEvent>)
        ensures
            final(self).table() == old(self).table(),
            final(self).window() == old(self).window(),
            final(self)@ == release_step(old(self).table(), old(self)@, p).state,
            events@ == release_step(old(self).table(), old(self)@, p).events,
    {
        let mut events: Vec<KeyEvent> = Vec::new();
        if self.has_pending(p) {
            self.flush_pending(&mut events);
            events.push(KeyEvent::Release(p.0, p.1));
            return events;
        }
        match self.find_held(p) {
            Some(k) => {
                let c: usize = self.held[k].chord;
                if c < self.chorder.chords.len() && self.count_held(c)
                    == self.chorder.chords[c].triggers.len() {
                    let ghost outputs = self.table()[c as int].outputs;
                    let mut o: usize = 0;
                    while o < self.chorder.chords[c].outputs.len()
                        invariant
                            c < self.chorder.chords@.len(),
                            o <= outputs.len(),
                            self.chorder.chords@[c as int].outputs@ == outputs,
                            events@ == releases(outputs, o as nat),
                            self.chorder == old(self).chorder,
                            self.pending@ == old(self).pending@,
                            self.held@ == old(self).held@,
                        decreases outputs.len() - o,
                    {
                        let pos = self.chorder.chords[c].outputs[o];
                        events.push(KeyEvent::Release(pos.0, pos.1));
                        o += 1;
                    }
                }
                self.held.remove(k);
            },
            None => {
                events.push(KeyEvent::Release(p.0, p.1));
            },
        }
        events
    }

    /// Advances the time by one tick. Returns the coordinates of the
    /// presses whose window ran out, oldest first: each is to be passed on
    /// as a press.
    pub fn tick(&mut self) -> (keys: Vec<Pos>)
        ensures
            final(self).table() == old(self).table(),
            final(self).window() == old(self).window(),
            final(self)@ == tick_state(old(self)@, old(self).window()),
            keys@ == timed_out(old(self)@.pending, old(self).window(), old(self)@.pending.len()),
    {
        let ghost pend = self.pending@;
        let window: u16 = self.chorder.window;
        let mut keys: Vec<Pos> = Vec::new();
        let mut kept: Vec<PendingKey> = Vec::new();
        let mut k: usize = 0;
        while k < self.pending.len()
            invariant
                k <= self.pending@.len(),
                self.pending@ == pend,
                kept@ == still_waiting(pend, window, k as nat),
                self.chorder == old(self).chorder,
                self.held@ == old(self).held@,
                keys@ == timed_out(pend, window, k as nat),
            decreases self.pending@.len() - k,
        {
            let e = self.pending[k];
            let age: u16 = if e.age == u16::MAX {
                e.age
            } else {
                e.age + 1
            };
            if age >= window {
                keys.push(e.pos);
            } else {
                kept.push(PendingKey { pos: e.pos, age });
            }
            k += 1;
        }
        self.pending = kept;
        keys
    }
}

/// A trigger among the first `n` chords is one among the first `m >= n`.
pub proof fn lemma_is_trigger_mono(table: Seq<ChordSpec>, p: Pos, n: nat, m: nat)
    requires
        n <= m,
        is_trigger(table, p, n),
    ensures
        is_trigger(table, p, m),
    decreases m,
{
    if n < m {
        lemma_is_trigger_mono(table, p, n, (m - 1) as nat);
    }
}

/// A press among the first `n` waiting ones is one among the first `m >= n`.
pub proof fn lemma_is_pending_mono(pending: Seq<PendingKey>, p: Pos, n: nat, m: nat)
    requires
        n <= m,
        is_pending(pending, p, n),
    ensures
        is_pending(pending, p, m),
    decreases m,
{
    if n < m {
        lemma_is_pending_mono(pending, p, n, (m - 1) as nat);
    }
}

/// Where the first `n` triggers are not all down, neither are the first
/// `m >= n`.
pub proof fn lemma_triggers_down_prefix(
    triggers: Seq<Pos>,
    pending: Seq<PendingKey>,
    p: Pos,
    n: nat,
    m: nat,
)
    requires
        n <= m,
        !triggers_down(triggers, pending, p, n),
    ensures
        !triggers_down(triggers, pending, p, m),
    decreases m,
{
    if n < m {
        lemma_triggers_down_prefix(triggers, pending, p, n, (m - 1) as nat);
    }
}

/// Where the first `n` triggers are all down, each of them is the key
/// that goes down or is waiting.
pub proof fn lemma_triggers_down_each(
    triggers: Seq<Pos>,
    pending: Seq<PendingKey>,
    p: Pos,
    n: nat,
    k: int,
)
    requires
        0 <= k < n,
        triggers_down(triggers, pending, p, n),
    ensures
        triggers[k] == p || is_pending(pending, triggers[k], pending.len()),
    decreases n,
{
    if k < n - 1 {
        lemma_triggers_down_each(triggers, pending, p, (n - 1) as nat, k);
    }
}

/// Where no chord from `from` up to `i` is completed and chord `i` is, the
/// chord that fires is `i`.
pub proof fn lemma_first_complete_is(
    table: Seq<ChordSpec>,
    pending: Seq<PendingKey>,
    p: Pos,
    from: nat,
    i: int,
)
    requires
        from <= i < table.len(),
        completes(table[i], pending, p),
        forall|j: int| from <= j < i ==> !completes(#[trigger] table[j], pending, p),
    ensures
        first_complete(table, pending, p, from) == Some(i),
    decreases i - from,
{
    if from < i {
        lemma_first_complete_is(table, pending, p, from + 1, i);
    }
}

/// Where no chord from `from` on is completed, none fires.
pub proof fn lemma_first_complete_none(
    table: Seq<ChordSpec>,
    pending: Seq<PendingKey>,
    p: Pos,
    from: nat,
)
    requires
        forall|j: int| from <= j < table.len() ==> !completes(#[trigger] table[j], pending, p),
    ensures
        first_complete(table, pending, p, from) is None,
    decreases table.len() - from,
{
    if from < table.len() {
        lemma_first_complete_none(table, pending, p, from + 1);
    }
}

/// A chord table is sound when every chord has at least two triggers, all
/// different.
pub open spec fn table_wf(table: Seq<ChordSpec>) -> bool {
    forall|j: int|
        0 <= j < table.len() ==> (#[trigger] table[j]).triggers.len() >= 2
            && table[j].triggers.no_duplicates()
}

/// A first trigger waits. With nothing waiting, the press of a trigger key
/// of a sound table passes nothing on and leaves that key waiting with age
/// zero.
pub proof fn lemma_first_trigger_waits(table: Seq<ChordSpec>, s: EngineState, a: Pos)
    requires
        table_wf(table),
        s.pending.len() == 0,
        is_trigger(table, a, table.len()),
    ensures
        press_step(table, s, a).events == Seq::<KeyEvent>::empty(),
        press_step(table, s, a).state.pending == seq![PendingKey { pos: a, age: 0 }],
        press_step(table, s, a).state.held == s.held,
{
    assert forall|j: int| 0 <= j < table.len() implies !completes(
        #[trigger] table[j],
        s.pending,
        a,
    ) by {
        let t = table[j].triggers;
        if triggers_down(t, s.pending, a, t.len()) {
            lemma_triggers_down_each(t, s.pending, a, t.len(), 0);
            lemma_triggers_down_each(t, s.pending, a, t.len(), 1);
            assert(t[0] != t[1]);
        }
    }
    lemma_first_complete_none(table, s.pending, a, 0);
    assert(s.pending.push(PendingKey { pos: a, age: 0 }) =~= seq![PendingKey { pos: a, age: 0 }]);
}

/// Both triggers within the window give the chord and nothing else. With
/// nothing waiting, pressing `a` and then `b`, the two triggers of chord
/// `i`, passes on exactly the presses of that chord's outputs, provided no
/// earlier chord of the table is made of `a` and `b` alone. Neither trigger
/// press is passed on, and nothing is left waiting.
pub proof fn lemma_chord_fires(table: Seq<ChordSpec>, s: EngineState, i: int, a: Pos, b: Pos)
    requires
        table_wf(table),
        s.pending.len() == 0,
        0 <= i < table.len(),
        table[i].triggers == seq![a, b],
        forall|j: int|
            0 <= j < i ==> exists|k: int|
                0 <= k < (#[trigger] table[j]).triggers.len() && table[j].triggers[k] != a
                    && table[j].triggers[k] != b,
    ensures
        ({
            let first = press_step(table, s, a);
            let second = press_step(table, first.state, b);
            &&& first.events == Seq::<KeyEvent>::empty()
            &&& second.events == presses(table[i].outputs, table[i].outputs.len())
            &&& second.state.pending == Seq::<PendingKey>::empty()
        }),
{
    let t = table[i].triggers;
    assert(t[0] == a && t[1] == b);
    assert(t.contains(a));
    assert(t.contains(b));
    lemma_is_trigger_mono(table, a, (i + 1) as nat, table.len());
    lemma_first_trigger_waits(table, s, a);
    let first = press_step(table, s, a);
    let pend = first.state.pending;
    assert(pend.len() == 1 && pend[0].pos == a);
    assert(is_pending(pend, a, 1));
    assert(!is_pending(pend, b, 0));
    assert(triggers_down(t, pend, b, 0));
    assert(triggers_down(t, pend, b, 1));
    assert(triggers_down(t, pend, b, 2));
    assert forall|j: int| 0 <= j < i implies !completes(#[trigger] table[j], pend, b) by {
        let tj = table[j].triggers;
        let k = choose|k: int| 0 <= k < tj.len() && tj[k] != a && tj[k] != b;
        if triggers_down(tj, pend, b, tj.len()) {
            lemma_triggers_down_each(tj, pend, b, tj.len(), k);
            assert(!is_pending(pend, tj[k], 0));
            assert(!is_pending(pend, tj[k], 1));
        }
    }
    lemma_first_complete_is(table, pend, b, 0, i);
    assert(pending_without(pend, t, 0) =~= Seq::<PendingKey>::empty());
    assert(pending_without(pend, t, 1) =~= Seq::<PendingKey>::empty());
}

/// A lone trigger is passed on when its window runs out. A key that alone
/// waits with age zero stays waiting, silently, for `window - 1` ticks; the
/// tick after that passes on exactly that key and leaves nothing waiting.
pub proof fn lemma_lone_trigger_times_out(s: EngineState, a: Pos, window: u16, n: nat)
    requires
        s.pending == seq![PendingKey { pos: a, age: 0 }],
        window >= 1,
        n < window,
    ensures
        tick_n(s, window, n).pending == seq![PendingKey { pos: a, age: n as u16 }],
        tick_n(s, window, n).held == s.held,
        n + 1 < window ==> timed_out(tick_n(s, window, n).pending, window, 1)
            == Seq::<Pos>::empty(),
        n + 1 == window ==> timed_out(tick_n(s, window, n).pending, window, 1) == seq![a]
            && tick_state(tick_n(s, window, n), window).pending == Seq::<PendingKey>::empty(),
    decreases n,
{
    if n > 0 {
        lemma_lone_trigger_times_out(s, a, window, (n - 1) as nat);
        let before = tick_n(s, window, (n - 1) as nat).pending;
        assert(still_waiting(before, window, 0) =~= Seq::<PendingKey>::empty());
        assert(still_waiting(before, window, 1) =~= seq![PendingKey { pos: a, age: n as u16 }]);
    }
    let now = tick_n(s, window, n).pending;
    assert(now.len() == 1);
    assert(timed_out(now, window, 0) =~= Seq::<Pos>::empty());
    if n + 1 < window {
        assert(timed_out(now, window, 1) =~= Seq::<Pos>::empty());
    } else {
        assert(timed_out(now, window, 1) =~= seq![a]);
        assert(still_waiting(now, window, 0) =~= Seq::<PendingKey>::empty());
        assert(still_waiting(now, window, 1) =~= Seq::<PendingKey>::empty());
    }
}

/// A trigger let go while it waits falls back to what was typed: the
/// waiting presses are passed on in order, then the release.
pub proof fn lemma_early_release_passes_through(table: Seq<ChordSpec>, s: EngineState, a: Pos)
    requires
        s.pending == seq![PendingKey { pos: a, age: s.pending[0].age }],
    ensures
        release_step(table, s, a).events == seq![
            KeyEvent::Press(a.0, a.1),
            KeyEvent::Release(a.0, a.1),
        ],
        release_step(table, s, a).state.pending == Seq::<PendingKey>::empty(),
{
    assert(is_pending(s.pending, a, 1));
    assert(pending_presses(s.pending, 0) =~= Seq::<KeyEvent>::empty());
    assert(pending_presses(s.pending, 1) =~= seq![KeyEvent::Press(a.0, a.1)]);
    assert(pending_presses(s.pending, 1).push(KeyEvent::Release(a.0, a.1)) =~= seq![
        KeyEvent::Press(a.0, a.1),
        KeyEvent::Release(a.0, a.1),
    ]);
}

/// A chord of two triggers and one output, as plain values.
pub open spec fn pair_spec(a: Pos, b: Pos, output: Pos) -> ChordSpec {
    ChordSpec { triggers: seq![a, b], outputs: seq![output] }
}

/// The chords of this keyboard: pairs of neighbouring keys that stand for
/// the keys of an extra keymap row.
pub open spec fn chord_table() -> Seq<ChordSpec> {
    seq![
        pair_spec((3, 8), (3, 9), (8, 7)),
        pair_spec((4, 6), (4, 7), (8, 8)),
        pair_spec((2, 6), (2, 7), (8, 1)),
        pair_spec((3, 6), (3, 7), (8, 5)),
        pair_spec((4, 7), (4, 8), (8, 9)),
        pair_spec((2, 1), (2, 2), (8, 0)),
        pair_spec((2, 7), (2, 8), (8, 2)),
        pair_spec((2, 9), (2, 10), (8, 4)),
        pair_spec((3, 7), (3, 8), (8, 6)),
        pair_spec((4, 8), (4, 9), (8, 10)),
        pair_spec((2, 8), (2, 9), (8, 3)),
    ]
}

/// The chord table of this keyboard with the usual window.
pub fn chorder() -> (r: Chorder)
    ensures
        r.window == CHORD_WINDOW,
        r.table() == chord_table(),
        table_wf(r.table()),
{
    let mut chords: Vec<Chord> = Vec::new();
    chords.push(pair((3, 8), (3, 9), (8, 7)));
    chords.push(pair((4, 6), (4, 7), (8, 8)));
    chords.push(pair((2, 6), (2, 7), (8, 1)));
    chords.push(pair((3, 6), (3, 7), (8, 5)));
    chords.push(pair((4, 7), (4, 8), (8, 9)));
    chords.push(pair((2, 1), (2, 2), (8, 0)));
    chords.push(pair((2, 7), (2, 8), (8, 2)));
    chords.push(pair((2, 9), (2, 10), (8, 4)));
    chords.push(pair((3, 7), (3, 8), (8, 6)));
    chords.push(pair((4, 8), (4, 9), (8, 10)));
    chords.push(pair((2, 8), (2, 9), (8, 3)));
    let r = Chorder { chords, window: CHORD_WINDOW };
    assert(r.table() =~= chord_table());
    r
}

/// A chord of two triggers and one output.
pub fn pair(a: Pos, b: Pos, output: Pos) -> (r: Chord)
    ensures
        r@ == pair_spec(a, b, output),
{
    let mut triggers: Vec<Pos> = Vec::new();
    triggers.push(a);
    triggers.push(b);
    let mut outputs: Vec<Pos> = Vec::new();
    outputs.push(output);
    let r = Chord { triggers, outputs };
    assert(r@.triggers =~= seq![a, b]);
    assert(r@.outputs =~= seq![output]);
    r
}

} // verus!
