//! The layered layout and the set of key codes it asserts.
//!
//! The layout engine itself is keyberon's. This module admits only keymaps
//! that the engine can run without failing, feeds it key events and ticks,
//! reads the key codes it holds down, keeps them as a small set and says
//! when a new report is due.

use vstd::prelude::*;
use keyberon::action::Action;
use keyberon::key_code::KeyCode;
use keyberon::layout::Event;
use keyberon::layout::Layout;
use crate::keys::CustomEvent;
use crate::keys::KeyEvent;

verus! {

/// Key codes one report holds at most.
pub const MAX_KEYCODES: usize = 24;

/// The highest layer number a layer key may name. The engine adds up the
/// numbers of all layer keys that are down, at most 64 of them.
pub const MAX_LAYER: usize = 255;

#[verifier::external_type_specification]
#[verifier::external_body]
pub struct ExKeyCode(KeyCode);

#[verifier::external_type_specification]
pub struct ExAction(Action);

#[verifier::external_type_specification]
#[verifier::external_body]
pub struct ExLayout(Layout);

/// Whether an action neither waits nor holds other actions: no action, a
/// transparent key, key codes, a default layer, or a layer key whose number
/// is within [`MAX_LAYER`].
pub open spec fn plain(a: Action) -> bool {
    match a {
        Action::NoOp => true,
        Action::Trans => true,
        Action::KeyCode(_) => true,
        Action::MultipleKeyCodes(_) => true,
        Action::Layer(n) => n <= MAX_LAYER,
        Action::DefaultLayer(_) => true,
        _ => false,
    }
}

/// Whether all of the actions are plain.
pub open spec fn all_plain(actions: Seq<Action>) -> bool {
    forall|i: int| 0 <= i < actions.len() ==> plain(#[trigger] actions[i])
}

/// Whether an action is plain or a group of plain actions.
pub open spec fn group(a: Action) -> bool {
    plain(a) || match a {
        Action::MultipleActions(actions) => all_plain(actions@),
        _ => false,
    }
}

/// Whether a key can carry the action: a group, or a hold-tap whose two
/// sides are groups. A hold-tap inside a group or inside another hold-tap
/// would make the engine start a second wait while one is running, which it
/// refuses by stopping the program.
pub open spec fn key_ok(a: Action) -> bool {
    group(a) || match a {
        Action::HoldTap { timeout, hold, tap } => group(*hold) && group(*tap),
        _ => false,
    }
}

/// Whether every key of a row can carry its action.
pub open spec fn row_ok(row: Seq<Action>) -> bool {
    forall|c: int| 0 <= c < row.len() ==> key_ok(#[trigger] row[c])
}

/// Whether every key of a layer can carry its action.
pub open spec fn layer_ok(layer: Seq<&'static [Action]>) -> bool {
    forall|r: int| 0 <= r < layer.len() ==> row_ok((#[trigger] layer[r])@)
}

/// Whether the engine can run the keymap: every key of every layer can
/// carry its action.
pub open spec fn keymap_ok(layers: Seq<&'static [&'static [Action]]>) -> bool {
    forall|l: int| 0 <= l < layers.len() ==> layer_ok((#[trigger] layers[l])@)
}

/// Whether the keymap that a layout was built on passes [`keymap_ok`].
pub uninterp spec fn layout_sound(layout: Layout) -> bool;

/// The key codes that a layout holds down, in its own order, as HID usage
/// numbers.
pub uninterp spec fn layout_keycodes(layout: Layout) -> Seq<u8>;

/// The key codes that a layout holds down once it has taken the press
/// (`press`) or the release of the key at `(i, j)`.
pub uninterp spec fn layout_keycodes_after_event(layout: Layout, press: bool, i: u8, j: u8) -> Seq<u8>;

/// The key codes that a layout holds down once one more tick has passed.
pub uninterp spec fn layout_keycodes_after_tick(layout: Layout) -> Seq<u8>;

/// `Layout::new`: a layout on the given keymap. The keymap has to pass
/// [`keymap_ok`]; on other keymaps the engine can stop the program later.
#[verifier::external_body]
fn layout_new(layers: &'static [&'static [&'static [Action]]]) -> (layout: Layout)
    requires
        keymap_ok(layers@),
    ensures
        layout_sound(layout),
{
    Layout::new(layers)
}

/// `Layout::event`: hands one key event to a layout on a sound keymap. The
/// keymap stays the same; the key codes held afterwards are those the
/// engine computes from its state and the event.
#[verifier::external_body]
fn layout_event(layout: &mut Layout, press: bool, i: u8, j: u8)
    requires
        layout_sound(*old(layout)),
    ensures
        layout_sound(*final(layout)),
        layout_keycodes(*final(layout)) == layout_keycodes_after_event(*old(layout), press, i, j),
{
    let event = if press {
        Event::Press(i, j)
    } else {
        Event::Release(i, j)
    };
    let _ = layout.event(event);
}

/// `Layout::tick`: lets one tick pass in a layout on a sound keymap. The
/// keymap stays the same; the key codes held afterwards are those the
/// engine computes from its state.
#[verifier::external_body]
fn layout_tick(layout: &mut Layout)
    requires
        layout_sound(*old(layout)),
    ensures
        layout_sound(*final(layout)),
        layout_keycodes(*final(layout)) == layout_keycodes_after_tick(*old(layout)),
{
    let _ = layout.tick();
}

/// `Layout::keycodes`: the key codes the layout holds down, each as its
/// usage number.
#[verifier::external_body]
fn layout_codes(layout: &Layout) -> (codes: Vec<u8>)
    ensures
        codes@ == layout_keycodes(*layout),
{
    layout.keycodes().map(|k| k as u8).collect()
}

/// Whether an action is plain.
pub fn is_plain(a: &Action) -> (r: bool)
    ensures
        r == plain(*a),
{
    match a {
        Action::NoOp => true,
        Action::Trans => true,
        Action::KeyCode(_) => true,
        Action::MultipleKeyCodes(_) => true,
        Action::Layer(n) => *n <= MAX_LAYER,
        Action::DefaultLayer(_) => true,
        _ => false,
    }
}

/// Whether an action is plain or a group of plain actions.
pub fn is_group(a: &Action) -> (r: bool)
    ensures
        r == group(*a),
{
    if is_plain(a) {
        return true;
    }
    match a {
        Action::MultipleActions(actions) => {
            let mut i: usize = 0;
            while i < actions.len()
                invariant
                    i <= actions@.len(),
                    *a == Action::MultipleActions(*actions),
                    !plain(*a),
                    forall|k: int| 0 <= k < i ==> plain(#[trigger] actions@[k]),
                decreases actions@.len() - i,
            {
                if !is_plain(&actions[i]) {
                    return false;
                }
                i += 1;
            }
            true
        },
        _ => false,
    }
}

/// Whether a key can carry the action.
pub fn is_key_ok(a: &Action) -> (r: bool)
    ensures
        r == key_ok(*a),
{
    if is_group(a) {
        return true;
    }
    match a {
        Action::HoldTap { timeout, hold, tap } => is_group(*hold) && is_group(*tap),
        _ => false,
    }
}

/// Whether the engine can run the keymap.
pub fn check_keymap(layers: &'static [&'static [&'static [Action]]]) -> (r: bool)
    ensures
        r == keymap_ok(layers@),
{
    let mut l: usize = 0;
    while l < layers.len()
        invariant
            l <= layers@.len(),
            forall|k: int| 0 <= k < l ==> layer_ok((#[trigger] layers@[k])@),
        decreases layers@.len() - l,
    {
        let layer = layers[l];
        let mut r: usize = 0;
        while r < layer.len()
            invariant
                r <= layer@.len(),
                l < layers@.len(),
                layer == layers@[l as int],
                forall|k: int| 0 <= k < r ==> row_ok((#[trigger] layer@[k])@),
            decreases layer@.len() - r,
        {
            let row = layer[r];
            let mut c: usize = 0;
            while c < row.len()
                invariant
                    c <= row@.len(),
                    l < layers@.len(),
                    r < layer@.len(),
                    layer == layers@[l as int],
                    row == layer@[r as int],
                    forall|k: int| 0 <= k < c ==> key_ok(#[trigger] row@[k]),
                decreases row@.len() - c,
            {
                if !is_key_ok(&row[c]) {
                    assert(!row_ok(row@));
                    assert(!layer_ok(layer@));
                    return false;
                }
                c += 1;
            }
            r += 1;
        }
        l += 1;
    }
    true
}

/// The asserted set of the first `n` codes: each code once, in the order of
/// its first appearance, and no more than the report holds. What does not
/// fit is dropped.
pub open spec fn asserted_set(codes: Seq<u8>, n: nat) -> Seq<u8>
    decreases n,
{
    if n == 0 {
        Seq::empty()
    } else {
        let before = asserted_set(codes, (n - 1) as nat);
        if before.contains(codes[n - 1]) || before.len() >= MAX_KEYCODES {
            before
        } else {
            before.push(codes[n - 1])
        }
    }
}

/// The asserted set of all of `codes`.
pub open spec fn asserted(codes: Seq<u8>) -> Seq<u8> {
    asserted_set(codes, codes.len())
}

/// The report that is due when the asserted set goes from `prev` to `next`:
/// the new set when it differs, nothing when it does not.
pub open spec fn report_due(prev: Seq<u8>, next: Seq<u8>) -> Option<Seq<u8>> {
    if prev == next {
        None
    } else {
        Some(next)
    }
}

/// Whether `v` holds `code`.
fn holds(v: &Vec<u8>, code: u8) -> (r: bool)
    ensures
        r == v@.contains(code),
{
    let mut k: usize = 0;
    while k < v.len()
        invariant
            k <= v@.len(),
            forall|m: int| 0 <= m < k ==> v@[m] != code,
        decreases v@.len() - k,
    {
        if v[k] == code {
            return true;
        }
        k += 1;
    }
    false
}

/// Whether two lists of codes are the same.
fn same_codes(a: &Vec<u8>, b: &Vec<u8>) -> (r: bool)
    ensures
        r == (a@ == b@),
{
    if a.len() != b.len() {
        return false;
    }
    let mut k: usize = 0;
    while k < a.len()
        invariant
            k <= a@.len(),
            a@.len() == b@.len(),
            forall|m: int| 0 <= m < k ==> a@[m] == b@[m],
        decreases a@.len() - k,
    {
        if a[k] != b[k] {
            return false;
        }
        k += 1;
    }
    assert(a@ =~= b@);
    true
}

/// Reduces the codes a layout holds down to the asserted set.
pub fn collect_keycodes(codes: &Vec<u8>) -> (set: Vec<u8>)
    ensures
        set@ == asserted(codes@),
        set@.len() <= MAX_KEYCODES,
        set@.no_duplicates(),
        forall|k: int| 0 <= k < set@.len() ==> codes@.contains(#[trigger] set@[k]),
{
    let mut set: Vec<u8> = Vec::new();
    let mut k: usize = 0;
    while k < codes.len()
        invariant
            k <= codes@.len(),
            set@ == asserted_set(codes@, k as nat),
            set@.len() <= MAX_KEYCODES,
            set@.no_duplicates(),
            forall|m: int| 0 <= m < set@.len() ==> codes@.contains(#[trigger] set@[m]),
        decreases codes@.len() - k,
    {
        let code: u8 = codes[k];
        if !holds(&set, code) && set.len() < MAX_KEYCODES {
            set.push(code);
        }
        k += 1;
    }
    set
}

/// Compares the asserted set before and after a step and returns the report
/// to send, if one is due. `state` becomes the new asserted set.
pub fn update_report(state: &mut Vec<u8>, codes: &Vec<u8>) -> (report: Option<Vec<u8>>)
    ensures
        final(state)@ == asserted(codes@),
        match report {
            Some(r) => report_due(old(state)@, asserted(codes@)) == Some(r@),
            None => report_due(old(state)@, asserted(codes@)) is None,
        },
{
    let next = collect_keycodes(codes);
    if same_codes(state, &next) {
        None
    } else {
        let report = next.clone();
        *state = next;
        Some(report)
    }
}

/// What drives the key processor: a key event from either half, or the
/// millisecond tick.
#[derive(Clone, Copy, Debug)]
pub enum PipelineInput {
    Key(KeyEvent),
    Tick,
}

/// The key processor of the leading half: the layout and the asserted set
/// of the last report.
pub struct KeyProcessor {
    layout: Layout,
    state: Vec<u8>,
}

impl KeyProcessor {
    /// The layout runs on a keymap that the engine can run.
    pub closed spec fn wf(&self) -> bool {
        layout_sound(self.layout)
    }

    /// The asserted set of the last report.
    pub closed spec fn reported(&self) -> Seq<u8> {
        self.state@
    }

    /// The key codes the layout holds down.
    pub closed spec fn held_codes(&self) -> Seq<u8> {
        layout_keycodes(self.layout)
    }

    /// The key codes the layout holds down once it has taken `input`.
    pub closed spec fn held_after(&self, input: PipelineInput) -> Seq<u8> {
        match input {
            PipelineInput::Key(KeyEvent::Press(i, j)) => layout_keycodes_after_event(
                self.layout,
                true,
                i,
                j,
            ),
            PipelineInput::Key(KeyEvent::Release(i, j)) => layout_keycodes_after_event(
                self.layout,
                false,
                i,
                j,
            ),
            PipelineInput::Tick => layout_keycodes_after_tick(self.layout),
        }
    }

    /// A processor with a fresh layout on the keymap `layers` that has
    /// reported nothing yet. A keymap that the engine cannot run is
    /// refused.
    pub fn new(layers: &'static [&'static [&'static [Action]]]) -> (r: Option<Self>)
        ensures
            r is Some <==> keymap_ok(layers@),
            r is Some ==> r->0.wf() && r->0.reported() == Seq::<u8>::empty(),
    {
        if check_keymap(layers) {
            Some(KeyProcessor { layout: layout_new(layers), state: Vec::new() })
        } else {
            None
        }
    }

    /// The asserted set of the last report.
    pub fn keycodes(&self) -> (r: Vec<u8>)
        ensures
            r@ == self.reported(),
    {
        self.state.clone()
    }

    /// Takes one input through the layout. A key event is handed to the
    /// layout; a tick advances it. Then the asserted set is read from what
    /// the layout holds down, and one report comes back if the set differs
    /// from the last one reported.
    pub fn step(&mut self, input: PipelineInput) -> (report: Option<Vec<u8>>)
        requires
            old(self).wf(),
        ensures
            final(self).wf(),
            final(self).held_codes() == old(self).held_after(input),
            final(self).reported() == asserted(old(self).held_after(input)),
            match report {
                Some(r) => report_due(old(self).reported(), final(self).reported()) == Some(r@),
                None => report_due(old(self).reported(), final(self).reported()) is None,
            },
    {
        match input {
            PipelineInput::Key(KeyEvent::Press(i, j)) => layout_event(&mut self.layout, true, i, j),
            PipelineInput::Key(KeyEvent::Release(i, j)) => layout_event(
                &mut self.layout,
                false,
                i,
                j,
            ),
            PipelineInput::Tick => layout_tick(&mut self.layout),
        }
        let codes = layout_codes(&self.layout);
        update_report(&mut self.state, &codes)
    }
}

/// The text to type for a custom action of the keymap: on its release, not
/// on its press.
pub fn unicode_to_type(event: CustomEvent, is_press: bool) -> (r: Option<&'static str>)
    ensures
        r == (if is_press {
            None
        } else {
            match event {
                CustomEvent::TypeUnicode(text) => Some(text),
            }
        }),
{
    match event {
        CustomEvent::TypeUnicode(text) => {
            if !is_press {
                Some(text)
            } else {
                None
            }
        },
    }
}

/// The asserted set never holds a code twice and never more codes than a
/// report has room for, whatever the layout holds down.
pub proof fn lemma_asserted_is_bounded_set(codes: Seq<u8>, n: nat)
    requires
        n <= codes.len(),
    ensures
        asserted_set(codes, n).no_duplicates(),
        asserted_set(codes, n).len() <= MAX_KEYCODES,
        asserted_set(codes, n).len() <= n,
        forall|k: int|
            0 <= k < asserted_set(codes, n).len() ==> codes.contains(
                #[trigger] asserted_set(codes, n)[k],
            ),
    decreases n,
{
    if n > 0 {
        lemma_asserted_is_bounded_set(codes, (n - 1) as nat);
    }
}

/// Reports are coalesced: a step that leaves the asserted set as it was
/// sends nothing, and a step that changes it sends exactly the new set.
pub proof fn lemma_report_only_on_change(prev: Seq<u8>, next: Seq<u8>)
    ensures
        report_due(prev, next) is None <==> prev == next,
        report_due(prev, next) is Some ==> report_due(prev, next)->0 == next,
        report_due(next, next) is None,
{
}

} // verus!
