//! Where the lights of each half are, and which light sits under which
//! switch.

use vstd::prelude::*;

verus! {

/// Lights of one half.
pub const NUM_LEDS: u16 = 40;

/// Columns of lights over both halves.
pub const NUM_COLS: usize = 9;

/// Matrix columns that hold a light.
pub const MAX_LED_XPOS: usize = 7;

/// Matrix rows that hold a light.
pub const MAX_LED_YPOS: usize = 6;

/// One light of the strip.
#[derive(Clone, Copy, Debug)]
pub struct Light {
    /// Distance in millimetres from the bottom left light of the left half.
    pub location: (i16, i16),
    /// The matrix position of the switch above the light.
    pub position: (u8, u8),
    /// The place of the light on the strip.
    pub index: u16,
}

/// A light that has no place on the strip yet.
#[derive(Clone, Copy, Debug)]
pub struct UnindexedLight {
    pub location: (i16, i16),
    pub position: (u8, u8),
}

impl UnindexedLight {
    /// The light under the switch at `position`.
    pub fn switch(location: (i16, i16), position: (u8, u8)) -> (r: Self)
        requires
            position.0 < MAX_LED_XPOS,
            position.1 < MAX_LED_YPOS,
        ensures
            r.location == location,
            r.position == position,
    {
        UnindexedLight { location, position }
    }
}

/// The lights of one half in strip order, and for each matrix position,
/// columns first, the place on the strip of the light under it.
pub struct Lights {
    pub lights: Vec<Light>,
    pub inverse_index: Vec<u16>,
}

/// Whether every light sits under a switch of the matrix.
pub open spec fn on_matrix(lights: Seq<UnindexedLight>) -> bool {
    forall|i: int|
        0 <= i < lights.len() ==> (#[trigger] lights[i]).position.0 < MAX_LED_XPOS
            && lights[i].position.1 < MAX_LED_YPOS
}

/// Among the first `n` lights, the place of the last one at matrix slot
/// `slot`; zero if there is none.
pub open spec fn place_at(lights: Seq<UnindexedLight>, slot: int, n: nat) -> int
    decreases n,
{
    if n == 0 {
        0
    } else if lights[n - 1].position.0 * 6 + lights[n - 1].position.1 == slot {
        n - 1
    } else {
        place_at(lights, slot, (n - 1) as nat)
    }
}

/// Gives every light its place on the strip and builds the index from
/// matrix positions back to places.
pub fn index_lights(lights: &Vec<UnindexedLight>) -> (r: Lights)
    requires
        lights@.len() == NUM_LEDS,
        on_matrix(lights@),
    ensures
        r.lights@.len() == NUM_LEDS,
        forall|i: int|
            0 <= i < NUM_LEDS ==> (#[trigger] r.lights@[i]).location == lights@[i].location
                && r.lights@[i].position == lights@[i].position && r.lights@[i].index == i,
        r.inverse_index@.len() == MAX_LED_XPOS * MAX_LED_YPOS,
        forall|slot: int|
            0 <= slot < MAX_LED_XPOS * MAX_LED_YPOS ==> #[trigger] r.inverse_index@[slot]
                == place_at(lights@, slot, NUM_LEDS as nat),
{
    let mut inverse_index: Vec<u16> = Vec::new();
    let mut s: usize = 0;
    while s < MAX_LED_XPOS * MAX_LED_YPOS
        invariant
            s <= MAX_LED_XPOS * MAX_LED_YPOS,
            inverse_index@.len() == s,
            forall|slot: int| 0 <= slot < s ==> #[trigger] inverse_index@[slot] == 0,
        decreases MAX_LED_XPOS * MAX_LED_YPOS - s,
    {
        inverse_index.push(0);
        s += 1;
    }
    let mut out: Vec<Light> = Vec::new();
    let mut i: usize = 0;
    while i < NUM_LEDS as usize
        invariant
            i <= NUM_LEDS,
            lights@.len() == NUM_LEDS,
            on_matrix(lights@),
            out@.len() == i,
            forall|k: int|
                0 <= k < i ==> (#[trigger] out@[k]).location == lights@[k].location
                    && out@[k].position == lights@[k].position && out@[k].index == k,
            inverse_index@.len() == MAX_LED_XPOS * MAX_LED_YPOS,
            forall|slot: int|
                0 <= slot < MAX_LED_XPOS * MAX_LED_YPOS ==> #[trigger] inverse_index@[slot]
                    == place_at(lights@, slot, i as nat),
        decreases NUM_LEDS - i,
    {
        let light = lights[i];
        out.push(Light { location: light.location, position: light.position, index: i as u16 });
        let slot: usize = light.position.0 as usize * 6 + light.position.1 as usize;
        inverse_index[slot] = i as u16;
        i += 1;
    }
    Lights { lights: out, inverse_index }
}

/// Where no two lights share a switch, the index leads from the switch of
/// every light back to that light.
pub proof fn lemma_index_finds_each_light(lights: Seq<UnindexedLight>, n: nat, i: int)
    requires
        0 <= i < n <= lights.len(),
        on_matrix(lights),
        forall|a: int, b: int|
            0 <= a < b < lights.len() ==> (#[trigger] lights[a]).position != (
            #[trigger] lights[b]).position,
    ensures
        place_at(lights, lights[i].position.0 * 6 + lights[i].position.1, n) == i,
    decreases n,
{
    if i < n - 1 {
        let last = lights[n - 1];
        assert(last.position != lights[i].position);
        assert(last.position.0 * 6 + last.position.1 != lights[i].position.0 * 6
            + lights[i].position.1) by {
            if last.position.0 == lights[i].position.0 {
                assert(last.position.1 != lights[i].position.1);
            }
        }
        lemma_index_finds_each_light(lights, (n - 1) as nat, i);
    }
}

/// Millimetres by which the top right switch of the left half is off the
/// origin.
pub const TOP_RIGHT_LED_OFFSET: i16 = 90;

/// Millimetres by which the top left switch of the right half is off the
/// origin.
pub const RIGHT_LED_OFFSET: i16 = 180;

fn add_left(v: &mut Vec<UnindexedLight>, x: i16, y: i16, mx: u8, my: u8)
    requires
        on_matrix(old(v)@),
        mx < MAX_LED_XPOS,
        my < MAX_LED_YPOS,
        0 <= x <= 200,
    ensures
        final(v)@ == old(v)@.push(
            UnindexedLight { location: ((TOP_RIGHT_LED_OFFSET - x) as i16, y), position: (mx, my) },
        ),
        on_matrix(final(v)@),
{
    v.push(UnindexedLight::switch((TOP_RIGHT_LED_OFFSET - x, y), (mx, my)));
}

fn add_right(v: &mut Vec<UnindexedLight>, x: i16, y: i16, mx: u8, my: u8)
    requires
        on_matrix(old(v)@),
        mx < MAX_LED_XPOS,
        my < MAX_LED_YPOS,
        0 <= x <= 200,
    ensures
        final(v)@ == old(v)@.push(
            UnindexedLight { location: ((x + RIGHT_LED_OFFSET) as i16, y), position: (mx, my) },
        ),
        on_matrix(final(v)@),
{
    v.push(UnindexedLight::switch((x + RIGHT_LED_OFFSET, y), (mx, my)));
}

/// The lights of the left half in strip order, before they are indexed.
pub open spec fn left_lights() -> Seq<UnindexedLight> {
    seq![
        UnindexedLight { location: (50i16, 5i16), position: (6, 0) },
        UnindexedLight { location: (70i16, 0i16), position: (6, 1) },
        UnindexedLight { location: (90i16, -5i16), position: (6, 2) },
        UnindexedLight { location: (50i16, -5i16), position: (6, 3) },
        UnindexedLight { location: (70i16, -15i16), position: (6, 4) },
        UnindexedLight { location: (90i16, -25i16), position: (6, 5) },
        UnindexedLight { location: (30i16, 80i16), position: (5, 1) },
        UnindexedLight { location: (30i16, 60i16), position: (5, 2) },
        UnindexedLight { location: (30i16, 40i16), position: (5, 3) },
        UnindexedLight { location: (30i16, 20i16), position: (5, 4) },
        UnindexedLight { location: (10i16, 100i16), position: (4, 0) },
        UnindexedLight { location: (10i16, 80i16), position: (4, 1) },
        UnindexedLight { location: (10i16, 60i16), position: (4, 2) },
        UnindexedLight { location: (10i16, 40i16), position: (4, 3) },
        UnindexedLight { location: (10i16, 20i16), position: (4, 4) },
        UnindexedLight { location: (10i16, 0i16), position: (4, 5) },
        UnindexedLight { location: (-10i16, 100i16), position: (3, 0) },
        UnindexedLight { location: (-10i16, 80i16), position: (3, 1) },
        UnindexedLight { location: (-10i16, 60i16), position: (3, 2) },
        UnindexedLight { location: (-10i16, 40i16), position: (3, 3) },
        UnindexedLight { location: (-10i16, 20i16), position: (3, 4) },
        UnindexedLight { location: (-10i16, 0i16), position: (3, 5) },
        UnindexedLight { location: (-30i16, 100i16), position: (2, 0) },
        UnindexedLight { location: (-30i16, 80i16), position: (2, 1) },
        UnindexedLight { location: (-30i16, 60i16), position: (2, 2) },
        UnindexedLight { location: (-30i16, 40i16), position: (2, 3) },
        UnindexedLight { location: (-30i16, 20i16), position: (2, 4) },
        UnindexedLight { location: (-30i16, 0i16), position: (2, 5) },
        UnindexedLight { location: (-50i16, 100i16), position: (1, 0) },
        UnindexedLight { location: (-50i16, 80i16), position: (1, 1) },
        UnindexedLight { location: (-50i16, 60i16), position: (1, 2) },
        UnindexedLight { location: (-50i16, 40i16), position: (1, 3) },
        UnindexedLight { location: (-50i16, 20i16), position: (1, 4) },
        UnindexedLight { location: (-50i16, 0i16), position: (1, 5) },
        UnindexedLight { location: (-70i16, 100i16), position: (0, 0) },
        UnindexedLight { location: (-70i16, 80i16), position: (0, 1) },
        UnindexedLight { location: (-70i16, 60i16), position: (0, 2) },
        UnindexedLight { location: (-70i16, 40i16), position: (0, 3) },
        UnindexedLight { location: (-70i16, 20i16), position: (0, 4) },
        UnindexedLight { location: (-70i16, 0i16), position: (0, 5) },
    ]
}

/// The lights of the right half in strip order, before they are indexed.
pub open spec fn right_lights() -> Seq<UnindexedLight> {
    seq![
        UnindexedLight { location: (220i16, 5i16), position: (0, 0) },
        UnindexedLight { location: (200i16, 0i16), position: (0, 1) },
        UnindexedLight { location: (180i16, -5i16), position: (0, 2) },
        UnindexedLight { location: (220i16, -5i16), position: (0, 3) },
        UnindexedLight { location: (200i16, -15i16), position: (0, 4) },
        UnindexedLight { location: (180i16, -25i16), position: (0, 5) },
        UnindexedLight { location: (240i16, 80i16), position: (1, 1) },
        UnindexedLight { location: (240i16, 60i16), position: (1, 2) },
        UnindexedLight { location: (240i16, 40i16), position: (1, 3) },
        UnindexedLight { location: (240i16, 20i16), position: (1, 4) },
        UnindexedLight { location: (260i16, 100i16), position: (2, 0) },
        UnindexedLight { location: (260i16, 80i16), position: (2, 1) },
        UnindexedLight { location: (260i16, 60i16), position: (2, 2) },
        UnindexedLight { location: (260i16, 40i16), position: (2, 3) },
        UnindexedLight { location: (260i16, 20i16), position: (2, 4) },
        UnindexedLight { location: (260i16, 0i16), position: (2, 5) },
        UnindexedLight { location: (280i16, 100i16), position: (3, 0) },
        UnindexedLight { location: (280i16, 80i16), position: (3, 1) },
        UnindexedLight { location: (280i16, 60i16), position: (3, 2) },
        UnindexedLight { location: (280i16, 40i16), position: (3, 3) },
        UnindexedLight { location: (280i16, 20i16), position: (3, 4) },
        UnindexedLight { location: (280i16, 0i16), position: (4, 5) },
        UnindexedLight { location: (300i16, 100i16), position: (4, 0) },
        UnindexedLight { location: (300i16, 80i16), position: (4, 1) },
        UnindexedLight { location: (300i16, 60i16), position: (4, 2) },
        UnindexedLight { location: (300i16, 40i16), position: (4, 3) },
        UnindexedLight { location: (300i16, 20i16), position: (4, 4) },
        UnindexedLight { location: (300i16, 0i16), position: (4, 5) },
        UnindexedLight { location: (320i16, 100i16), position: (5, 0) },
        UnindexedLight { location: (320i16, 80i16), position: (5, 1) },
        UnindexedLight { location: (320i16, 60i16), position: (5, 2) },
        UnindexedLight { location: (320i16, 40i16), position: (5, 3) },
        UnindexedLight { location: (320i16, 20i16), position: (5, 4) },
        UnindexedLight { location: (320i16, 0i16), position: (5, 5) },
        UnindexedLight { location: (340i16, 100i16), position: (6, 0) },
        UnindexedLight { location: (340i16, 80i16), position: (6, 1) },
        UnindexedLight { location: (340i16, 60i16), position: (6, 2) },
        UnindexedLight { location: (340i16, 40i16), position: (6, 3) },
        UnindexedLight { location: (340i16, 20i16), position: (6, 4) },
        UnindexedLight { location: (340i16, 0i16), position: (6, 5) },
    ]
}

/// The lights of the left half. They lie as those of the right half do,
/// mirrored and shifted.
pub fn left() -> (r: Lights)
    ensures
        r.lights@.len() == NUM_LEDS,
        forall|i: int|
            0 <= i < NUM_LEDS ==> (#[trigger] r.lights@[i]).location == left_lights()[i].location
                && r.lights@[i].position == left_lights()[i].position && r.lights@[i].index == i,
        r.inverse_index@.len() == MAX_LED_XPOS * MAX_LED_YPOS,
        forall|slot: int|
            0 <= slot < MAX_LED_XPOS * MAX_LED_YPOS ==> #[trigger] r.inverse_index@[slot]
                == place_at(left_lights(), slot, NUM_LEDS as nat),
{
    let mut v: Vec<UnindexedLight> = Vec::new();
    // thumb cluster
    add_left(&mut v, 40, 5, 6, 0);
    add_left(&mut v, 20, 0, 6, 1);
    add_left(&mut v, 0, -5, 6, 2);
    add_left(&mut v, 40, -5, 6, 3);
    add_left(&mut v, 20, -15, 6, 4);
    add_left(&mut v, 0, -25, 6, 5);
    // col 0
    add_left(&mut v, 60, 80, 5, 1);
    add_left(&mut v, 60, 60, 5, 2);
    add_left(&mut v, 60, 40, 5, 3);
    add_left(&mut v, 60, 20, 5, 4);
    // col 1
    add_left(&mut v, 80, 100, 4, 0);
    add_left(&mut v, 80, 80, 4, 1);
    add_left(&mut v, 80, 60, 4, 2);
    add_left(&mut v, 80, 40, 4, 3);
    add_left(&mut v, 80, 20, 4, 4);
    add_left(&mut v, 80, 0, 4, 5);
    // col 2
    add_left(&mut v, 100, 100, 3, 0);
    add_left(&mut v, 100, 80, 3, 1);
    add_left(&mut v, 100, 60, 3, 2);
    add_left(&mut v, 100, 40, 3, 3);
    add_left(&mut v, 100, 20, 3, 4);
    add_left(&mut v, 100, 0, 3, 5);
    // col 3
    add_left(&mut v, 120, 100, 2, 0);
    add_left(&mut v, 120, 80, 2, 1);
    add_left(&mut v, 120, 60, 2, 2);
    add_left(&mut v, 120, 40, 2, 3);
    add_left(&mut v, 120, 20, 2, 4);
    add_left(&mut v, 120, 0, 2, 5);
    // col 4
    add_left(&mut v, 140, 100, 1, 0);
    add_left(&mut v, 140, 80, 1, 1);
    add_left(&mut v, 140, 60, 1, 2);
    add_left(&mut v, 140, 40, 1, 3);
    add_left(&mut v, 140, 20, 1, 4);
    add_left(&mut v, 140, 0, 1, 5);
    // col 5
    add_left(&mut v, 160, 100, 0, 0);
    add_left(&mut v, 160, 80, 0, 1);
    add_left(&mut v, 160, 60, 0, 2);
    add_left(&mut v, 160, 40, 0, 3);
    add_left(&mut v, 160, 20, 0, 4);
    add_left(&mut v, 160, 0, 0, 5);
    assert(v@ =~= left_lights());
    index_lights(&v)
}

/// The lights of the right half.
pub fn right() -> (r: Lights)
    ensures
        r.lights@.len() == NUM_LEDS,
        forall|i: int|
            0 <= i < NUM_LEDS ==> (#[trigger] r.lights@[i]).location == right_lights()[i].location
                && r.lights@[i].position == right_lights()[i].position && r.lights@[i].index == i,
        r.inverse_index@.len() == MAX_LED_XPOS * MAX_LED_YPOS,
        forall|slot: int|
            0 <= slot < MAX_LED_XPOS * MAX_LED_YPOS ==> #[trigger] r.inverse_index@[slot]
                == place_at(right_lights(), slot, NUM_LEDS as nat),
{
    let mut v: Vec<UnindexedLight> = Vec::new();
    // thumb cluster
    add_right(&mut v, 40, 5, 0, 0);
    add_right(&mut v, 20, 0, 0, 1);
    add_right(&mut v, 0, -5, 0, 2);
    add_right(&mut v, 40, -5, 0, 3);
    add_right(&mut v, 20, -15, 0, 4);
    add_right(&mut v, 0, -25, 0, 5);
    // col 0
    add_right(&mut v, 60, 80, 1, 1);
    add_right(&mut v, 60, 60, 1, 2);
    add_right(&mut v, 60, 40, 1, 3);
    add_right(&mut v, 60, 20, 1, 4);
    // col 1
    add_right(&mut v, 80, 100, 2, 0);
    add_right(&mut v, 80, 80, 2, 1);
    add_right(&mut v, 80, 60, 2, 2);
    add_right(&mut v, 80, 40, 2, 3);
    add_right(&mut v, 80, 20, 2, 4);
    add_right(&mut v, 80, 0, 2, 5);
    // col 2
    add_right(&mut v, 100, 100, 3, 0);
    add_right(&mut v, 100, 80, 3, 1);
    add_right(&mut v, 100, 60, 3, 2);
    add_right(&mut v, 100, 40, 3, 3);
    add_right(&mut v, 100, 20, 3, 4);
    add_right(&mut v, 100, 0, 4, 5);
    // col 3
    add_right(&mut v, 120, 100, 4, 0);
    add_right(&mut v, 120, 80, 4, 1);
    add_right(&mut v, 120, 60, 4, 2);
    add_right(&mut v, 120, 40, 4, 3);
    add_right(&mut v, 120, 20, 4, 4);
    add_right(&mut v, 120, 0, 4, 5);
    // col 4
    add_right(&mut v, 140, 100, 5, 0);
    add_right(&mut v, 140, 80, 5, 1);
    add_right(&mut v, 140, 60, 5, 2);
    add_right(&mut v, 140, 40, 5, 3);
    add_right(&mut v, 140, 20, 5, 4);
    add_right(&mut v, 140, 0, 5, 5);
    // col 5
    add_right(&mut v, 160, 100, 6, 0);
    add_right(&mut v, 160, 80, 6, 1);
    add_right(&mut v, 160, 60, 6, 2);
    add_right(&mut v, 160, 40, 6, 3);
    add_right(&mut v, 160, 20, 6, 4);
    add_right(&mut v, 160, 0, 6, 5);
    assert(v@ =~= right_lights());
    index_lights(&v)
}

/// The horizontal place in millimetres of light column `column`, counted
/// from the inner edge of the half.
pub fn column_x(right_half: bool, column: usize) -> (r: i16)
    requires
        column < NUM_COLS,
    ensures
        r == (if right_half {
            column * 20 + RIGHT_LED_OFFSET
        } else {
            TOP_RIGHT_LED_OFFSET - column * 20
        }),
{
    let x: i16 = (column * 20) as i16;
    if right_half {
        x + RIGHT_LED_OFFSET
    } else {
        TOP_RIGHT_LED_OFFSET - x
    }
}

} // verus!
