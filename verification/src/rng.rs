//! Seed derivation for the pseudo random generator.

use vstd::prelude::*;
use rand::rngs::SmallRng;
use rand::RngCore;
use rand::SeedableRng;

verus! {

pub const GOLDEN_GAMMA: u64 = 0x9E3779B97F4A7C15;

pub const MIX_A: u64 = 0xBF58476D1CE4E5B9;

pub const MIX_B: u64 = 0x94D049BB133111EB;

/// Sum modulo 2^64.
pub open spec fn add_mod64(a: u64, b: u64) -> u64 {
    ((a as nat + b as nat) % 0x1_0000_0000_0000_0000) as u64
}

/// Product modulo 2^64.
pub open spec fn mul_mod64(a: u64, b: u64) -> u64 {
    ((a as nat * b as nat) % 0x1_0000_0000_0000_0000) as u64
}

/// One xor-shift-multiply round of the mixer.
pub open spec fn mix_round(z: u64, shift: u64, factor: u64) -> u64 {
    mul_mod64(z ^ (z >> shift), factor)
}

/// The SplitMix64 output function.
pub open spec fn splitmix64_spec(x: u64) -> u64 {
    let z0 = add_mod64(x, GOLDEN_GAMMA);
    let z1 = mix_round(z0, 30, MIX_A);
    let z2 = mix_round(z1, 27, MIX_B);
    z2 ^ (z2 >> 31)
}

/// Scrambles `x` with the SplitMix64 finaliser. All arithmetic wraps.
pub fn splitmix64(x: u64) -> (r: u64)
    ensures
        r == splitmix64_spec(x),
{
    let z0: u64 = x.wrapping_add(GOLDEN_GAMMA);
    let z1: u64 = (z0 ^ (z0 >> 30)).wrapping_mul(MIX_A);
    let z2: u64 = (z1 ^ (z1 >> 27)).wrapping_mul(MIX_B);
    z2 ^ (z2 >> 31)
}

/// The big-endian value of eight bytes.
pub open spec fn be_value(b: Seq<u8>) -> nat
    recommends
        b.len() == 8,
{
    (b[0] as nat) * 0x100_0000_0000_0000 + (b[1] as nat) * 0x1_0000_0000_0000 + (b[2] as nat)
        * 0x100_0000_0000 + (b[3] as nat) * 0x1_0000_0000 + (b[4] as nat) * 0x100_0000 + (
    b[5] as nat) * 0x1_0000 + (b[6] as nat) * 0x100 + (b[7] as nat)
}

/// The big-endian value of eight bytes as a machine word.
pub open spec fn be_word(b: Seq<u8>) -> u64
    recommends
        b.len() == 8,
{
    be_value(b) as u64
}

/// Reads eight bytes as a big-endian number.
pub fn be_u64(bytes: &[u8; 8]) -> (r: u64)
    ensures
        r as nat == be_value(bytes@),
        r == be_word(bytes@),
{
    let mut acc: u64 = bytes[0] as u64;
    acc = acc * 256 + bytes[1] as u64;
    acc = acc * 256 + bytes[2] as u64;
    acc = acc * 256 + bytes[3] as u64;
    acc = acc * 256 + bytes[4] as u64;
    acc = acc * 256 + bytes[5] as u64;
    acc = acc * 256 + bytes[6] as u64;
    acc = acc * 256 + bytes[7] as u64;
    acc
}

/// The seed of the generator: hardware entropy and the uptime in ticks,
/// each scrambled, then combined with xor.
pub open spec fn seed_spec(entropy: u64, ticks: u64) -> u64 {
    splitmix64_spec(entropy) ^ splitmix64_spec(ticks)
}

/// Derives the generator's seed from eight bytes of hardware entropy and the
/// current uptime.
pub fn derive_seed(entropy: &[u8; 8], ticks: u64) -> (r: u64)
    ensures
        r == seed_spec(be_word(entropy@), ticks),
{
    let e: u64 = be_u64(entropy);
    let seed: u64 = splitmix64(e) ^ splitmix64(ticks);
    seed
}


#[verifier::external_type_specification]
#[verifier::external_body]
pub struct ExSmallRng(SmallRng);

/// `SmallRng::seed_from_u64`: a generator started from the seed. Nothing is
/// claimed of it: which generator this is depends on the machine.
#[verifier::external_body]
fn seeded(seed: u64) -> SmallRng {
    SmallRng::seed_from_u64(seed)
}

/// `RngCore::next_u32` on the generator: the next 32 bits. Nothing is
/// claimed of them.
#[verifier::external_body]
fn draw_u32(rng: &mut SmallRng) -> u32 {
    rng.next_u32()
}

/// `RngCore::next_u64` on the generator: the next 64 bits. Nothing is
/// claimed of them.
#[verifier::external_body]
fn draw_u64(rng: &mut SmallRng) -> u64 {
    rng.next_u64()
}

/// The random generator of the firmware.
pub struct MyRng {
    rng: SmallRng,
    seed: u64,
}

impl MyRng {
    /// The seed the generator was started from.
    pub closed spec fn seed(&self) -> u64 {
        self.seed
    }

    /// Starts the generator from eight bytes of hardware entropy and the
    /// uptime in ticks.
    pub fn init(entropy: &[u8; 8], ticks: u64) -> (r: Self)
        ensures
            r.seed() == seed_spec(be_word(entropy@), ticks),
    {
        let seed = derive_seed(entropy, ticks);
        MyRng { rng: seeded(seed), seed }
    }

    /// The seed the generator was started from.
    pub fn started_from(&self) -> (r: u64)
        ensures
            r == self.seed(),
    {
        self.seed
    }

    /// The next 32 random bits.
    pub fn next_u32(&mut self) -> (r: u32)
        ensures
            final(self).seed() == old(self).seed(),
    {
        draw_u32(&mut self.rng)
    }

    /// The next 64 random bits.
    pub fn next_u64(&mut self) -> (r: u64)
        ensures
            final(self).seed() == old(self).seed(),
    {
        draw_u64(&mut self.rng)
    }
}

} // verus!
