//! A pseudo-random generator seeded by a string.
//!
//! The generator is `rand_pcg`'s 128-bit PCG; its first state is derived from
//! the seed string by `rand_seeder`. Neither crate is verified here. What this
//! module assumes of them is that each call is a function of the generator's
//! state and of its arguments: the functions without a body below name those
//! results, and every contract in this module is stated over them.

use vstd::prelude::*;
use crate::color::{blue_of, green_of, lemma_packed_channels, pack_color, packed, red_of};

verus! {

#[verifier::external_type_specification]
#[verifier::external_body]
pub struct ExLcg128Xsl64(rand_pcg::Lcg128Xsl64);

/// What a PCG generator holds: the state of its congruential sequence and the
/// increment that selects its stream.
pub uninterp spec fn generator_state(generator: rand_pcg::Lcg128Xsl64) -> (u128, u128);

/// The state of the generator that `rand_seeder` derives from a seed string.
pub uninterp spec fn seeded_state(seed: Seq<char>) -> (u128, u128);

/// The byte that `rand` draws from a generator in `state`, with the state that
/// the draw leaves.
pub uninterp spec fn u8_draw(state: (u128, u128)) -> (u8, (u128, u128));

/// The 32-bit integer that `rand` draws from a generator in `state`, with the
/// state that the draw leaves.
pub uninterp spec fn i32_draw(state: (u128, u128)) -> (i32, (u128, u128));

/// The integer that `rand` draws from `min .. max` on a generator in `state`,
/// with the state that the draw leaves.
pub uninterp spec fn i32_range_draw(state: (u128, u128), min: i32, max: i32) -> (
    i32,
    (u128, u128),
);

/// `rand_seeder::Seeder::from(seed).make_rng()`: hashes the seed and builds the
/// generator from the hash. Assumed: the generator's state depends on the
/// characters of the seed alone.
#[verifier::external_body]
fn seed_generator(seed: &str) -> (generator: rand_pcg::Lcg128Xsl64)
    ensures
        generator_state(generator) == seeded_state(seed@),
{
    rand_seeder::Seeder::from(seed).make_rng()
}

/// `rand::Rng::gen::<u8>`. Assumed: the byte and the state left behind depend
/// on the state before the call alone.
#[verifier::external_body]
fn draw_u8(generator: &mut rand_pcg::Lcg128Xsl64) -> (value: u8)
    ensures
        (value, generator_state(*final(generator))) == u8_draw(generator_state(*old(generator))),
{
    rand::Rng::gen::<u8>(generator)
}

/// `rand::Rng::gen::<i32>`. Assumed: the integer and the state left behind
/// depend on the state before the call alone.
#[verifier::external_body]
fn draw_i32(generator: &mut rand_pcg::Lcg128Xsl64) -> (value: i32)
    ensures
        (value, generator_state(*final(generator))) == i32_draw(generator_state(*old(generator))),
{
    rand::Rng::gen::<i32>(generator)
}

/// `rand::Rng::gen_range(min..max)`, which panics on an empty range. Assumed:
/// the integer lies in `min .. max`, and it and the state left behind depend
/// on the state before the call and on the two bounds alone.
#[verifier::external_body]
fn draw_i32_range(generator: &mut rand_pcg::Lcg128Xsl64, min: i32, max: i32) -> (value: i32)
    requires
        min < max,
    ensures
        min <= value < max,
        (value, generator_state(*final(generator))) == i32_range_draw(
            generator_state(*old(generator)),
            min,
            max,
        ),
{
    rand::Rng::gen_range(generator, min..max)
}

/// The colour that three successive byte draws give, red first, then green,
/// then blue, with the state that the third draw leaves.
pub open spec fn color_draw(state: (u128, u128)) -> (u32, (u128, u128)) {
    let (red, after_red) = u8_draw(state);
    let (green, after_green) = u8_draw(after_red);
    let (blue, after_blue) = u8_draw(after_green);
    (packed(red, green, blue), after_blue)
}

/// The integer drawn from `min .. max`, with the state left behind. An empty
/// range gives `min` and leaves the state as it was.
pub open spec fn range_draw(state: (u128, u128), min: i32, max: i32) -> (i32, (u128, u128)) {
    if min < max {
        i32_range_draw(state, min, max)
    } else {
        (min, state)
    }
}

/// A call on a generator.
pub enum Draw {
    /// A byte.
    U8,
    /// A 32-bit integer.
    I32,
    /// An integer from `min .. max`.
    I32Range { min: i32, max: i32 },
    /// An opaque colour.
    Color,
}

/// The value that a call returns on a generator in `state`, and the state
/// that the call leaves.
pub open spec fn answer(state: (u128, u128), draw: Draw) -> (int, (u128, u128)) {
    match draw {
        Draw::U8 => (u8_draw(state).0 as int, u8_draw(state).1),
        Draw::I32 => (i32_draw(state).0 as int, i32_draw(state).1),
        Draw::I32Range { min, max } => (
            range_draw(state, min, max).0 as int,
            range_draw(state, min, max).1,
        ),
        Draw::Color => (color_draw(state).0 as int, color_draw(state).1),
    }
}

/// The values that a sequence of calls returns, one after the other, on a
/// generator that starts in `state`.
pub open spec fn answers(state: (u128, u128), calls: Seq<Draw>) -> Seq<int>
    decreases calls.len(),
{
    if calls.len() == 0 {
        Seq::empty()
    } else {
        seq![answer(state, calls[0]).0] + answers(answer(state, calls[0]).1, calls.drop_first())
    }
}

/// The state that a sequence of calls leaves a generator in that starts in
/// `state`.
pub open spec fn state_after(state: (u128, u128), calls: Seq<Draw>) -> (u128, u128)
    decreases calls.len(),
{
    if calls.len() == 0 {
        state
    } else {
        state_after(answer(state, calls[0]).1, calls.drop_first())
    }
}

/// A pseudo-random generator. Its view is the state it is in.
pub struct Rng {
    rng: rand_pcg::Lcg128Xsl64,
}

impl View for Rng {
    type V = (u128, u128);

    closed spec fn view(&self) -> (u128, u128) {
        generator_state(self.rng)
    }
}

impl Default for Rng {
    /// The generator of the empty seed.
    fn default() -> (rng: Self)
        ensures
            rng@ == seeded_state(Seq::empty()),
    {
        proof {
            reveal_strlit("");
        }
        assert(""@ =~= Seq::<char>::empty());
        Self::new("")
    }
}

impl Rng {
    /// The generator of `seed`. Every string is a seed, the empty one too.
    pub fn new(seed: &str) -> (rng: Self)
        ensures
            rng@ == seeded_state(seed@),
    {
        Self { rng: seed_generator(seed) }
    }

    /// Draws a 32-bit integer.
    pub fn next_i32(&mut self) -> (value: i32)
        ensures
            (value, final(self)@) == i32_draw(old(self)@),
            (value as int, final(self)@) == answer(old(self)@, Draw::I32),
    {
        draw_i32(&mut self.rng)
    }

    /// Draws an integer from `min .. max`. If the range is empty the result is
    /// `min` and nothing is drawn.
    pub fn next_i32_range(&mut self, min: i32, max: i32) -> (value: i32)
        ensures
            (value, final(self)@) == range_draw(old(self)@, min, max),
            (value as int, final(self)@) == answer(old(self)@, (Draw::I32Range { min, max })),
            min < max ==> min <= value < max,
            min >= max ==> value == min && final(self)@ == old(self)@,
    {
        if min < max {
            draw_i32_range(&mut self.rng, min, max)
        } else {
            min
        }
    }

    /// Draws a byte.
    pub fn next_u8(&mut self) -> (value: u8)
        ensures
            (value, final(self)@) == u8_draw(old(self)@),
            (value as int, final(self)@) == answer(old(self)@, Draw::U8),
    {
        draw_u8(&mut self.rng)
    }

    /// Draws an opaque colour: red, green and blue are three successive bytes,
    /// in that order, and the top byte is 255.
    pub fn next_color(&mut self) -> (color: u32)
        ensures
            (color, final(self)@) == color_draw(old(self)@),
            (color as int, final(self)@) == answer(old(self)@, Draw::Color),
            color as int / 0x100_0000 == 0xFF,
            red_of(color) == u8_draw(old(self)@).0,
            green_of(color) == u8_draw(u8_draw(old(self)@).1).0,
            blue_of(color) == u8_draw(u8_draw(u8_draw(old(self)@).1).1).0,
    {
        let red: u8 = self.next_u8();
        let green: u8 = self.next_u8();
        let blue: u8 = self.next_u8();
        proof {
            lemma_packed_channels(red, green, blue);
        }
        pack_color(red, green, blue)
    }

    /// The generator itself, for draws that this library does not offer.
    pub fn generator_mut(&mut self) -> (generator: &mut rand_pcg::Lcg128Xsl64)
        ensures
            generator_state(*generator) == old(self)@,
            final(self)@ == generator_state(*final(generator)),
    {
        &mut self.rng
    }
}

/// Two generators made from one seed answer one sequence of calls with the
/// same values, and are left in the same state.
pub proof fn lemma_same_seed_same_answers(first: Rng, second: Rng, seed: Seq<char>, calls: Seq<Draw>)
    requires
        first@ == seeded_state(seed),
        second@ == seeded_state(seed),
    ensures
        answers(first@, calls) == answers(second@, calls),
        state_after(first@, calls) == state_after(second@, calls),
{
}

/// Calls made one after the other answer as the sequence of them does: what a
/// further call returns is the last of the values of the longer sequence.
pub proof fn lemma_answers_of_one_more_call(state: (u128, u128), calls: Seq<Draw>, draw: Draw)
    ensures
        answers(state, calls.push(draw)) == answers(state, calls).push(
            answer(state_after(state, calls), draw).0,
        ),
        state_after(state, calls.push(draw)) == answer(state_after(state, calls), draw).1,
        answers(state, calls).len() == calls.len(),
    decreases calls.len(),
{
    if calls.len() == 0 {
        reveal_with_fuel(answers, 2);
        reveal_with_fuel(state_after, 2);
        assert(calls.push(draw)[0] == draw);
        assert(calls.push(draw).drop_first() =~= Seq::<Draw>::empty());
        assert(answers(state, calls.push(draw)) =~= seq![answer(state, draw).0]);
        assert(answers(state, calls).push(answer(state, draw).0) =~= seq![answer(state, draw).0]);
    } else {
        let next = answer(state, calls[0]).1;
        lemma_answers_of_one_more_call(next, calls.drop_first(), draw);
        assert(calls.push(draw).drop_first() =~= calls.drop_first().push(draw));
        assert(calls.push(draw)[0] == calls[0]);
        assert(answers(state, calls.push(draw)) =~= answers(state, calls).push(
            answer(state_after(state, calls), draw).0,
        ));
    }
}

} // verus!
