//! Blending a stack of translucent layers into one colour.
//!
//! The first layer is the back of the stack.  Every later layer lies in front
//! of the ones before it and weighs as much as all of them together, so with
//! `n` layers the value of a channel is
//! `(c[0] + c[1] + 2 c[2] + ... + 2^(n-2) c[n-1]) / 2^(n-1)`, rounded down.

use vstd::prelude::*;
use vstd::arithmetic::power2::{pow2, lemma_pow2_pos, lemma_pow2_unfold, lemma2_to64};
use vstd::arithmetic::div_mod::{lemma_div_denominator, lemma_hoist_over_denominator};
use vstd::arithmetic::mul::lemma_mul_is_commutative;
use crate::palette::{Rgb, MinecraftColor, color_rgb, mc_color_to_rgb};

verus! {

/// The weighted sum of one channel's layers: the back layer and its
/// neighbour count once, each further layer twice as much as the one before.
pub open spec fn layered_sum(channel: Seq<u8>) -> int
    decreases channel.len(),
{
    if channel.len() == 0 {
        0
    } else if channel.len() == 1 {
        channel[0] as int
    } else {
        layered_sum(channel.drop_last()) + pow2((channel.len() - 2) as nat) * (channel.last() as int)
    }
}

/// The value of one channel of the stack: the weighted sum over the sum of
/// the weights, rounded down.
pub open spec fn channel_average(channel: Seq<u8>) -> int {
    layered_sum(channel) / (pow2((channel.len() - 1) as nat) as int)
}

/// The red channel of each colour, in order.
pub open spec fn reds(colors: Seq<Rgb>) -> Seq<u8> {
    Seq::new(colors.len(), |i: int| colors[i].r)
}

/// The green channel of each colour, in order.
pub open spec fn greens(colors: Seq<Rgb>) -> Seq<u8> {
    Seq::new(colors.len(), |i: int| colors[i].g)
}

/// The blue channel of each colour, in order.
pub open spec fn blues(colors: Seq<Rgb>) -> Seq<u8> {
    Seq::new(colors.len(), |i: int| colors[i].b)
}

/// The colour seen through a stack of layers, back layer first.
pub open spec fn blended(colors: Seq<Rgb>) -> Rgb {
    Rgb {
        r: channel_average(reds(colors)) as u8,
        g: channel_average(greens(colors)) as u8,
        b: channel_average(blues(colors)) as u8,
    }
}

/// The sRGB values of a stack of palette colours.
pub open spec fn stack_colors(blocks: Seq<MinecraftColor>) -> Seq<Rgb> {
    Seq::new(blocks.len(), |i: int| color_rgb(blocks[i]))
}

/// Putting one more layer in front of a stack gives the mean, rounded down,
/// of what was seen before and the new layer.
pub proof fn lemma_average_push(channel: Seq<u8>, front: u8)
    requires
        channel.len() >= 1,
    ensures
        channel_average(channel.push(front)) == (channel_average(channel) + front) / 2,
{
    let n = channel.len();
    let longer = channel.push(front);
    let weight = pow2((n - 1) as nat) as int;
    lemma_sum_nonnegative(channel);
    lemma_pow2_pos((n - 1) as nat);
    lemma_pow2_unfold(n);
    assert(longer.drop_last() =~= channel);
    assert(layered_sum(longer) == layered_sum(channel) + weight * front);
    assert(pow2(n) as int == weight * 2) by {
        lemma_mul_is_commutative(weight, 2);
    }
    assert(layered_sum(longer) / weight == layered_sum(channel) / weight + front) by {
        lemma_hoist_over_denominator(layered_sum(channel), front as int, weight as nat);
        lemma_mul_is_commutative(weight, front as int);
    }
    assert(0 <= weight * front) by (nonlinear_arith)
        requires
            0 < weight,
            0 <= front,
    ;
    lemma_div_denominator(layered_sum(longer), weight, 2);
}

/// A weighted sum of channel values is never negative.
pub proof fn lemma_sum_nonnegative(channel: Seq<u8>)
    ensures
        0 <= layered_sum(channel),
    decreases channel.len(),
{
    if channel.len() >= 2 {
        lemma_sum_nonnegative(channel.drop_last());
        let weight = pow2((channel.len() - 2) as nat) as int;
        let front = channel.last() as int;
        assert(0 <= weight * front) by (nonlinear_arith)
            requires
                0 <= weight,
                0 <= front,
        ;
    }
}

/// The value of a channel lies between the smallest and the largest value a
/// layer can have.
pub proof fn lemma_average_in_range(channel: Seq<u8>)
    requires
        channel.len() >= 1,
    ensures
        0 <= channel_average(channel) <= 255,
    decreases channel.len(),
{
    if channel.len() == 1 {
        lemma_single_value(channel);
    } else {
        let back = channel.drop_last();
        lemma_average_in_range(back);
        lemma_average_push(back, channel.last());
        assert(back.push(channel.last()) =~= channel);
    }
}

/// A stack of one layer has that layer's value.
pub proof fn lemma_single_value(channel: Seq<u8>)
    requires
        channel.len() == 1,
    ensures
        channel_average(channel) == channel[0],
{
    lemma2_to64();
    assert(layered_sum(channel) == channel[0]);
    assert(pow2((channel.len() - 1) as nat) == 1);
}

/// A single layer is seen unchanged.
pub proof fn lemma_single_layer(color: Rgb)
    ensures
        blended(seq![color]) == color,
{
    let colors = seq![color];
    lemma_single_value(reds(colors));
    lemma_single_value(greens(colors));
    lemma_single_value(blues(colors));
}

/// A stack of layers that all have one value has that value.
pub proof fn lemma_uniform_stack(channel: Seq<u8>, value: u8)
    requires
        channel.len() >= 1,
        forall|i: int| 0 <= i < channel.len() ==> channel[i] == value,
    ensures
        channel_average(channel) == value,
    decreases channel.len(),
{
    if channel.len() == 1 {
        lemma_single_value(channel);
    } else {
        let back = channel.drop_last();
        lemma_uniform_stack(back, value);
        lemma_average_push(back, channel.last());
        assert(back.push(channel.last()) =~= channel);
    }
}

/// With four layers the weights are one, one, two and four, out of eight.
pub proof fn lemma_four_layers(channel: Seq<u8>)
    requires
        channel.len() == 4,
    ensures
        channel_average(channel) == (channel[0] + channel[1] + 2 * channel[2] + 4 * channel[3])
            / 8,
{
    lemma2_to64();
    let three = channel.drop_last();
    let two = three.drop_last();
    let one = two.drop_last();
    assert(layered_sum(one) == channel[0]);
    assert(layered_sum(two) == layered_sum(one) + pow2(0) * channel[1]);
    assert(layered_sum(three) == layered_sum(two) + pow2(1) * channel[2]);
    assert(layered_sum(channel) == layered_sum(three) + pow2(2) * channel[3]);
}

/// Computes the value of one channel of a stack, back layer first.
pub fn calculate_channel_avg(channel: &Vec<u8>) -> (c: u8)
    requires
        channel.len() >= 1,
    ensures
        c == channel_average(channel@),
{
    let mut value: u8 = channel[0];
    let mut i: usize = 1;
    proof {
        lemma_single_value(channel@.take(1));
    }
    while i < channel.len()
        invariant
            1 <= i <= channel.len(),
            value == channel_average(channel@.take(i as int)),
        decreases channel.len() - i,
    {
        proof {
            lemma_average_push(channel@.take(i as int), channel@[i as int]);
            assert(channel@.take(i as int).push(channel@[i as int]) =~= channel@.take(i + 1));
        }
        let both: u16 = value as u16 + channel[i] as u16;
        value = (both / 2) as u8;
        i += 1;
    }
    proof {
        assert(channel@.take(i as int) =~= channel@);
    }
    value
}

/// Blends a stack of colours, back layer first, into the colour seen through it.
pub fn blend(colors: &Vec<Rgb>) -> (rgb: Rgb)
    requires
        colors.len() >= 1,
    ensures
        rgb == blended(colors@),
{
    let mut color_channel_r: Vec<u8> = Vec::new();
    let mut color_channel_g: Vec<u8> = Vec::new();
    let mut color_channel_b: Vec<u8> = Vec::new();
    let mut i: usize = 0;
    while i < colors.len()
        invariant
            i <= colors.len(),
            color_channel_r@ =~= reds(colors@).take(i as int),
            color_channel_g@ =~= greens(colors@).take(i as int),
            color_channel_b@ =~= blues(colors@).take(i as int),
        decreases colors.len() - i,
    {
        let rgb = colors[i];
        color_channel_r.push(rgb.r);
        color_channel_g.push(rgb.g);
        color_channel_b.push(rgb.b);
        i += 1;
    }
    proof {
        assert(color_channel_r@ =~= reds(colors@));
        assert(color_channel_g@ =~= greens(colors@));
        assert(color_channel_b@ =~= blues(colors@));
    }
    Rgb {
        r: calculate_channel_avg(&color_channel_r),
        g: calculate_channel_avg(&color_channel_g),
        b: calculate_channel_avg(&color_channel_b),
    }
}

/// Blends a stack of glass blocks, back block first, into the colour seen
/// through it.
pub fn blocks_to_color(blocks: &Vec<MinecraftColor>) -> (rgb: Rgb)
    requires
        blocks.len() >= 1,
    ensures
        rgb == blended(stack_colors(blocks@)),
{
    let mut colors: Vec<Rgb> = Vec::new();
    let mut i: usize = 0;
    while i < blocks.len()
        invariant
            i <= blocks.len(),
            colors@ =~= stack_colors(blocks@).take(i as int),
        decreases blocks.len() - i,
    {
        colors.push(mc_color_to_rgb(blocks[i]));
        i += 1;
    }
    proof {
        assert(colors@ =~= stack_colors(blocks@));
    }
    blend(&colors)
}

} // verus!
