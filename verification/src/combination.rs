//! Stacks of four glass blocks and the order in which they are enumerated.

use vstd::prelude::*;
use crate::palette::{Rgb, MinecraftColor, color_rgb, palette};
use crate::blend::{
    blended, stack_colors, reds, greens, blues, lemma_four_layers, blocks_to_color,
};

verus! {

/// Number of blocks in a stack.
pub const STACK_HEIGHT: usize = 4;

/// Number of different stacks: one of sixteen colours at each of four places.
pub const COMBINATION_COUNT: u32 = 65536;

/// An ordered stack of four glass blocks, back block first.
#[derive(Clone, Copy, Debug, PartialEq, Eq, Hash)]
pub struct Combination {
    pub blocks: [MinecraftColor; 4],
}

impl View for Combination {
    type V = Seq<MinecraftColor>;

    open spec fn view(&self) -> Seq<MinecraftColor> {
        self.blocks@
    }
}

/// The colour seen through a stack of blocks, back block first.
pub open spec fn stack_color(blocks: Seq<MinecraftColor>) -> Rgb {
    blended(stack_colors(blocks))
}

/// The stack that holds the given palette positions, back block first.
pub open spec fn combination_of(first: int, second: int, third: int, fourth: int) -> Seq<
    MinecraftColor,
> {
    seq![palette()[first], palette()[second], palette()[third], palette()[fourth]]
}

/// The rank of a stack in the enumeration: stacks are listed like four-digit
/// numbers in base sixteen, the back block being the leading digit.
pub open spec fn rank_of(first: int, second: int, third: int, fourth: int) -> int {
    first * 4096 + second * 256 + third * 16 + fourth
}

/// The blocks of the stack with the given rank.
pub open spec fn combination_at(rank: int) -> Seq<MinecraftColor> {
    combination_of(rank / 4096, rank / 256 % 16, rank / 16 % 16, rank % 16)
}

impl Combination {
    /// Makes a stack from its four blocks, back block first.
    pub fn new(
        first: MinecraftColor,
        second: MinecraftColor,
        third: MinecraftColor,
        fourth: MinecraftColor,
    ) -> (combination: Combination)
        ensures
            combination@ == seq![first, second, third, fourth],
    {
        let combination = Combination { blocks: [first, second, third, fourth] };
        assert(combination@ =~= seq![first, second, third, fourth]);
        combination
    }

    /// The blocks of the stack, back block first.
    pub fn to_vec(&self) -> (blocks: Vec<MinecraftColor>)
        ensures
            blocks@ == self@,
    {
        let blocks = vec![self.blocks[0], self.blocks[1], self.blocks[2], self.blocks[3]];
        assert(blocks@ =~= self@);
        blocks
    }

    /// The colour seen through the stack.
    pub fn color(&self) -> (rgb: Rgb)
        ensures
            rgb == stack_color(self@),
    {
        blocks_to_color(&self.to_vec())
    }
}

/// A rank has the palette positions of its stack as digits in base sixteen.
pub proof fn lemma_rank_digits(first: int, second: int, third: int, fourth: int)
    requires
        0 <= first < 16,
        0 <= second < 16,
        0 <= third < 16,
        0 <= fourth < 16,
    ensures
        0 <= rank_of(first, second, third, fourth) < COMBINATION_COUNT,
        rank_of(first, second, third, fourth) / 4096 == first,
        rank_of(first, second, third, fourth) / 256 % 16 == second,
        rank_of(first, second, third, fourth) / 16 % 16 == third,
        rank_of(first, second, third, fourth) % 16 == fourth,
{
    let rank = first * 4096 + second * 256 + third * 16 + fourth;
    assert(rank / 4096 == first);
    assert(rank / 256 == first * 16 + second);
    assert(rank / 16 == first * 256 + second * 16 + third);
}

/// Through a stack of four blocks the back block and the one before it count
/// once, the third twice and the front block four times, out of eight.
pub proof fn lemma_stack_of_four(blocks: Seq<MinecraftColor>)
    requires
        blocks.len() == STACK_HEIGHT,
    ensures
        stack_color(blocks).r == (color_rgb(blocks[0]).r + color_rgb(blocks[1]).r + 2 * color_rgb(
            blocks[2],
        ).r + 4 * color_rgb(blocks[3]).r) / 8,
        stack_color(blocks).g == (color_rgb(blocks[0]).g + color_rgb(blocks[1]).g + 2 * color_rgb(
            blocks[2],
        ).g + 4 * color_rgb(blocks[3]).g) / 8,
        stack_color(blocks).b == (color_rgb(blocks[0]).b + color_rgb(blocks[1]).b + 2 * color_rgb(
            blocks[2],
        ).b + 4 * color_rgb(blocks[3]).b) / 8,
{
    let colors = stack_colors(blocks);
    lemma_four_layers(reds(colors));
    lemma_four_layers(greens(colors));
    lemma_four_layers(blues(colors));
}

} // verus!
