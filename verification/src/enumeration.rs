//! What the index holds after all stacks of four blocks have been filed.
//!
//! The stacks are filed in the order of their ranks.  Filing a stack under a
//! colour that already has one replaces it, so each colour ends up with the
//! stack of the greatest rank that blends to it.

use vstd::prelude::*;
use crate::palette::{Rgb, MinecraftColor, palette};
use crate::combination::{stack_color, combination_at, COMBINATION_COUNT, STACK_HEIGHT};

verus! {

/// The colour seen through the stack with the given rank.
pub open spec fn color_at(rank: int) -> Rgb {
    stack_color(combination_at(rank))
}

/// Whether `rank` is the last rank below `count` whose stack blends to `color`.
pub open spec fn is_last_rank(color: Rgb, rank: int, count: int) -> bool {
    &&& 0 <= rank < count
    &&& color_at(rank) == color
    &&& forall|later: int| rank < later < count ==> color_at(later) != color
}

/// What the index holds once the stacks of the first `count` ranks have been
/// filed in order: every colour one of them blends to, with the last of them
/// that does.
pub open spec fn indexed_through(count: int) -> Map<Rgb, Seq<MinecraftColor>> {
    Map::new(
        |color: Rgb| exists|rank: int| 0 <= rank < count && color_at(rank) == color,
        |color: Rgb| combination_at(choose|rank: int| is_last_rank(color, rank, count)),
    )
}

/// What the index of all stacks holds.
pub open spec fn full_index() -> Map<Rgb, Seq<MinecraftColor>> {
    indexed_through(COMBINATION_COUNT as int)
}

/// At most one rank is the last for a colour.
proof fn lemma_last_rank_unique(color: Rgb, first: int, second: int, count: int)
    requires
        is_last_rank(color, first, count),
        is_last_rank(color, second, count),
    ensures
        first == second,
{
}

/// A colour that some rank blends to has a last such rank.
proof fn lemma_last_rank_exists(color: Rgb, count: int)
    requires
        exists|rank: int| 0 <= rank < count && color_at(rank) == color,
    ensures
        exists|rank: int| is_last_rank(color, rank, count),
    decreases count,
{
    if color_at(count - 1) == color {
        assert(is_last_rank(color, count - 1, count));
    } else {
        let witness = choose|rank: int| 0 <= rank < count && color_at(rank) == color;
        let fewer = count - 1;
        assert(0 <= witness < fewer);
        lemma_last_rank_exists(color, fewer);
        let last = choose|rank: int| is_last_rank(color, rank, fewer);
        assert(is_last_rank(color, last, count));
    }
}

/// Under each colour the index holds the last stack that blends to it.
pub proof fn lemma_index_holds_last(color: Rgb, rank: int, count: int)
    requires
        is_last_rank(color, rank, count),
    ensures
        indexed_through(count).contains_key(color),
        indexed_through(count)[color] == combination_at(rank),
{
    let chosen = choose|rank: int| is_last_rank(color, rank, count);
    lemma_last_rank_unique(color, chosen, rank, count);
}

/// Every stack the index holds is a stack of the enumeration and blends to
/// the colour it is filed under; no colour is missing.
pub proof fn lemma_index_entries(color: Rgb, count: int)
    ensures
        indexed_through(count).contains_key(color) <==> exists|rank: int|
            0 <= rank < count && color_at(rank) == color,
        indexed_through(count).contains_key(color) ==> exists|rank: int|
            is_last_rank(color, rank, count) && indexed_through(count)[color] == combination_at(
                rank,
            ),
        indexed_through(count).contains_key(color) ==> stack_color(indexed_through(count)[color])
            == color,
{
    if indexed_through(count).contains_key(color) {
        lemma_last_rank_exists(color, count);
        let last = choose|rank: int| is_last_rank(color, rank, count);
        lemma_index_holds_last(color, last, count);
    }
}

/// Before any stack is filed the index holds nothing.  Filing the stack of
/// the next rank adds it under its colour and replaces what was filed there.
pub proof fn lemma_index_step(count: int)
    requires
        0 <= count,
    ensures
        indexed_through(0) == Map::<Rgb, Seq<MinecraftColor>>::empty(),
        indexed_through(count + 1) == indexed_through(count).insert(
            color_at(count),
            combination_at(count),
        ),
{
    assert(indexed_through(0) =~= Map::<Rgb, Seq<MinecraftColor>>::empty());
    let more = count + 1;
    let before = indexed_through(count);
    let after = indexed_through(more);
    let filed = before.insert(color_at(count), combination_at(count));
    assert forall|color: Rgb| after.contains_key(color) <==> filed.contains_key(color) by {
        if after.contains_key(color) && color != color_at(count) {
            let rank = choose|rank: int| 0 <= rank < more && color_at(rank) == color;
            assert(0 <= rank < count && color_at(rank) == color);
        }
        if before.contains_key(color) {
            let rank = choose|rank: int| 0 <= rank < count && color_at(rank) == color;
            assert(0 <= rank < more && color_at(rank) == color);
        }
        if color == color_at(count) {
            assert(0 <= count < more && color_at(count) == color);
        }
    }
    assert forall|color: Rgb| after.contains_key(color) implies after[color] == filed[color] by {
        if color == color_at(count) {
            assert(is_last_rank(color, count, more));
            lemma_index_holds_last(color, count, more);
        } else {
            lemma_index_entries(color, count);
            let last = choose|rank: int| is_last_rank(color, rank, count);
            assert(is_last_rank(color, last, more));
            lemma_index_holds_last(color, last, more);
            lemma_index_holds_last(color, last, count);
        }
    }
    assert(after =~= filed);
}

/// The index holds at most one stack per rank.
pub proof fn lemma_index_size(count: int)
    requires
        0 <= count,
    ensures
        indexed_through(count).dom().finite(),
        indexed_through(count).dom().len() <= count,
    decreases count,
{
    if count == 0 {
        lemma_index_step(0);
    } else {
        lemma_index_size(count - 1);
        lemma_index_step(count - 1);
    }
}

/// The index of all stacks holds no more colours than there are stacks.  Every
/// stack in it has four blocks, all from the palette, and blends to the colour
/// it is filed under.
pub proof fn lemma_full_index(color: Rgb)
    ensures
        full_index().dom().finite(),
        full_index().dom().len() <= COMBINATION_COUNT,
        full_index().contains_key(color) ==> full_index()[color].len() == STACK_HEIGHT,
        full_index().contains_key(color) ==> forall|i: int|
            0 <= i < STACK_HEIGHT ==> palette().contains(#[trigger] full_index()[color][i]),
        full_index().contains_key(color) ==> stack_color(full_index()[color]) == color,
{
    let count = COMBINATION_COUNT as int;
    lemma_index_size(count);
    if full_index().contains_key(color) {
        lemma_index_entries(color, count);
        let rank = choose|rank: int|
            is_last_rank(color, rank, count) && indexed_through(count)[color] == combination_at(
                rank,
            );
        let stack = combination_at(rank);
        assert(stack[0] == palette()[rank / 4096]);
        assert(stack[1] == palette()[rank / 256 % 16]);
        assert(stack[2] == palette()[rank / 16 % 16]);
        assert(stack[3] == palette()[rank % 16]);
    }
}

} // verus!
