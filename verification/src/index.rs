//! The index from blended colours to the stacks that produce them.
//!
//! Several stacks can blend to the same colour.  The index keeps one stack
//! per colour: the one filed last.

use vstd::prelude::*;
use std::collections::BTreeMap;
use vstd::std_specs::cmp::OrdSpec;
use vstd::std_specs::btree::increasing_seq;
use vstd::std_specs::iter::IteratorSpec;
use vstd::set_lib::lemma_map_size;
use vstd::seq_lib::seq_to_set_is_finite;
use crate::palette::{
    Rgb, MinecraftColor, rgb_key, key_color, lemma_key_order, lemma_key_round_trip,
    possible_minecraft_colors, palette,
};
use crate::combination::{Combination, stack_color, combination_at, rank_of, lemma_rank_digits};
use crate::enumeration::{indexed_through, full_index, lemma_index_step};

verus! {

/// A colour of the index together with the stack filed under it.
#[derive(Clone, Copy, Debug, PartialEq, Eq)]
pub struct IndexEntry {
    pub color: Rgb,
    pub combination: Combination,
}

/// An ordered map from blended colours to stacks.
pub struct CombinationIndex {
    map: BTreeMap<u32, Combination>,
}

/// Whether `entries` lists exactly what `index` holds, each colour once, in
/// the order of the colours' keys.
pub open spec fn is_listing_of(entries: Seq<IndexEntry>, index: Map<Rgb, Seq<MinecraftColor>>) -> bool {
    &&& forall|i: int, j: int|
        0 <= i < j < entries.len() ==> rgb_key(entries[i].color) < rgb_key(entries[j].color)
    &&& forall|i: int|
        0 <= i < entries.len() ==> index.contains_key(#[trigger] entries[i].color)
            && index[entries[i].color] == entries[i].combination@
    &&& forall|color: Rgb|
        index.contains_key(color) ==> exists|i: int|
            0 <= i < entries.len() && #[trigger] entries[i].color == color
}

/// A listing has one entry for every colour of the index.
pub proof fn lemma_listing_length(entries: Seq<IndexEntry>, index: Map<Rgb, Seq<MinecraftColor>>)
    requires
        is_listing_of(entries, index),
    ensures
        index.dom().finite(),
        index.dom().len() == entries.len(),
{
    let colors = Seq::new(entries.len(), |i: int| entries[i].color);
    assert forall|i: int, j: int| 0 <= i < colors.len() && 0 <= j < colors.len() && i != j implies colors[i]
        != colors[j] by {
        if i < j {
            assert(rgb_key(entries[i].color) < rgb_key(entries[j].color));
        } else {
            assert(rgb_key(entries[j].color) < rgb_key(entries[i].color));
        }
    }
    assert forall|color: Rgb| colors.to_set().contains(color) <==> index.dom().contains(
        color,
    ) by {
        if colors.to_set().contains(color) {
            let i = choose|i: int| 0 <= i < colors.len() && colors[i] == color;
            assert(index.contains_key(entries[i].color));
        }
        if index.dom().contains(color) {
            let i = choose|i: int| 0 <= i < entries.len() && entries[i].color == color;
            assert(colors[i] == color);
        }
    }
    assert(colors.to_set() =~= index.dom());
    colors.unique_seq_to_set();
    seq_to_set_is_finite(colors);
}

/// Two listings of one index agree entry by entry.
pub proof fn lemma_listing_unique(
    first: Seq<IndexEntry>,
    second: Seq<IndexEntry>,
    index: Map<Rgb, Seq<MinecraftColor>>,
)
    requires
        is_listing_of(first, index),
        is_listing_of(second, index),
    ensures
        first.len() == second.len(),
        forall|i: int|
            0 <= i < first.len() ==> (#[trigger] first[i]).color == second[i].color
                && first[i].combination@ == second[i].combination@,
{
    lemma_listing_length(first, index);
    lemma_listing_length(second, index);
    assert forall|i: int| 0 <= i < first.len() implies (#[trigger] first[i]).color
        == second[i].color by {
        lemma_same_place(first, second, index, i);
    }
}

/// The entry at a place of one listing stands at the same place of another.
proof fn lemma_same_place(
    first: Seq<IndexEntry>,
    second: Seq<IndexEntry>,
    index: Map<Rgb, Seq<MinecraftColor>>,
    place: int,
)
    requires
        is_listing_of(first, index),
        is_listing_of(second, index),
        first.len() == second.len(),
        0 <= place < first.len(),
    ensures
        first[place].color == second[place].color,
    decreases place,
{
    if place > 0 {
        lemma_same_place(first, second, index, place - 1);
    }
    let mine = first[place].color;
    let theirs = second[place].color;
    assert(index.contains_key(mine));
    assert(index.contains_key(theirs));
    let there = choose|i: int| 0 <= i < second.len() && second[i].color == mine;
    let here = choose|i: int| 0 <= i < first.len() && first[i].color == theirs;
    lemma_key_order(mine, theirs);
    if there < place {
        lemma_same_place(first, second, index, there);
        assert(rgb_key(first[there].color) < rgb_key(first[place].color));
    }
    if here < place {
        lemma_same_place(first, second, index, here);
        assert(rgb_key(second[here].color) < rgb_key(second[place].color));
    }
    if there > place {
        assert(rgb_key(second[place].color) < rgb_key(second[there].color));
    }
    if here > place {
        assert(rgb_key(first[place].color) < rgb_key(first[here].color));
    }
}

/// Keys that come out in increasing order rise strictly.
proof fn lemma_increasing_keys(keys: Seq<u32>, i: int, j: int)
    requires
        increasing_seq(keys),
        0 <= i < j < keys.len(),
    ensures
        keys[i] < keys[j],
{
    assert(keys[i].cmp_spec(&keys[j]) is Less);
}

/// Files the stack that holds the given palette positions.
fn file_stack(
    index: &mut CombinationIndex,
    colors: &Vec<MinecraftColor>,
    first: usize,
    second: usize,
    third: usize,
    fourth: usize,
)
    requires
        colors@ == palette(),
        first < 16,
        second < 16,
        third < 16,
        fourth < 16,
        old(index)@ == indexed_through(
            rank_of(first as int, second as int, third as int, fourth as int),
        ),
    ensures
        final(index)@ == indexed_through(
            rank_of(first as int, second as int, third as int, fourth as int) + 1,
        ),
{
    let combination = Combination::new(
        colors[first],
        colors[second],
        colors[third],
        colors[fourth],
    );
    proof {
        let rank = rank_of(first as int, second as int, third as int, fourth as int);
        lemma_rank_digits(first as int, second as int, third as int, fourth as int);
        assert(combination@ =~= combination_at(rank));
        lemma_index_step(rank);
    }
    index.insert(combination);
}

impl View for CombinationIndex {
    type V = Map<Rgb, Seq<MinecraftColor>>;

    closed spec fn view(&self) -> Map<Rgb, Seq<MinecraftColor>> {
        Map::new(
            |color: Rgb| self.map@.contains_key(rgb_key(color) as u32),
            |color: Rgb| self.map@[rgb_key(color) as u32]@,
        )
    }
}

impl CombinationIndex {
    #[verifier::type_invariant]
    spec fn filed_by_color(self) -> bool {
        forall|key: u32| #[trigger]
            self.map@.contains_key(key) ==> key == rgb_key(stack_color(self.map@[key]@))
    }

    /// Makes an index that holds nothing.
    pub fn new() -> (index: CombinationIndex)
        ensures
            index@ == Map::<Rgb, Seq<MinecraftColor>>::empty(),
    {
        let index = CombinationIndex { map: BTreeMap::new() };
        assert(index@ =~= Map::<Rgb, Seq<MinecraftColor>>::empty());
        index
    }

    /// Files a stack under the colour seen through it.  A stack filed there
    /// before is replaced.
    pub fn insert(&mut self, combination: Combination)
        ensures
            final(self)@ == old(self)@.insert(stack_color(combination@), combination@),
    {
        proof {
            use_type_invariant(&*self);
        }
        let color = combination.color();
        let key = color.key();
        let mut map: BTreeMap<u32, Combination> = BTreeMap::new();
        std::mem::swap(&mut map, &mut self.map);
        map.insert(key, combination);
        self.map = map;
        proof {
            assert forall|other: Rgb| true implies (rgb_key(other) == rgb_key(color) <==> other
                == color) by {
                lemma_key_order(other, color);
            }
            assert(self@ =~= old(self)@.insert(color, combination@));
        }
    }

    /// The number of colours in the index.
    pub fn len(&self) -> (count: usize)
        ensures
            self@.dom().finite(),
            count == self@.dom().len(),
    {
        proof {
            use_type_invariant(self);
            let keys = self.map@.dom();
            let decode = |key: u32| key_color(key as int);
            assert forall|key: u32| keys.contains(key) implies rgb_key(decode(key)) == key by {
                lemma_key_round_trip(stack_color(self.map@[key]@), key as int);
                lemma_key_order(stack_color(self.map@[key]@), decode(key));
            }
            assert forall|color: Rgb| keys.map(decode).contains(color) <==> self@.dom().contains(
                color,
            ) by {
                lemma_key_round_trip(color, 0);
                lemma_key_order(color, color);
                if self@.dom().contains(color) {
                    assert(keys.contains(rgb_key(color) as u32));
                    assert(decode(rgb_key(color) as u32) == color);
                }
            }
            assert(keys.map(decode) =~= self@.dom());
            lemma_map_size(keys, self@.dom(), decode);
        }
        self.map.len()
    }

    /// Looks up the stack filed under a colour.
    pub fn get(&self, color: Rgb) -> (found: Option<Combination>)
        ensures
            match found {
                Some(combination) => self@.contains_key(color) && self@[color] == combination@
                    && stack_color(combination@) == color,
                None => !self@.contains_key(color),
            },
    {
        proof {
            use_type_invariant(self);
            lemma_key_order(color, color);
        }
        let key = color.key();
        match self.map.get(&key) {
            Some(combination) => Some(*combination),
            None => None,
        }
    }

    /// Files every stack of four palette colours, in the order of their
    /// ranks.
    pub fn build() -> (index: CombinationIndex)
        ensures
            index@ == full_index(),
    {
        let colors = possible_minecraft_colors();
        let mut index = CombinationIndex::new();
        proof {
            lemma_index_step(0);
        }
        let mut first: usize = 0;
        while first < 16
            invariant
                first <= 16,
                colors@ == palette(),
                index@ == indexed_through(rank_of(first as int, 0, 0, 0)),
            decreases 16 - first,
        {
            let mut second: usize = 0;
            while second < 16
                invariant
                    first < 16,
                    second <= 16,
                    colors@ == palette(),
                    index@ == indexed_through(rank_of(first as int, second as int, 0, 0)),
                decreases 16 - second,
            {
                let mut third: usize = 0;
                while third < 16
                    invariant
                        first < 16,
                        second < 16,
                        third <= 16,
                        colors@ == palette(),
                        index@ == indexed_through(
                            rank_of(first as int, second as int, third as int, 0),
                        ),
                    decreases 16 - third,
                {
                    let mut fourth: usize = 0;
                    while fourth < 16
                        invariant
                            first < 16,
                            second < 16,
                            third < 16,
                            fourth <= 16,
                            colors@ == palette(),
                            index@ == indexed_through(
                                rank_of(first as int, second as int, third as int, fourth as int),
                            ),
                        decreases 16 - fourth,
                    {
                        file_stack(&mut index, &colors, first, second, third, fourth);
                        fourth += 1;
                    }
                    third += 1;
                }
                second += 1;
            }
            first += 1;
        }
        index
    }

    /// Lists the index in the order of the colours' keys.
    pub fn entries(&self) -> (entries: Vec<IndexEntry>)
        ensures
            is_listing_of(entries@, self@),
            forall|i: int|
                0 <= i < entries.len() ==> stack_color((#[trigger] entries[i]).combination@)
                    == entries[i].color,
    {
        proof {
            use_type_invariant(self);
        }
        let mut entries: Vec<IndexEntry> = Vec::new();
        proof {
            let pairs = self.map.iter().remaining();
            assert forall|key: u32| self.map@.contains_key(key) implies exists|i: int|
                0 <= i < pairs.len() && *(#[trigger] pairs[i]).0 == key by {
                assert(pairs.contains((&key, &self.map@[key])));
            }
        }
        for pair in it: self.map.iter()
            invariant
                entries.len() == it.index(),
                increasing_seq(it.seq().map_values(|pair: (&u32, &Combination)| *pair.0)),
                forall|key: u32|
                    self.map@.contains_key(key) ==> exists|i: int|
                        0 <= i < it.seq().len() && *(#[trigger] it.seq()[i]).0 == key,
                forall|i: int|
                    0 <= i < it.seq().len() ==> self.map@.contains_key(*(#[trigger] it.seq()[i]).0)
                        && self.map@[*it.seq()[i].0] == *it.seq()[i].1,
                forall|i: int, j: int|
                    0 <= i < j < entries.len() ==> rgb_key(entries[i].color) < rgb_key(
                        entries[j].color,
                    ),
                forall|i: int|
                    #![trigger entries[i]]
                    #![trigger it.seq()[i]]
                    0 <= i < entries.len() ==> rgb_key(entries[i].color) == *it.seq()[i].0
                        && entries[i].combination == *it.seq()[i].1,
                forall|key: u32| #[trigger]
                    self.map@.contains_key(key) ==> key == rgb_key(stack_color(self.map@[key]@)),
                forall|i: int|
                    0 <= i < entries.len() ==> stack_color((#[trigger] entries[i]).combination@)
                        == entries[i].color,
        {
            let (key, combination) = pair;
            let color = combination.color();
            proof {
                let keys = it.seq().map_values(|pair: (&u32, &Combination)| *pair.0);
                let n = entries.len() as int;
                assert(it.seq()[n] == pair);
                assert forall|i: int| 0 <= i < n implies rgb_key(entries[i].color) < rgb_key(
                    color,
                ) by {
                    assert(keys[i] == rgb_key(entries[i].color));
                    assert(keys[n] == *key);
                    lemma_increasing_keys(keys, i, n);
                }
            }
            entries.push(IndexEntry { color, combination: *combination });
        }
        proof {
            assert forall|color: Rgb| self@.contains_key(color) implies exists|i: int|
                0 <= i < entries.len() && #[trigger] entries[i].color == color by {
                let key = rgb_key(color) as u32;
                assert(self.map@.contains_key(key));
                let i = choose|i: int|
                    0 <= i < entries.len() && rgb_key(#[trigger] entries[i].color) == key;
                lemma_key_order(entries[i].color, color);
            }
        }
        entries
    }
}

} // verus!
