use std::collections::BTreeMap;

use beacon_glass::blend::blocks_to_color;
use beacon_glass::combination::{Combination, COMBINATION_COUNT, STACK_HEIGHT};
use beacon_glass::index::{CombinationIndex, IndexEntry};
use beacon_glass::palette::{possible_minecraft_colors, MinecraftColor, Rgb};

fn filed_in_order() -> BTreeMap<(u8, u8, u8), Vec<MinecraftColor>> {
    let colors = possible_minecraft_colors();
    let mut filed = BTreeMap::new();
    for &first in &colors {
        for &second in &colors {
            for &third in &colors {
                for &fourth in &colors {
                    let blocks = vec![first, second, third, fourth];
                    let rgb = blocks_to_color(&blocks);
                    filed.insert((rgb.r, rgb.g, rgb.b), blocks);
                }
            }
        }
    }
    filed
}

#[test]
fn empty_index_holds_nothing() {
    let index = CombinationIndex::new();
    assert_eq!(index.len(), 0);
    assert!(index.entries().is_empty());
    assert_eq!(index.get(Rgb { r: 29, g: 29, b: 33 }), None);
}

#[test]
fn insert_files_a_stack_under_its_color() {
    let mut index = CombinationIndex::new();
    let stack = Combination::new(
        MinecraftColor::White,
        MinecraftColor::Black,
        MinecraftColor::Black,
        MinecraftColor::Black,
    );
    index.insert(stack);
    assert_eq!(index.len(), 1);
    assert_eq!(index.get(Rgb { r: 56, g: 57, b: 60 }), Some(stack));
    assert_eq!(index.get(Rgb { r: 56, g: 57, b: 61 }), None);
    assert_eq!(
        index.entries(),
        vec![IndexEntry { color: Rgb { r: 56, g: 57, b: 60 }, combination: stack }]
    );
}

#[test]
fn later_stack_replaces_earlier_one_of_the_same_color() {
    // the first two stacks of the enumeration that blend to one colour
    let colors = possible_minecraft_colors();
    let mut seen: BTreeMap<(u8, u8, u8), Combination> = BTreeMap::new();
    let mut collision: Option<(Combination, Combination)> = None;
    'search: for &first in &colors {
        for &second in &colors {
            for &third in &colors {
                for &fourth in &colors {
                    let stack = Combination::new(first, second, third, fourth);
                    let rgb = stack.color();
                    if let Some(earlier) = seen.insert((rgb.r, rgb.g, rgb.b), stack) {
                        collision = Some((earlier, stack));
                        break 'search;
                    }
                }
            }
        }
    }
    let (earlier, later) = collision.unwrap();
    assert_ne!(earlier, later);
    assert_eq!(earlier.color(), later.color());

    let mut index = CombinationIndex::new();
    index.insert(earlier);
    index.insert(later);
    assert_eq!(index.len(), 1);
    assert_eq!(index.get(later.color()), Some(later));

    let mut reversed = CombinationIndex::new();
    reversed.insert(later);
    reversed.insert(earlier);
    assert_eq!(reversed.len(), 1);
    assert_eq!(reversed.get(later.color()), Some(earlier));
}

#[test]
fn full_index_is_no_larger_than_the_enumeration() {
    let index = CombinationIndex::build();
    assert!(index.len() >= 1);
    assert!(index.len() <= 65536);
    assert_eq!(COMBINATION_COUNT, 65536);
    assert_eq!(STACK_HEIGHT, 4);
    assert_eq!(index.len(), filed_in_order().len());
    assert_eq!(index.len(), index.entries().len());
}

#[test]
fn full_index_keeps_the_last_stack_of_every_color() {
    let index = CombinationIndex::build();
    let filed = filed_in_order();
    let entries = index.entries();
    assert_eq!(entries.len(), filed.len());
    for (entry, (key, blocks)) in entries.iter().zip(filed.iter()) {
        assert_eq!((entry.color.r, entry.color.g, entry.color.b), *key);
        assert_eq!(&entry.combination.to_vec(), blocks);
    }
}

#[test]
fn full_index_entries_blend_to_their_colors() {
    let index = CombinationIndex::build();
    let palette = possible_minecraft_colors();
    for entry in index.entries() {
        let blocks = entry.combination.to_vec();
        assert_eq!(blocks.len(), 4);
        for block in &blocks {
            assert!(palette.contains(block));
        }
        assert_eq!(blocks_to_color(&blocks), entry.color);
        assert_eq!(entry.combination.color(), entry.color);
        assert_eq!(index.get(entry.color), Some(entry.combination));
    }
}

#[test]
fn full_index_entries_are_listed_by_rising_key() {
    let entries = CombinationIndex::build().entries();
    for pair in entries.windows(2) {
        assert!(pair[0].color.key() < pair[1].color.key());
        assert!(pair[0].color < pair[1].color);
    }
}

#[test]
fn full_index_finds_every_stack_color() {
    let index = CombinationIndex::build();
    let colors = possible_minecraft_colors();
    for &first in &colors {
        for &second in &colors {
            let stack = Combination::new(first, second, first, second);
            let found = index.get(stack.color());
            assert!(found.is_some());
            assert_eq!(found.unwrap().color(), stack.color());
        }
    }
    // all four blocks alike blend to the block's own colour, and no stack
    // enumerated later than the one of four pink blocks exists
    let pink = Combination::new(
        MinecraftColor::Pink,
        MinecraftColor::Pink,
        MinecraftColor::Pink,
        MinecraftColor::Pink,
    );
    assert_eq!(pink.color(), Rgb { r: 243, g: 139, b: 170 });
    assert_eq!(index.get(Rgb { r: 243, g: 139, b: 170 }), Some(pink));
    assert_eq!(index.get(Rgb { r: 0, g: 0, b: 0 }), None);
}
