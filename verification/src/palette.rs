//! The sixteen dye colours, their canonical sRGB values, and the keys by
//! which colours are ordered.

use vstd::prelude::*;

verus! {

/// An sRGB colour with eight bits per channel.
#[derive(Clone, Copy, Debug, PartialEq, Eq, Structural, PartialOrd, Ord, Hash)]
pub struct Rgb {
    pub r: u8,
    pub g: u8,
    pub b: u8,
}

/// One of the sixteen dye colours a glass block can have.
#[derive(Clone, Copy, Debug, PartialEq, Eq, Structural, Hash)]
pub enum MinecraftColor {
    White,
    LightGray,
    Gray,
    Black,
    Brown,
    Red,
    Orange,
    Yellow,
    Lime,
    Green,
    Cyan,
    LightBlue,
    Blue,
    Purple,
    Magenta,
    Pink,
}

/// Number of colours in the palette.
pub const PALETTE_SIZE: usize = 16;

/// The canonical sRGB value of each palette colour.
pub open spec fn color_rgb(color: MinecraftColor) -> Rgb {
    match color {
        MinecraftColor::White => Rgb { r: 249, g: 255, b: 254 },
        MinecraftColor::LightGray => Rgb { r: 157, g: 157, b: 151 },
        MinecraftColor::Gray => Rgb { r: 71, g: 79, b: 82 },
        MinecraftColor::Black => Rgb { r: 29, g: 29, b: 33 },
        MinecraftColor::Brown => Rgb { r: 131, g: 84, b: 50 },
        MinecraftColor::Red => Rgb { r: 176, g: 46, b: 38 },
        MinecraftColor::Orange => Rgb { r: 249, g: 128, b: 29 },
        MinecraftColor::Yellow => Rgb { r: 254, g: 216, b: 61 },
        MinecraftColor::Lime => Rgb { r: 128, g: 199, b: 31 },
        MinecraftColor::Green => Rgb { r: 94, g: 124, b: 22 },
        MinecraftColor::Cyan => Rgb { r: 22, g: 156, b: 156 },
        MinecraftColor::LightBlue => Rgb { r: 58, g: 179, b: 218 },
        MinecraftColor::Blue => Rgb { r: 60, g: 68, b: 170 },
        MinecraftColor::Purple => Rgb { r: 137, g: 50, b: 184 },
        MinecraftColor::Magenta => Rgb { r: 199, g: 78, b: 189 },
        MinecraftColor::Pink => Rgb { r: 243, g: 139, b: 170 },
    }
}

/// The palette in its fixed order.
pub open spec fn palette() -> Seq<MinecraftColor> {
    seq![
        MinecraftColor::White,
        MinecraftColor::LightGray,
        MinecraftColor::Gray,
        MinecraftColor::Black,
        MinecraftColor::Brown,
        MinecraftColor::Red,
        MinecraftColor::Orange,
        MinecraftColor::Yellow,
        MinecraftColor::Lime,
        MinecraftColor::Green,
        MinecraftColor::Cyan,
        MinecraftColor::LightBlue,
        MinecraftColor::Blue,
        MinecraftColor::Purple,
        MinecraftColor::Magenta,
        MinecraftColor::Pink,
    ]
}

/// The place of a colour in the palette.
pub open spec fn palette_position(color: MinecraftColor) -> int {
    match color {
        MinecraftColor::White => 0,
        MinecraftColor::LightGray => 1,
        MinecraftColor::Gray => 2,
        MinecraftColor::Black => 3,
        MinecraftColor::Brown => 4,
        MinecraftColor::Red => 5,
        MinecraftColor::Orange => 6,
        MinecraftColor::Yellow => 7,
        MinecraftColor::Lime => 8,
        MinecraftColor::Green => 9,
        MinecraftColor::Cyan => 10,
        MinecraftColor::LightBlue => 11,
        MinecraftColor::Blue => 12,
        MinecraftColor::Purple => 13,
        MinecraftColor::Magenta => 14,
        MinecraftColor::Pink => 15,
    }
}

/// The number under which a colour is filed: red counts most, blue least.
pub open spec fn rgb_key(color: Rgb) -> int {
    color.r * 65536 + color.g * 256 + color.b
}

/// The colour filed under a key.
pub open spec fn key_color(key: int) -> Rgb {
    Rgb { r: (key / 65536) as u8, g: (key / 256 % 256) as u8, b: (key % 256) as u8 }
}

/// `first` comes before `second` when its red is smaller, or at equal red its
/// green, or at equal red and green its blue.
pub open spec fn rgb_precedes(first: Rgb, second: Rgb) -> bool {
    first.r < second.r || (first.r == second.r && (first.g < second.g || (first.g == second.g
        && first.b < second.b)))
}

/// Every colour stands in the palette exactly once, at its position.
pub proof fn lemma_palette_complete(color: MinecraftColor)
    ensures
        palette().len() == PALETTE_SIZE,
        0 <= palette_position(color) < PALETTE_SIZE,
        palette()[palette_position(color)] == color,
        forall|i: int| 0 <= i < PALETTE_SIZE && palette()[i] == color ==> i == palette_position(color),
{
}

/// No two palette colours share an sRGB value.
pub proof fn lemma_palette_distinct(first: MinecraftColor, second: MinecraftColor)
    requires
        color_rgb(first) == color_rgb(second),
    ensures
        first == second,
{
}

/// Keys order colours channel by channel, and different colours have
/// different keys.
pub proof fn lemma_key_order(first: Rgb, second: Rgb)
    ensures
        rgb_key(first) < rgb_key(second) <==> rgb_precedes(first, second),
        rgb_key(first) == rgb_key(second) <==> first == second,
        0 <= rgb_key(first) < 0x100_0000,
{
}

/// Keys and colours correspond one to one.
pub proof fn lemma_key_round_trip(color: Rgb, key: int)
    ensures
        key_color(rgb_key(color)) == color,
        0 <= key < 0x100_0000 ==> rgb_key(key_color(key)) == key,
{
}

impl Rgb {
    /// The key of this colour.
    pub fn key(&self) -> (key: u32)
        ensures
            key == rgb_key(*self),
    {
        self.r as u32 * 65536 + self.g as u32 * 256 + self.b as u32
    }
}

/// Lists the palette in its fixed order.
pub fn possible_minecraft_colors() -> (colors: Vec<MinecraftColor>)
    ensures
        colors@ == palette(),
{
    let colors = vec![
        MinecraftColor::White,
        MinecraftColor::LightGray,
        MinecraftColor::Gray,
        MinecraftColor::Black,
        MinecraftColor::Brown,
        MinecraftColor::Red,
        MinecraftColor::Orange,
        MinecraftColor::Yellow,
        MinecraftColor::Lime,
        MinecraftColor::Green,
        MinecraftColor::Cyan,
        MinecraftColor::LightBlue,
        MinecraftColor::Blue,
        MinecraftColor::Purple,
        MinecraftColor::Magenta,
        MinecraftColor::Pink,
    ];
    assert(colors@ =~= palette());
    colors
}

/// Looks up the sRGB value of a palette colour.
pub fn mc_color_to_rgb(mc_color: MinecraftColor) -> (rgb: Rgb)
    ensures
        rgb == color_rgb(mc_color),
{
    match mc_color {
        MinecraftColor::White => Rgb { r: 249, g: 255, b: 254 },
        MinecraftColor::LightGray => Rgb { r: 157, g: 157, b: 151 },
        MinecraftColor::Gray => Rgb { r: 71, g: 79, b: 82 },
        MinecraftColor::Black => Rgb { r: 29, g: 29, b: 33 },
        MinecraftColor::Brown => Rgb { r: 131, g: 84, b: 50 },
        MinecraftColor::Red => Rgb { r: 176, g: 46, b: 38 },
        MinecraftColor::Orange => Rgb { r: 249, g: 128, b: 29 },
        MinecraftColor::Yellow => Rgb { r: 254, g: 216, b: 61 },
        MinecraftColor::Lime => Rgb { r: 128, g: 199, b: 31 },
        MinecraftColor::Green => Rgb { r: 94, g: 124, b: 22 },
        MinecraftColor::Cyan => Rgb { r: 22, g: 156, b: 156 },
        MinecraftColor::LightBlue => Rgb { r: 58, g: 179, b: 218 },
        MinecraftColor::Blue => Rgb { r: 60, g: 68, b: 170 },
        MinecraftColor::Purple => Rgb { r: 137, g: 50, b: 184 },
        MinecraftColor::Magenta => Rgb { r: 199, g: 78, b: 189 },
        MinecraftColor::Pink => Rgb { r: 243, g: 139, b: 170 },
    }
}

} // verus!
