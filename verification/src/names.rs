//! The names under which the palette colours are shown.

use vstd::prelude::*;
use vstd::string::StringExecFns;
use crate::palette::MinecraftColor;

verus! {

/// The name of each palette colour.
pub open spec fn color_name(color: MinecraftColor) -> Seq<char> {
    match color {
        MinecraftColor::White => "White"@,
        MinecraftColor::LightGray => "Light gray"@,
        MinecraftColor::Gray => "Gray"@,
        MinecraftColor::Black => "Black"@,
        MinecraftColor::Brown => "Brown"@,
        MinecraftColor::Red => "Red"@,
        MinecraftColor::Orange => "Orange"@,
        MinecraftColor::Yellow => "Yellow"@,
        MinecraftColor::Lime => "Lime"@,
        MinecraftColor::Green => "Green"@,
        MinecraftColor::Cyan => "Cyan"@,
        MinecraftColor::LightBlue => "LightBlue"@,
        MinecraftColor::Blue => "Blue"@,
        MinecraftColor::Purple => "Purple"@,
        MinecraftColor::Magenta => "Magenta"@,
        MinecraftColor::Pink => "Pink"@,
    }
}

/// The names of a list of colours, each followed by a comma and a space.
pub open spec fn color_list(colors: Seq<MinecraftColor>) -> Seq<char>
    decreases colors.len(),
{
    if colors.len() == 0 {
        Seq::empty()
    } else {
        color_list(colors.drop_last()) + color_name(colors.last()) + ", "@
    }
}

/// Gives the name of a palette colour.
pub fn mc_color_name(color: MinecraftColor) -> (name: &'static str)
    ensures
        name@ == color_name(color),
{
    match color {
        MinecraftColor::White => "White",
        MinecraftColor::LightGray => "Light gray",
        MinecraftColor::Gray => "Gray",
        MinecraftColor::Black => "Black",
        MinecraftColor::Brown => "Brown",
        MinecraftColor::Red => "Red",
        MinecraftColor::Orange => "Orange",
        MinecraftColor::Yellow => "Yellow",
        MinecraftColor::Lime => "Lime",
        MinecraftColor::Green => "Green",
        MinecraftColor::Cyan => "Cyan",
        MinecraftColor::LightBlue => "LightBlue",
        MinecraftColor::Blue => "Blue",
        MinecraftColor::Purple => "Purple",
        MinecraftColor::Magenta => "Magenta",
        MinecraftColor::Pink => "Pink",
    }
}

/// Writes the names of a list of colours on one line, each followed by a
/// comma and a space.
pub fn describe_colors(colors: &Vec<MinecraftColor>) -> (line: String)
    ensures
        line@ == color_list(colors@),
{
    let mut line = String::new();
    let mut i: usize = 0;
    while i < colors.len()
        invariant
            i <= colors.len(),
            line@ == color_list(colors@.take(i as int)),
        decreases colors.len() - i,
    {
        proof {
            assert(colors@.take(i + 1).drop_last() =~= colors@.take(i as int));
        }
        line.append(mc_color_name(colors[i]));
        line.append(", ");
        i += 1;
    }
    proof {
        assert(colors@.take(i as int) =~= colors@);
    }
    line
}

} // verus!
