use beacon_glass::names::{describe_colors, mc_color_name};
use beacon_glass::palette::{mc_color_to_rgb, possible_minecraft_colors, MinecraftColor, Rgb, PALETTE_SIZE};

#[test]
fn palette_lists_sixteen_colors_in_order() {
    let colors = possible_minecraft_colors();
    assert_eq!(colors.len(), PALETTE_SIZE);
    assert_eq!(colors.len(), 16);
    assert_eq!(colors[0], MinecraftColor::White);
    assert_eq!(colors[1], MinecraftColor::LightGray);
    assert_eq!(colors[2], MinecraftColor::Gray);
    assert_eq!(colors[3], MinecraftColor::Black);
    assert_eq!(colors[4], MinecraftColor::Brown);
    assert_eq!(colors[5], MinecraftColor::Red);
    assert_eq!(colors[6], MinecraftColor::Orange);
    assert_eq!(colors[7], MinecraftColor::Yellow);
    assert_eq!(colors[8], MinecraftColor::Lime);
    assert_eq!(colors[9], MinecraftColor::Green);
    assert_eq!(colors[10], MinecraftColor::Cyan);
    assert_eq!(colors[11], MinecraftColor::LightBlue);
    assert_eq!(colors[12], MinecraftColor::Blue);
    assert_eq!(colors[13], MinecraftColor::Purple);
    assert_eq!(colors[14], MinecraftColor::Magenta);
    assert_eq!(colors[15], MinecraftColor::Pink);
}

#[test]
fn palette_colors_have_their_canonical_values() {
    let expected: [(MinecraftColor, (u8, u8, u8)); 16] = [
        (MinecraftColor::White, (249, 255, 254)),
        (MinecraftColor::LightGray, (157, 157, 151)),
        (MinecraftColor::Gray, (71, 79, 82)),
        (MinecraftColor::Black, (29, 29, 33)),
        (MinecraftColor::Brown, (131, 84, 50)),
        (MinecraftColor::Red, (176, 46, 38)),
        (MinecraftColor::Orange, (249, 128, 29)),
        (MinecraftColor::Yellow, (254, 216, 61)),
        (MinecraftColor::Lime, (128, 199, 31)),
        (MinecraftColor::Green, (94, 124, 22)),
        (MinecraftColor::Cyan, (22, 156, 156)),
        (MinecraftColor::LightBlue, (58, 179, 218)),
        (MinecraftColor::Blue, (60, 68, 170)),
        (MinecraftColor::Purple, (137, 50, 184)),
        (MinecraftColor::Magenta, (199, 78, 189)),
        (MinecraftColor::Pink, (243, 139, 170)),
    ];
    for (color, (r, g, b)) in expected {
        assert_eq!(mc_color_to_rgb(color), Rgb { r, g, b });
    }
}

#[test]
fn palette_colors_are_pairwise_distinct() {
    let colors = possible_minecraft_colors();
    for i in 0..colors.len() {
        for j in 0..colors.len() {
            if i != j {
                assert_ne!(mc_color_to_rgb(colors[i]), mc_color_to_rgb(colors[j]));
            }
        }
    }
}

#[test]
fn key_packs_red_green_blue() {
    assert_eq!(Rgb { r: 0, g: 0, b: 0 }.key(), 0);
    assert_eq!(Rgb { r: 1, g: 2, b: 3 }.key(), 0x01_02_03);
    assert_eq!(Rgb { r: 255, g: 255, b: 255 }.key(), 0xff_ff_ff);
    assert_eq!(Rgb { r: 249, g: 255, b: 254 }.key(), 249 * 65536 + 255 * 256 + 254);
}

#[test]
fn keys_order_like_the_channels() {
    let samples = [
        Rgb { r: 0, g: 0, b: 1 },
        Rgb { r: 0, g: 1, b: 0 },
        Rgb { r: 1, g: 0, b: 0 },
        Rgb { r: 1, g: 0, b: 255 },
        Rgb { r: 1, g: 255, b: 0 },
        Rgb { r: 200, g: 3, b: 3 },
    ];
    for first in samples {
        for second in samples {
            let by_channels = (first.r, first.g, first.b) < (second.r, second.g, second.b);
            assert_eq!(first.key() < second.key(), by_channels);
            assert_eq!(first < second, by_channels);
            assert_eq!(first.key() == second.key(), first == second);
        }
    }
}

#[test]
fn colors_have_their_names() {
    assert_eq!(mc_color_name(MinecraftColor::White), "White");
    assert_eq!(mc_color_name(MinecraftColor::LightGray), "Light gray");
    assert_eq!(mc_color_name(MinecraftColor::Gray), "Gray");
    assert_eq!(mc_color_name(MinecraftColor::Black), "Black");
    assert_eq!(mc_color_name(MinecraftColor::Brown), "Brown");
    assert_eq!(mc_color_name(MinecraftColor::Red), "Red");
    assert_eq!(mc_color_name(MinecraftColor::Orange), "Orange");
    assert_eq!(mc_color_name(MinecraftColor::Yellow), "Yellow");
    assert_eq!(mc_color_name(MinecraftColor::Lime), "Lime");
    assert_eq!(mc_color_name(MinecraftColor::Green), "Green");
    assert_eq!(mc_color_name(MinecraftColor::Cyan), "Cyan");
    assert_eq!(mc_color_name(MinecraftColor::LightBlue), "LightBlue");
    assert_eq!(mc_color_name(MinecraftColor::Blue), "Blue");
    assert_eq!(mc_color_name(MinecraftColor::Purple), "Purple");
    assert_eq!(mc_color_name(MinecraftColor::Magenta), "Magenta");
    assert_eq!(mc_color_name(MinecraftColor::Pink), "Pink");
}

#[test]
fn describe_colors_ends_every_name_with_a_comma() {
    assert_eq!(describe_colors(&vec![]), "");
    assert_eq!(describe_colors(&vec![MinecraftColor::Red]), "Red, ");
    let stack = vec![
        MinecraftColor::White,
        MinecraftColor::LightGray,
        MinecraftColor::LightBlue,
        MinecraftColor::Black,
    ];
    assert_eq!(describe_colors(&stack), "White, Light gray, LightBlue, Black, ");
}
