use beacon_glass::palette::{mc_color_to_rgb, possible_minecraft_colors, Rgb};
use beacon_glass::perceptual::{to_perceptual, PerceptualColor};

#[test]
fn to_perceptual_gives_the_oklab_coordinates() {
    for color in possible_minecraft_colors() {
        let rgb = mc_color_to_rgb(color);
        let lab = oklab::srgb_to_oklab(oklab::Rgb { r: rgb.r, g: rgb.g, b: rgb.b });
        assert_eq!(
            to_perceptual(rgb),
            PerceptualColor { l: lab.l.to_bits(), a: lab.a.to_bits(), b: lab.b.to_bits() }
        );
    }
}

#[test]
fn black_is_dark_and_white_is_light() {
    let black = to_perceptual(Rgb { r: 0, g: 0, b: 0 });
    let white = to_perceptual(Rgb { r: 255, g: 255, b: 255 });
    assert!(f32::from_bits(black.l).abs() < 1e-4);
    assert!((f32::from_bits(white.l) - 1.0).abs() < 1e-3);
    assert!(f32::from_bits(white.a).abs() < 1e-3);
    assert!(f32::from_bits(white.b).abs() < 1e-3);
}

#[test]
fn perceptual_color_is_not_the_srgb_color() {
    let rgb = Rgb { r: 176, g: 46, b: 38 };
    let lab = to_perceptual(rgb);
    assert_ne!((lab.l, lab.a, lab.b), (176, 46, 38));
    // red lies on the positive side of the green-red axis
    assert!(f32::from_bits(lab.a) > 0.1);
    assert!(f32::from_bits(lab.l) > 0.3 && f32::from_bits(lab.l) < 0.7);
}

#[test]
fn to_perceptual_is_repeatable() {
    let rgb = Rgb { r: 58, g: 179, b: 218 };
    assert_eq!(to_perceptual(rgb), to_perceptual(rgb));
}
