use map_generator::color::{PresetColors, HSL, RGB, RGBA};
use map_generator::fixed::ONE;

#[test]
fn presets_have_their_channels() {
    assert_eq!(PresetColors::RED.to_tuple(), (255, 0, 0, 255));
    assert_eq!(PresetColors::GREEN.to_tuple(), (0, 255, 0, 255));
    assert_eq!(PresetColors::BLUE.to_tuple(), (0, 0, 255, 255));
    assert_eq!(PresetColors::YELLOW.to_tuple(), (255, 255, 0, 255));
    assert_eq!(PresetColors::MAGENTA.to_tuple(), (255, 0, 255, 255));
    assert_eq!(PresetColors::TEAL.to_tuple(), (0, 255, 255, 255));
    assert_eq!(PresetColors::GREY.to_tuple(), (128, 128, 128, 255));
    assert_eq!(PresetColors::BLACK.to_tuple(), (0, 0, 0, 255));
    assert_eq!(PresetColors::WHITE.to_tuple(), (255, 255, 255, 255));
    assert_eq!(PresetColors::TRANSPARENT.to_tuple(), (0, 0, 0, 0));
    assert_eq!(PresetColors::Other(1, 2, 3, 4).to_tuple(), (1, 2, 3, 4));
}

#[test]
fn a_channel_becomes_a_level_rounded_down() {
    assert_eq!(RGB::new(0, 255, 128), RGB::new_f32(0, ONE, 501_960));
    assert_eq!(RGB::new(52, 57, 168), RGB::new_f32(203_921, 223_529, 658_823));
    assert_eq!(RGBA::new(10, 11, 37, 40), RGBA::new_f32(39_215, 43_137, 145_098, 156_862));
    assert_eq!(RGB::new(1, 2, 3).to_array(), [3_921, 7_843, 11_764]);
}

#[test]
fn presets_convert_to_levels() {
    assert_eq!(PresetColors::TEAL.to_rgb(), RGB::new_f32(0, ONE, ONE));
    assert_eq!(PresetColors::GREY.to_rgb(), RGB::new_f32(501_960, 501_960, 501_960));
    assert_eq!(
        PresetColors::Other(40, 40, 40, 255).to_rgba(),
        RGBA::new_f32(156_862, 156_862, 156_862, ONE)
    );
    assert_eq!(PresetColors::TRANSPARENT.to_rgba(), RGBA::new_f32(0, 0, 0, 0));
}

#[test]
fn hues_fall_into_sixths_of_the_wheel() {
    assert_eq!(HSL::new(0, ONE, 500_000).to_rgb(), RGB::new_f32(ONE, 0, 0));
    assert_eq!(HSL::new(61, ONE, 500_000).to_rgb(), RGB::new_f32(ONE, ONE, 0));
    assert_eq!(HSL::new(120, 800_000, 250_000).to_rgb(), RGB::new_f32(0, 400_000, 0));
    assert_eq!(HSL::new(181, ONE, 500_000).to_rgb(), RGB::new_f32(0, ONE, ONE));
    assert_eq!(HSL::new(240, 500_000, 500_000).to_rgb(), RGB::new_f32(0, 0, 500_000));
    assert_eq!(HSL::new(301, ONE, 750_000).to_rgb(), RGB::new_f32(500_000, 0, 500_000));
    assert_eq!(HSL::new(359, ONE, 500_000).to_rgb(), RGB::new_f32(ONE, 0, ONE));
    assert_eq!(HSL::new(360, ONE, 500_000).to_rgb(), RGB::new_f32(ONE, 0, 0));
    assert_eq!(HSL::new(421, ONE, 500_000).to_rgb(), RGB::new_f32(ONE, ONE, 0));
}

#[test]
fn large_hues_wrap_to_negative_ones() {
    let wrapped = HSL::new(65_535, ONE, 500_000);
    assert_eq!(wrapped.h, -1);
    assert_eq!(wrapped.to_rgb(), RGB::new_f32(ONE, -ONE, 0));
    let far = HSL::new(65_236, ONE, 500_000);
    assert_eq!(far.h, -300);
    assert_eq!(far.to_rgb(), RGB::new_f32(ONE, 0, 0));
    assert_eq!(HSL::new(32_767, 0, 0).h, 32_767);
    assert_eq!(HSL::new(32_768, 0, 0).h, -32_768);
}
