use dotman::colors::{
    base16_pairs, base16_ramp, blend, blend_channel, blend_color, generate_base16_colors,
    reference_colors, slot_names, Rgb, RAMP_SLOTS, RAMP_WEIGHT,
};
use dotman::context::Context;

fn rgb(red: u8, green: u8, blue: u8) -> Rgb {
    Rgb { red, green, blue }
}

#[test]
fn the_ramp_weight_is_one_half() {
    assert_eq!(RAMP_WEIGHT, 50);
    assert_eq!(RAMP_SLOTS, 16);
}

#[test]
fn blend_channel_rounds_to_nearest() {
    assert_eq!(blend_channel(0, 0, 50), 0);
    assert_eq!(blend_channel(255, 255, 50), 255);
    assert_eq!(blend_channel(0, 255, 50), 128);
    assert_eq!(blend_channel(255, 0, 50), 128);
    assert_eq!(blend_channel(1, 2, 50), 2);
    assert_eq!(blend_channel(1, 1, 50), 1);
    assert_eq!(blend_channel(128, 15, 50), 72);
    assert_eq!(blend_channel(192, 33, 50), 113);
}

#[test]
fn blend_channel_with_other_weights() {
    assert_eq!(blend_channel(200, 100, 30), 130);
    assert_eq!(blend_channel(255, 0, 30), 77);
    assert_eq!(blend_channel(0, 255, 30), 179);
    assert_eq!(blend_channel(10, 20, 25), 18);
    assert_eq!(blend_channel(17, 99, 100), 17);
    assert_eq!(blend_channel(17, 99, 0), 99);
}

#[test]
fn blend_stays_between_its_inputs() {
    for percent in [0u8, 1, 30, 50, 99, 100] {
        for reference in [0u8, 1, 127, 128, 254, 255] {
            for seed in [0u8, 1, 127, 128, 254, 255] {
                let c = blend_channel(reference, seed, percent);
                assert!(c >= reference.min(seed));
                assert!(c <= reference.max(seed));
            }
        }
    }
}

#[test]
fn blend_works_channel_by_channel() {
    assert_eq!(blend(rgb(0, 128, 255), rgb(100, 100, 100), 50), rgb(50, 114, 178));
    assert_eq!(blend_color(rgb(0, 128, 255), rgb(100, 100, 100)), rgb(50, 114, 178));
    assert_eq!(blend(rgb(0, 128, 255), rgb(100, 100, 100), 30), rgb(70, 108, 147));
}

#[test]
fn the_reference_colours() {
    let colors = reference_colors();
    assert_eq!(colors.len(), 16);
    assert_eq!(colors[0], rgb(0, 0, 0));
    assert_eq!(colors[1], rgb(128, 0, 0));
    assert_eq!(colors[7], rgb(192, 192, 192));
    assert_eq!(colors[8], rgb(128, 128, 128));
    assert_eq!(colors[11], rgb(255, 255, 0));
    assert_eq!(colors[15], rgb(255, 255, 255));
}

#[test]
fn the_slot_names() {
    let names = slot_names();
    let expected: Vec<String> = (0..16).map(|k| format!("base{}", k)).collect();
    assert_eq!(names, expected);
}

#[test]
fn the_ramp_of_a_seed() {
    let ramp = base16_ramp(rgb(30, 60, 91));
    assert_eq!(ramp.len(), 16);
    assert_eq!(ramp[0], rgb(15, 30, 46));
    assert_eq!(ramp[1], rgb(79, 30, 46));
    assert_eq!(ramp[7], rgb(111, 126, 142));
    assert_eq!(ramp[15], rgb(143, 158, 173));
}

#[test]
fn the_ramp_is_the_same_on_every_run() {
    let seed = rgb(201, 17, 88);
    assert_eq!(base16_ramp(seed), base16_ramp(seed));
    assert_eq!(base16_pairs(seed), base16_pairs(seed));
}

#[test]
fn the_ramp_as_pairs_is_in_hexadecimal() {
    let pairs = base16_pairs(rgb(30, 60, 91));
    assert_eq!(pairs.len(), 16);
    assert_eq!(pairs[0], ("base0".to_string(), "0f1e2e".to_string()));
    assert_eq!(pairs[1], ("base1".to_string(), "4f1e2e".to_string()));
    assert_eq!(pairs[10], ("base10".to_string(), "0f9e2e".to_string()));
    assert_eq!(pairs[15], ("base15".to_string(), "8f9ead".to_string()));
}

#[test]
fn hexadecimal_has_leading_zeros_and_lower_case() {
    let pairs = base16_pairs(rgb(0, 0, 0));
    assert_eq!(pairs[0].1, "000000");
    assert_eq!(pairs[15].1, "808080");
    let pairs = base16_pairs(rgb(255, 255, 255));
    assert_eq!(pairs[15].1, "ffffff");
    assert_eq!(pairs[0].1, "808080");
    assert_eq!(pairs[9].1, "ff8080");
}

#[test]
fn the_ramp_goes_into_the_context() {
    let mut context = Context::new();
    context.insert("base3".to_string(), "stale".to_string());
    context.insert("other".to_string(), "kept".to_string());
    generate_base16_colors(&mut context, rgb(30, 60, 91));
    assert_eq!(context.len(), 17);
    assert_eq!(context.get("base0").map(|s| s.as_str()), Some("0f1e2e"));
    assert_eq!(context.get("base3").map(|s| s.as_str()), Some("4f5e2e"));
    assert_eq!(context.get("base15").map(|s| s.as_str()), Some("8f9ead"));
    assert_eq!(context.get("other").map(|s| s.as_str()), Some("kept"));
}

#[test]
fn a_weight_beyond_the_whole_is_clamped() {
    assert_eq!(blend_channel(255, 0, 200), 255);
    assert_eq!(blend_channel(0, 255, 200), 0);
    assert_eq!(blend_channel(100, 50, 150), 125);
    assert_eq!(blend_channel(60, 100, 150), 40);
    assert_eq!(blend_channel(0, 60, 101), 0);
    assert_eq!(blend_channel(0, 1, 101), 0);
    assert_eq!(blend_channel(255, 255, 255), 255);
    assert_eq!(blend_channel(200, 100, 255), 255);
    assert_eq!(blend_channel(7, 7, 255), 7);
}
